//! The four-byte instruction record, its opcodes, and the program image that
//! holds a process's instructions.
use vstd::prelude::*;
use crate::byte_utils::{self, be16, bytes_of_u32, AccessResult};

verus! {

/// Bytes in one instruction.
pub const INSTRUCTION_LEN: usize = 4;

/// Most instructions a program image can hold.
pub const NUM_INSTRUCTIONS_PER_BLOCK: usize = 256;

/// Most bytes a program image can hold.
pub const INSTRUCTION_BLOCK_LEN: usize = 1024;

/// One instruction: an opcode byte followed by three operand bytes.
#[derive(Clone, Copy)]
pub struct Instruction {
    pub bytes: [u8; INSTRUCTION_LEN],
}

/// The operations of the instruction set.
#[derive(Clone, Copy, Debug, PartialEq, Eq, Structural)]
pub enum InstructionType {
    Load,
    LoadConstant,
    Store,
    Add,
    Subtract,
    Multiply,
    Divide,
    Equal,
    Goto,
    GotoIf,
    CharPrint,
    CharRead,
    Exit,
}

/// The opcode byte of each operation.
pub open spec fn opcode(t: InstructionType) -> u8 {
    match t {
        InstructionType::Load => 0x11,
        InstructionType::LoadConstant => 0x12,
        InstructionType::Store => 0x13,
        InstructionType::Add => 0x21,
        InstructionType::Subtract => 0x22,
        InstructionType::Multiply => 0x23,
        InstructionType::Divide => 0x24,
        InstructionType::Equal => 0x25,
        InstructionType::Goto => 0x31,
        InstructionType::GotoIf => 0x32,
        InstructionType::CharPrint => 0x41,
        InstructionType::CharRead => 0x42,
        InstructionType::Exit => 0xFF,
    }
}

/// The operation whose opcode is `b`, if any.
pub open spec fn decode(b: u8) -> Option<InstructionType> {
    match b {
        0x11 => Some(InstructionType::Load),
        0x12 => Some(InstructionType::LoadConstant),
        0x13 => Some(InstructionType::Store),
        0x21 => Some(InstructionType::Add),
        0x22 => Some(InstructionType::Subtract),
        0x23 => Some(InstructionType::Multiply),
        0x24 => Some(InstructionType::Divide),
        0x25 => Some(InstructionType::Equal),
        0x31 => Some(InstructionType::Goto),
        0x32 => Some(InstructionType::GotoIf),
        0x41 => Some(InstructionType::CharPrint),
        0x42 => Some(InstructionType::CharRead),
        0xFF => Some(InstructionType::Exit),
        _ => None,
    }
}

impl Instruction {
    /// The first register operand.
    pub open spec fn reg_1(self) -> u8 {
        self.bytes[1]
    }

    /// The second register operand.
    pub open spec fn reg_2(self) -> u8 {
        self.bytes[2]
    }

    /// The third register operand.
    pub open spec fn reg_3(self) -> u8 {
        self.bytes[3]
    }

    /// The word held by operand bytes one and two.
    pub open spec fn literal_1(self) -> u16 {
        be16(self.bytes[1], self.bytes[2])
    }

    /// The word held by operand bytes two and three.
    pub open spec fn literal_2(self) -> u16 {
        be16(self.bytes[2], self.bytes[3])
    }

    /// The operation of this instruction, if its opcode is known.
    pub open spec fn kind(self) -> Option<InstructionType> {
        decode(self.bytes[0])
    }

    /// The instruction made of these four bytes.
    pub fn from_bytes(bytes: [u8; INSTRUCTION_LEN]) -> (r: Instruction)
        ensures
            r.bytes == bytes,
    {
        Instruction { bytes: bytes }
    }

    /// The instruction whose four bytes are the big-endian bytes of `word`.
    pub fn from_word(word: u32) -> (r: Instruction)
        ensures
            r.bytes@ == bytes_of_u32(word),
    {
        Instruction { bytes: byte_utils::u32_to_bytes(word) }
    }

    /// The operation named by the opcode byte, or `None` for an unknown opcode.
    pub fn get_type(&self) -> (r: Option<InstructionType>)
        ensures
            r == self.kind(),
            r matches Some(t) ==> opcode(t) == self.bytes[0],
            r is None ==> forall|t: InstructionType| opcode(t) != self.bytes[0],
    {
        let instr_byte = self.bytes[0];
        let r = match instr_byte {
            0x11 => Some(InstructionType::Load),
            0x12 => Some(InstructionType::LoadConstant),
            0x13 => Some(InstructionType::Store),
            0x21 => Some(InstructionType::Add),
            0x22 => Some(InstructionType::Subtract),
            0x23 => Some(InstructionType::Multiply),
            0x24 => Some(InstructionType::Divide),
            0x25 => Some(InstructionType::Equal),
            0x31 => Some(InstructionType::Goto),
            0x32 => Some(InstructionType::GotoIf),
            0x41 => Some(InstructionType::CharPrint),
            0x42 => Some(InstructionType::CharRead),
            0xFF => Some(InstructionType::Exit),
            _ => None,
        };
        proof {
            if r is None {
                assert forall|t: InstructionType| opcode(t) != instr_byte by {
                    match t {
                        InstructionType::Load => {},
                        _ => {},
                    }
                }
            }
        }
        r
    }

    /// The first register operand.
    pub fn get_reg_1(&self) -> (r: u8)
        ensures
            r == self.reg_1(),
    {
        self.bytes[1]
    }

    /// The second register operand.
    pub fn get_reg_2(&self) -> (r: u8)
        ensures
            r == self.reg_2(),
    {
        self.bytes[2]
    }

    /// The third register operand.
    pub fn get_reg_3(&self) -> (r: u8)
        ensures
            r == self.reg_3(),
    {
        self.bytes[3]
    }

    /// The big-endian word of operand bytes one and two.
    pub fn get_literal_1(&self) -> (r: u16)
        ensures
            r == self.literal_1(),
    {
        byte_utils::u16_from_bytes([self.bytes[1], self.bytes[2]])
    }

    /// The big-endian word of operand bytes two and three.
    pub fn get_literal_2(&self) -> (r: u16)
        ensures
            r == self.literal_2(),
    {
        byte_utils::u16_from_bytes([self.bytes[2], self.bytes[3]])
    }
}

/// A program image: the instructions of one process, in program order.
pub struct InstructionBlock {
    instructions: Vec<Instruction>,
}

impl View for InstructionBlock {
    type V = Seq<Instruction>;

    closed spec fn view(&self) -> Seq<Instruction> {
        self.instructions@
    }
}

/// Whether a program image of `len` bytes is accepted: a positive multiple of
/// the instruction size, and no larger than a block.
pub open spec fn valid_image_len(len: nat) -> bool {
    &&& len > 0
    &&& len % INSTRUCTION_LEN as nat == 0
    &&& len <= INSTRUCTION_BLOCK_LEN
}

/// Whether `instrs` are the instructions of `bytes`, four bytes each, in order.
pub open spec fn decodes_to(bytes: Seq<u8>, instrs: Seq<Instruction>) -> bool {
    &&& instrs.len() * INSTRUCTION_LEN == bytes.len()
    &&& forall|i: int|
        0 <= i < instrs.len() ==> (#[trigger] instrs[i]).bytes@ == bytes.subrange(
            i * INSTRUCTION_LEN,
            i * INSTRUCTION_LEN + INSTRUCTION_LEN,
        )
}

/// Whether `addr` names an instruction of `instrs`: it is aligned to the
/// instruction size and the instruction it names is there.
pub open spec fn addresses(instrs: Seq<Instruction>, addr: int) -> bool {
    &&& addr >= 0
    &&& addr % INSTRUCTION_LEN as int == 0
    &&& addr / (INSTRUCTION_LEN as int) < instrs.len()
}

impl InstructionBlock {
    #[verifier::type_invariant]
    spec fn inv(self) -> bool {
        self.instructions.len() <= NUM_INSTRUCTIONS_PER_BLOCK
    }

    /// Copies a program image into a new block. Fails when the image is empty,
    /// is not a whole number of instructions, or is larger than a block.
    pub fn new(bytes: &[u8]) -> (r: Result<InstructionBlock, String>)
        ensures
            r is Ok <==> valid_image_len(bytes@.len()),
            r is Ok ==> decodes_to(bytes@, r->Ok_0@),
    {
        if bytes.len() == 0 {
            Err(String::from_str("An instruction block must hold at least one instruction."))
        } else if bytes.len() % INSTRUCTION_LEN != 0 {
            Err(
                String::from_str(
                    "An instruction block's size must be a multiple of the instruction size (4 bytes).",
                ),
            )
        } else if bytes.len() > INSTRUCTION_BLOCK_LEN {
            Err(String::from_str("An instruction block holds at most 1024 bytes."))
        } else {
            let n = bytes.len() / INSTRUCTION_LEN;
            let mut instrs: Vec<Instruction> = Vec::new();
            let mut i: usize = 0;
            while i < n
                invariant
                    n * INSTRUCTION_LEN == bytes@.len(),
                    n <= NUM_INSTRUCTIONS_PER_BLOCK,
                    i <= n,
                    instrs@.len() == i,
                    forall|j: int|
                        0 <= j < i ==> (#[trigger] instrs@[j]).bytes@ == bytes@.subrange(
                            j * INSTRUCTION_LEN,
                            j * INSTRUCTION_LEN + INSTRUCTION_LEN,
                        ),
                decreases n - i,
            {
                let at = i * INSTRUCTION_LEN;
                let instr = Instruction::from_bytes(
                    [bytes[at], bytes[at + 1], bytes[at + 2], bytes[at + 3]],
                );
                assert(instr.bytes@ =~= bytes@.subrange(at as int, at + INSTRUCTION_LEN));
                instrs.push(instr);
                i += 1;
            }
            Ok(InstructionBlock { instructions: instrs })
        }
    }

    /// The instruction at byte offset `addr`, or an error when `addr` is not
    /// aligned to the instruction size or lies past the last instruction.
    pub fn get_instruction_at(&self, addr: usize) -> (r: AccessResult<Instruction>)
        ensures
            r is Ok <==> addresses(self@, addr as int),
            r is Ok ==> r->Ok_0 == self@[addr as int / INSTRUCTION_LEN as int],
            r is Ok ==> addr < INSTRUCTION_BLOCK_LEN,
    {
        proof {
            use_type_invariant(self);
        }
        let idx = addr / INSTRUCTION_LEN;
        let is_in_bounds = idx < self.instructions.len();
        if byte_utils::is_aligned(addr, INSTRUCTION_LEN) && is_in_bounds {
            Ok(self.instructions[idx])
        } else {
            Err(())
        }
    }
}

} // verus!
