//! The executor: the semantics of each instruction, one step of a process, and
//! the time slice in which a process holds the CPU.
use vstd::prelude::*;
use crate::byte_utils::{self, be16, bytes_of_word, AccessResult};
use crate::cpu::{Cpu, NUM_REGISTERS};
use crate::instr::{
    addresses, decode, Instruction, InstructionType, INSTRUCTION_LEN, NUM_INSTRUCTIONS_PER_BLOCK,
};
use crate::pcb::{Pcb, Status, STACK_LEN};

verus! {

/// How a step or a time slice ended.
#[derive(Clone, Copy, Debug, PartialEq, Eq, Structural)]
pub enum ExecResult {
    /// The instruction completed; the process can go on.
    Success,
    /// The process executed `Exit` and ended normally.
    Exit,
    /// The process ended abnormally: an access out of bounds, an unaligned or
    /// out-of-range fetch, an unknown opcode, or a division by zero.
    Fault,
    /// A terminal read found no input byte; nothing changed, and the same
    /// instruction runs again once a byte is there.
    NeedInput,
}

/// The terminal a process talks to: the input bytes not read yet, oldest
/// first, and every byte written so far.
pub struct Terminal {
    pub input: Vec<u8>,
    pub output: Vec<u8>,
}

impl Terminal {
    /// A terminal with no pending input and no output.
    pub fn new() -> (r: Terminal)
        ensures
            r.input@ == Seq::<u8>::empty(),
            r.output@ == Seq::<u8>::empty(),
    {
        Terminal { input: Vec::new(), output: Vec::new() }
    }
}

/// Largest number of instructions one time slice runs, whatever the clock says.
pub const MAX_SLICE_STEPS: u64 = 10_000;

/// Length of a time slice, in milliseconds.
pub const TIME_SLICE_MS: u64 = 1;

/// Length of a time slice, in nanoseconds.
pub const TIME_SLICE_NS: u64 = TIME_SLICE_MS * 1_000_000;

/// The state one instruction reads and writes.
pub struct Machine {
    pub ip: u16,
    pub regs: Seq<u16>,
    pub stack: Seq<u8>,
    pub input: Seq<u8>,
    pub output: Seq<u8>,
}

/// A step's result and the state after it.
pub struct Outcome {
    pub result: ExecResult,
    pub m: Machine,
}

/// The machine state of a CPU, a stack and a terminal.
pub open spec fn machine_of(cpu: Cpu, stack: Seq<u8>, term: Terminal) -> Machine {
    Machine {
        ip: cpu.instr_ptr,
        regs: cpu.registers@,
        stack: stack,
        input: term.input@,
        output: term.output@,
    }
}

/// `x` reduced to a word, wrapping around.
pub open spec fn wrap16(x: int) -> u16 {
    (x % 0x1_0000) as u16
}

/// The value an arithmetic or comparison operation gives, or `None` where it
/// faults (division by zero) or `t` is no such operation.
pub open spec fn binop_value(t: InstructionType, a: u16, b: u16) -> Option<u16> {
    match t {
        InstructionType::Add => Some(wrap16(a + b)),
        InstructionType::Subtract => Some(wrap16(a - b)),
        InstructionType::Multiply => Some(wrap16(a * b)),
        InstructionType::Divide => if b == 0 {
            None
        } else {
            Some((a / b) as u16)
        },
        InstructionType::Equal => Some(if a == b { 1u16 } else { 0u16 }),
        _ => None,
    }
}

/// Whether `r` names a register.
pub open spec fn is_reg(r: u8) -> bool {
    r < NUM_REGISTERS
}

/// Whether a word at `addr..addr + 2` lies within the stack.
pub open spec fn word_in_stack(addr: u16) -> bool {
    addr + 1 < STACK_LEN
}

/// A step's outcome: its result and the state it leaves.
pub open spec fn done(result: ExecResult, m: Machine) -> Outcome {
    Outcome { result, m }
}

/// `m` with register `r` set to `v`.
pub open spec fn with_reg(m: Machine, r: u8, v: u16) -> Machine {
    Machine { regs: m.regs.update(r as int, v), ..m }
}

/// The effect of instruction `ins` once it has been fetched; `m` is the state
/// before the instruction pointer moved past it, `n` the state after.
pub open spec fn dispatch_spec(ins: Instruction, m: Machine, n: Machine, use_term: bool) -> Outcome {
    let (r1, r2, r3) = (ins.reg_1(), ins.reg_2(), ins.reg_3());
    let (lit1, lit2) = (ins.literal_1(), ins.literal_2());
    match decode(ins.bytes[0]) {
        None => done(ExecResult::Fault, n),
        Some(t) => match t {
            InstructionType::Load => if is_reg(r1) && word_in_stack(lit2) {
                done(
                    ExecResult::Success,
                    with_reg(n, r1, be16(n.stack[lit2 as int], n.stack[lit2 + 1])),
                )
            } else {
                done(ExecResult::Fault, n)
            },
            InstructionType::LoadConstant => if is_reg(r1) {
                done(ExecResult::Success, with_reg(n, r1, lit2))
            } else {
                done(ExecResult::Fault, n)
            },
            InstructionType::Store => if is_reg(r3) && word_in_stack(lit1) {
                let w = bytes_of_word(n.regs[r3 as int]);
                done(
                    ExecResult::Success,
                    Machine {
                        stack: n.stack.update(lit1 as int, w[0]).update(lit1 + 1, w[1]),
                        ..n
                    },
                )
            } else {
                done(ExecResult::Fault, n)
            },
            InstructionType::Goto => done(ExecResult::Success, Machine { ip: lit1, ..n }),
            InstructionType::GotoIf => if is_reg(r3) {
                if n.regs[r3 as int] != 0 {
                    done(ExecResult::Success, Machine { ip: lit1, ..n })
                } else {
                    done(ExecResult::Success, n)
                }
            } else {
                done(ExecResult::Fault, n)
            },
            InstructionType::CharPrint => if !use_term {
                done(ExecResult::Success, n)
            } else if lit1 < STACK_LEN {
                done(ExecResult::Success, Machine { output: n.output.push(n.stack[lit1 as int]), ..n })
            } else {
                done(ExecResult::Fault, n)
            },
            InstructionType::CharRead => if !use_term {
                done(ExecResult::Success, n)
            } else if lit1 >= STACK_LEN {
                done(ExecResult::Fault, n)
            } else if n.input.len() == 0 {
                done(ExecResult::NeedInput, m)
            } else {
                done(
                    ExecResult::Success,
                    Machine {
                        stack: n.stack.update(lit1 as int, n.input[0]),
                        input: n.input.drop_first(),
                        ..n
                    },
                )
            },
            InstructionType::Exit => done(ExecResult::Exit, n),
            _ => if is_reg(r1) && is_reg(r2) && is_reg(r3) && binop_value(
                t,
                n.regs[r1 as int],
                n.regs[r2 as int],
            ) is Some {
                done(
                    ExecResult::Success,
                    with_reg(
                        n,
                        r3,
                        binop_value(t, n.regs[r1 as int], n.regs[r2 as int])->Some_0,
                    ),
                )
            } else {
                done(ExecResult::Fault, n)
            },
        },
    }
}

/// One step: fetch the instruction at the instruction pointer (a fault, with
/// nothing changed, when there is none), move the pointer past it, and run it.
pub open spec fn step(m: Machine, prog: Seq<Instruction>, use_term: bool) -> Outcome {
    if !addresses(prog, m.ip as int) {
        done(ExecResult::Fault, m)
    } else {
        let ins = prog[m.ip as int / INSTRUCTION_LEN as int];
        dispatch_spec(ins, m, Machine { ip: (m.ip + INSTRUCTION_LEN) as u16, ..m }, use_term)
    }
}

/// Up to `k` steps from `m`, stopping after the first one that does not
/// succeed.
pub open spec fn run(m: Machine, prog: Seq<Instruction>, use_term: bool, k: nat) -> Outcome
    decreases k,
{
    if k <= 1 {
        step(m, prog, use_term)
    } else {
        let o = run(m, prog, use_term, (k - 1) as nat);
        if o.result == ExecResult::Success {
            step(o.m, prog, use_term)
        } else {
            o
        }
    }
}

/// The postcondition shared by the arithmetic and comparison operations.
pub open spec fn binop_post(
    t: InstructionType,
    before: Cpu,
    after: Cpu,
    a: u8,
    b: u8,
    d: u8,
    r: AccessResult<()>,
) -> bool {
    let ok = is_reg(a) && is_reg(b) && is_reg(d) && binop_value(
        t,
        before.registers[a as int],
        before.registers[b as int],
    ) is Some;
    &&& r is Ok <==> ok
    &&& after.instr_ptr == before.instr_ptr
    &&& after.registers@ == if ok {
        before.registers@.update(
            d as int,
            binop_value(t, before.registers[a as int], before.registers[b as int])->Some_0,
        )
    } else {
        before.registers@
    }
}

impl ExecResult {
    /// `Success` for a completed access, `Fault` for a failed one.
    pub fn from(access_result: AccessResult<()>) -> (r: ExecResult)
        ensures
            access_result is Ok ==> r == ExecResult::Success,
            access_result is Err ==> r == ExecResult::Fault,
    {
        match access_result {
            Ok(_) => ExecResult::Success,
            Err(_) => ExecResult::Fault,
        }
    }
}

/// Drives one process: runs its instructions on the CPU, one at a time or a
/// time slice at a time. Terminal instructions take effect only when the
/// process runs in the foreground.
pub struct Executor {
    pub proc_id: u16,
    pub use_term: bool,
}

impl Executor {
    /// An executor for process `proc_id`.
    pub fn new(proc_id: u16, use_term: bool) -> (r: Executor)
        ensures
            r.proc_id == proc_id,
            r.use_term == use_term,
    {
        Executor { proc_id: proc_id, use_term: use_term }
    }

    /// The id of the process this executor drives.
    pub fn get_proc_id(&self) -> (r: u16)
        ensures
            r == self.proc_id,
    {
        self.proc_id
    }

    /// The instruction at the CPU's instruction pointer.
    fn get_next_instr(&self, cpu: &Cpu, pcb: &Pcb) -> (r: AccessResult<Instruction>)
        ensures
            r is Ok <==> addresses(pcb.instr@, cpu.instr_ptr as int),
            r is Ok ==> r->Ok_0 == pcb.instr@[cpu.instr_ptr as int / INSTRUCTION_LEN as int],
            r is Ok ==> cpu.instr_ptr + INSTRUCTION_LEN < 0x1_0000,
    {
        let addr = cpu.instr_ptr as usize;
        pcb.get_instr_blk().get_instruction_at(addr)
    }

    /// Moves the instruction pointer past one instruction.
    fn advance_cpu_instr_ptr(&self, cpu: &mut Cpu)
        requires
            old(cpu).instr_ptr + INSTRUCTION_LEN < 0x1_0000,
        ensures
            final(cpu).instr_ptr == old(cpu).instr_ptr + INSTRUCTION_LEN,
            final(cpu).registers == old(cpu).registers,
    {
        cpu.instr_ptr = cpu.instr_ptr + INSTRUCTION_LEN as u16;
    }

    /// Register `dest_reg` gets the stack word at `addr`.
    fn load(&self, cpu: &mut Cpu, pcb: &Pcb, dest_reg: u8, addr: u16) -> (r: AccessResult<()>)
        ensures
            r is Ok <==> is_reg(dest_reg) && word_in_stack(addr),
            final(cpu).instr_ptr == old(cpu).instr_ptr,
            r is Ok ==> final(cpu).registers@ == old(cpu).registers@.update(
                dest_reg as int,
                be16(pcb.stack.bytes[addr as int], pcb.stack.bytes[addr + 1]),
            ),
            r is Err ==> final(cpu).registers == old(cpu).registers,
    {
        match byte_utils::get_u16_at(pcb.get_stack(), addr as usize) {
            Ok(loaded_val) => cpu.set_reg(dest_reg, loaded_val),
            Err(e) => Err(e),
        }
    }

    /// Register `dest_reg` gets `constant`.
    fn load_const(&self, cpu: &mut Cpu, dest_reg: u8, constant: u16) -> (r: AccessResult<()>)
        ensures
            r is Ok <==> is_reg(dest_reg),
            final(cpu).instr_ptr == old(cpu).instr_ptr,
            r is Ok ==> final(cpu).registers@ == old(cpu).registers@.update(dest_reg as int, constant),
            r is Err ==> final(cpu).registers == old(cpu).registers,
    {
        cpu.set_reg(dest_reg, constant)
    }

    /// The stack word at `addr` gets register `src_reg`.
    fn store(&self, cpu: &Cpu, pcb: &mut Pcb, src_reg: u8, addr: u16) -> (r: AccessResult<()>)
        ensures
            r is Ok <==> is_reg(src_reg) && word_in_stack(addr),
            r is Ok ==> final(pcb).stack.bytes@ == old(pcb).stack.bytes@.update(
                addr as int,
                bytes_of_word(cpu.registers[src_reg as int])[0],
            ).update(addr + 1, bytes_of_word(cpu.registers[src_reg as int])[1]),
            r is Err ==> final(pcb).stack.bytes == old(pcb).stack.bytes,
            final(pcb).id == old(pcb).id,
            final(pcb).exe_file_name@ == old(pcb).exe_file_name@,
            final(pcb).status == old(pcb).status,
            final(pcb).ctx == old(pcb).ctx,
            final(pcb).instr@ == old(pcb).instr@,
    {
        match cpu.get_reg(src_reg) {
            Ok(reg_val) => {
                let r = byte_utils::set_u16_at(pcb.get_stack_mut(), addr as usize, reg_val);
                proof {
                    if r is Err {
                        assert(pcb.stack.bytes =~= old(pcb).stack.bytes);
                    }
                }
                r
            },
            Err(e) => Err(e),
        }
    }

    /// Register `dest_reg` gets the wrapped sum of two registers.
    fn add(&self, cpu: &mut Cpu, src_reg_a: u8, src_reg_b: u8, dest_reg: u8) -> (r: AccessResult<()>)
        ensures
            binop_post(InstructionType::Add, *old(cpu), *final(cpu), src_reg_a, src_reg_b, dest_reg, r),
    {
        let a = match cpu.get_reg(src_reg_a) {
            Ok(v) => v,
            Err(e) => return Err(e),
        };
        let b = match cpu.get_reg(src_reg_b) {
            Ok(v) => v,
            Err(e) => return Err(e),
        };
        cpu.set_reg(dest_reg, a.wrapping_add(b))
    }

    /// Register `dest_reg` gets the wrapped difference of two registers.
    fn sub(&self, cpu: &mut Cpu, src_reg_a: u8, src_reg_b: u8, dest_reg: u8) -> (r: AccessResult<()>)
        ensures
            binop_post(
                InstructionType::Subtract,
                *old(cpu),
                *final(cpu),
                src_reg_a,
                src_reg_b,
                dest_reg,
                r,
            ),
    {
        let a = match cpu.get_reg(src_reg_a) {
            Ok(v) => v,
            Err(e) => return Err(e),
        };
        let b = match cpu.get_reg(src_reg_b) {
            Ok(v) => v,
            Err(e) => return Err(e),
        };
        cpu.set_reg(dest_reg, a.wrapping_sub(b))
    }

    /// Register `dest_reg` gets the wrapped product of two registers.
    fn mul(&self, cpu: &mut Cpu, src_reg_a: u8, src_reg_b: u8, dest_reg: u8) -> (r: AccessResult<()>)
        ensures
            binop_post(
                InstructionType::Multiply,
                *old(cpu),
                *final(cpu),
                src_reg_a,
                src_reg_b,
                dest_reg,
                r,
            ),
    {
        let a = match cpu.get_reg(src_reg_a) {
            Ok(v) => v,
            Err(e) => return Err(e),
        };
        let b = match cpu.get_reg(src_reg_b) {
            Ok(v) => v,
            Err(e) => return Err(e),
        };
        cpu.set_reg(dest_reg, a.wrapping_mul(b))
    }

    /// Register `dest_reg` gets the quotient of two registers; a zero divisor
    /// is a fault.
    fn div(&self, cpu: &mut Cpu, src_reg_a: u8, src_reg_b: u8, dest_reg: u8) -> (r: AccessResult<()>)
        ensures
            binop_post(
                InstructionType::Divide,
                *old(cpu),
                *final(cpu),
                src_reg_a,
                src_reg_b,
                dest_reg,
                r,
            ),
    {
        let a = match cpu.get_reg(src_reg_a) {
            Ok(v) => v,
            Err(e) => return Err(e),
        };
        let b = match cpu.get_reg(src_reg_b) {
            Ok(v) => v,
            Err(e) => return Err(e),
        };
        if b == 0 {
            return Err(());
        }
        cpu.set_reg(dest_reg, a / b)
    }

    /// Register `dest_reg` gets one when two registers are equal, else zero.
    fn eq(&self, cpu: &mut Cpu, src_reg_a: u8, src_reg_b: u8, dest_reg: u8) -> (r: AccessResult<()>)
        ensures
            binop_post(InstructionType::Equal, *old(cpu), *final(cpu), src_reg_a, src_reg_b, dest_reg, r),
    {
        let a = match cpu.get_reg(src_reg_a) {
            Ok(v) => v,
            Err(e) => return Err(e),
        };
        let b = match cpu.get_reg(src_reg_b) {
            Ok(v) => v,
            Err(e) => return Err(e),
        };
        let res: u16 = if a == b {
            0x01
        } else {
            0x00
        };
        cpu.set_reg(dest_reg, res)
    }

    /// Jumps to `addr`.
    fn goto(&self, cpu: &mut Cpu, addr: u16)
        ensures
            final(cpu).instr_ptr == addr,
            final(cpu).registers == old(cpu).registers,
    {
        cpu.instr_ptr = addr;
    }

    /// Jumps to `addr` when register `if_reg` is not zero.
    fn goto_if(&self, cpu: &mut Cpu, if_reg: u8, addr: u16) -> (r: AccessResult<()>)
        ensures
            r is Ok <==> is_reg(if_reg),
            final(cpu).registers == old(cpu).registers,
            final(cpu).instr_ptr == if is_reg(if_reg) && old(cpu).registers[if_reg as int] != 0 {
                addr
            } else {
                old(cpu).instr_ptr
            },
    {
        let eq_val = match cpu.get_reg(if_reg) {
            Ok(v) => v,
            Err(e) => return Err(e),
        };
        if eq_val != 0 {
            self.goto(cpu, addr);
        }
        Ok(())
    }

    /// Writes the stack byte at `addr` to the terminal, in the foreground.
    fn char_print(&self, pcb: &Pcb, term: &mut Terminal, addr: u16) -> (r: AccessResult<()>)
        ensures
            r is Ok <==> !self.use_term || addr < STACK_LEN,
            final(term).input@ == old(term).input@,
            final(term).output@ == if self.use_term && addr < STACK_LEN {
                old(term).output@.push(pcb.stack.bytes[addr as int])
            } else {
                old(term).output@
            },
    {
        if self.use_term {
            let addr = addr as usize;
            if addr < STACK_LEN {
                term.output.push(pcb.stack.bytes[addr]);
                Ok(())
            } else {
                Err(())
            }
        } else {
            Ok(())
        }
    }

    /// Reads one terminal byte into the stack byte at `addr`, in the
    /// foreground. With no byte waiting, it moves the instruction pointer back
    /// to this instruction and asks for input.
    fn char_read(&self, cpu: &mut Cpu, pcb: &mut Pcb, term: &mut Terminal, addr: u16) -> (r: ExecResult)
        requires
            old(cpu).instr_ptr >= INSTRUCTION_LEN,
        ensures
            final(cpu).registers == old(cpu).registers,
            final(pcb).id == old(pcb).id,
            final(pcb).exe_file_name@ == old(pcb).exe_file_name@,
            final(pcb).status == old(pcb).status,
            final(pcb).ctx == old(pcb).ctx,
            final(pcb).instr@ == old(pcb).instr@,
            final(term).output@ == old(term).output@,
            ({
                let o = dispatch_spec_char_read(
                    self.use_term,
                    addr,
                    old(cpu).instr_ptr,
                    old(pcb).stack.bytes@,
                    old(term).input@,
                );
                &&& r == o.0
                &&& final(cpu).instr_ptr == o.1
                &&& final(pcb).stack.bytes@ == o.2
                &&& final(term).input@ == o.3
            }),
    {
        if !self.use_term {
            return ExecResult::Success;
        }
        let addr = addr as usize;
        if addr >= STACK_LEN {
            return ExecResult::Fault;
        }
        if term.input.len() == 0 {
            cpu.instr_ptr = cpu.instr_ptr - INSTRUCTION_LEN as u16;
            return ExecResult::NeedInput;
        }
        let read_byte = term.input.remove(0);
        pcb.stack.bytes[addr] = read_byte;
        ExecResult::Success
    }

    /// Runs an instruction already fetched, with the instruction pointer
    /// already past it.
    fn dispatch(&self, instr: &Instruction, cpu: &mut Cpu, pcb: &mut Pcb, term: &mut Terminal) -> (r: ExecResult)
        requires
            old(cpu).instr_ptr >= INSTRUCTION_LEN,
        ensures
            final(pcb).same_but_stack(old(pcb)),
            ({
                let n = machine_of(*old(cpu), old(pcb).stack.bytes@, *old(term));
                let m = Machine { ip: (old(cpu).instr_ptr - INSTRUCTION_LEN) as u16, ..n };
                let o = dispatch_spec(*instr, m, n, self.use_term);
                &&& r == o.result
                &&& machine_of(*final(cpu), final(pcb).stack.bytes@, *final(term)) == o.m
            }),
    {
        let reg_1 = instr.get_reg_1();
        let reg_2 = instr.get_reg_2();
        let reg_3 = instr.get_reg_3();
        let lit_1 = instr.get_literal_1();
        let lit_2 = instr.get_literal_2();
        match instr.get_type() {
            None => ExecResult::Fault,
            Some(t) => match t {
                InstructionType::Load => ExecResult::from(self.load(cpu, pcb, reg_1, lit_2)),
                InstructionType::LoadConstant => ExecResult::from(self.load_const(cpu, reg_1, lit_2)),
                InstructionType::Store => ExecResult::from(self.store(cpu, pcb, reg_3, lit_1)),
                InstructionType::Add => ExecResult::from(self.add(cpu, reg_1, reg_2, reg_3)),
                InstructionType::Subtract => ExecResult::from(self.sub(cpu, reg_1, reg_2, reg_3)),
                InstructionType::Multiply => ExecResult::from(self.mul(cpu, reg_1, reg_2, reg_3)),
                InstructionType::Divide => ExecResult::from(self.div(cpu, reg_1, reg_2, reg_3)),
                InstructionType::Equal => ExecResult::from(self.eq(cpu, reg_1, reg_2, reg_3)),
                InstructionType::Goto => {
                    self.goto(cpu, lit_1);
                    ExecResult::Success
                },
                InstructionType::GotoIf => ExecResult::from(self.goto_if(cpu, reg_3, lit_1)),
                InstructionType::CharPrint => ExecResult::from(self.char_print(pcb, term, lit_1)),
                InstructionType::CharRead => self.char_read(cpu, pcb, term, lit_1),
                InstructionType::Exit => ExecResult::Exit,
            },
        }
    }

    /// Runs one instruction of the process: fetches the instruction at the
    /// instruction pointer, moves the pointer past it, then carries it out.
    pub fn exec_once(&self, cpu: &mut Cpu, pcb: &mut Pcb, term: &mut Terminal) -> (r: ExecResult)
        ensures
            final(pcb).same_but_stack(old(pcb)),
            ({
                let o = step(
                    machine_of(*old(cpu), old(pcb).stack.bytes@, *old(term)),
                    old(pcb).instr@,
                    self.use_term,
                );
                &&& r == o.result
                &&& machine_of(*final(cpu), final(pcb).stack.bytes@, *final(term)) == o.m
            }),
    {
        let instr = match self.get_next_instr(cpu, pcb) {
            Ok(instr) => instr,
            Err(_) => return ExecResult::Fault,
        };
        self.advance_cpu_instr_ptr(cpu);
        self.dispatch(&instr, cpu, pcb, term)
    }
}

/// What a time slice of process `before` leaves: `after` and `term_after` are
/// the state after some number of steps, at least one and at most
/// `MAX_SLICE_STEPS`, run from the saved context, stopping at the first step
/// that does not succeed; the context is saved back and the status says
/// whether the process can run again.
pub open spec fn slice_post(
    before: Pcb,
    after: Pcb,
    term_before: Terminal,
    term_after: Terminal,
    use_term: bool,
    r: ExecResult,
) -> bool {
    let m0 = machine_of(before.ctx, before.stack.bytes@, term_before);
    &&& exists|k: nat|
        1 <= k <= MAX_SLICE_STEPS && #[trigger] run(m0, before.instr@, use_term, k) == (Outcome {
            result: r,
            m: machine_of(after.ctx, after.stack.bytes@, term_after),
        })
    &&& after.status == if r == ExecResult::Success || r == ExecResult::NeedInput {
        Status::Blocked
    } else {
        Status::Exited
    }
    &&& after.id == before.id
    &&& after.exe_file_name@ == before.exe_file_name@
    &&& after.instr@ == before.instr@
}

impl Executor {
    /// Runs the process for one time slice: loads its context into the CPU,
    /// runs instructions until the slice's time is up, `MAX_SLICE_STEPS` have
    /// run, or one does not succeed, then saves the context back. At least
    /// one instruction runs.
    pub fn run_slice(&self, cpu: &mut Cpu, pcb: &mut Pcb, term: &mut Terminal) -> (r: ExecResult)
        ensures
            slice_post(*old(pcb), *final(pcb), *old(term), *final(term), self.use_term, r),
            final(cpu).instr_ptr == final(pcb).ctx.instr_ptr,
            final(cpu).registers == final(pcb).ctx.registers,
    {
        let ghost m0 = machine_of(pcb.ctx, pcb.stack.bytes@, *term);
        let ghost prog = pcb.instr@;
        pcb.load_cpu_ctx(cpu);
        pcb.set_status(Status::Executing);
        let start = time::precise_time_ns();
        let mut result = self.exec_once(cpu, pcb, term);
        let mut steps: u64 = 1;
        let mut running = result == ExecResult::Success;
        while running && steps < MAX_SLICE_STEPS
            invariant
                1 <= steps <= MAX_SLICE_STEPS,
                pcb.instr@ == prog,
                pcb.id == old(pcb).id,
                pcb.exe_file_name@ == old(pcb).exe_file_name@,
                running ==> result == ExecResult::Success,
                run(m0, prog, self.use_term, steps as nat) == (Outcome {
                    result,
                    m: machine_of(*cpu, pcb.stack.bytes@, *term),
                }),
            decreases MAX_SLICE_STEPS - steps,
        {
            result = self.exec_once(cpu, pcb, term);
            steps += 1;
            running = result == ExecResult::Success && time::precise_time_ns().wrapping_sub(start)
                < TIME_SLICE_NS;
        }
        pcb.save_cpu_ctx(cpu);
        let status = match result {
            ExecResult::Success => Status::Blocked,
            ExecResult::NeedInput => Status::Blocked,
            _ => Status::Exited,
        };
        pcb.set_status(status);
        assert(run(m0, prog, self.use_term, steps as nat) == (Outcome {
            result,
            m: machine_of(pcb.ctx, pcb.stack.bytes@, *term),
        }));
        result
    }
}

/// The terminal read's result, instruction pointer, stack and input, given the
/// instruction pointer already past the instruction.
pub open spec fn dispatch_spec_char_read(
    use_term: bool,
    addr: u16,
    ip: u16,
    stack: Seq<u8>,
    input: Seq<u8>,
) -> (ExecResult, u16, Seq<u8>, Seq<u8>) {
    if !use_term {
        (ExecResult::Success, ip, stack, input)
    } else if addr >= STACK_LEN {
        (ExecResult::Fault, ip, stack, input)
    } else if input.len() == 0 {
        (ExecResult::NeedInput, (ip - INSTRUCTION_LEN) as u16, stack, input)
    } else {
        (ExecResult::Success, ip, stack.update(addr as int, input[0]), input.drop_first())
    }
}

/// Whether `ins` is a jump that is taken with registers `regs`.
pub open spec fn jump_taken(ins: Instruction, regs: Seq<u16>) -> bool {
    ||| ins.kind() == Some(InstructionType::Goto)
    ||| ins.kind() == Some(InstructionType::GotoIf) && is_reg(ins.reg_3()) && regs[ins.reg_3() as int]
        != 0
}

/// The register an instruction writes, if it writes one.
pub open spec fn dest_reg(ins: Instruction) -> u8 {
    if ins.kind() == Some(InstructionType::Load) || ins.kind() == Some(InstructionType::LoadConstant) {
        ins.reg_1()
    } else {
        ins.reg_3()
    }
}

/// After a step that succeeds, the instruction pointer is just past the
/// instruction that ran, unless that instruction is a jump that is taken, in
/// which case it is the jump's target.
pub proof fn lemma_step_instr_ptr(m: Machine, prog: Seq<Instruction>, use_term: bool)
    requires
        prog.len() <= NUM_INSTRUCTIONS_PER_BLOCK,
        step(m, prog, use_term).result == ExecResult::Success,
    ensures
        addresses(prog, m.ip as int),
        ({
            let ins = prog[m.ip as int / INSTRUCTION_LEN as int];
            let after = step(m, prog, use_term).m.ip;
            &&& jump_taken(ins, m.regs) ==> after == ins.literal_1()
            &&& !jump_taken(ins, m.regs) ==> after == m.ip + INSTRUCTION_LEN
        }),
{
    assert(addresses(prog, m.ip as int));
}

/// A step writes no register outside the register file: the file keeps its
/// `NUM_REGISTERS` registers, and a register that changes is the destination
/// the instruction names, which is then a register of the file.
pub proof fn lemma_step_registers(m: Machine, prog: Seq<Instruction>, use_term: bool)
    requires
        m.regs.len() == NUM_REGISTERS,
    ensures
        step(m, prog, use_term).m.regs.len() == NUM_REGISTERS,
        forall|i: int|
            0 <= i < NUM_REGISTERS && #[trigger] step(m, prog, use_term).m.regs[i] != m.regs[i] ==> {
                &&& addresses(prog, m.ip as int)
                &&& i == dest_reg(prog[m.ip as int / INSTRUCTION_LEN as int])
                &&& is_reg(dest_reg(prog[m.ip as int / INSTRUCTION_LEN as int]))
            },
{
}

} // verus!
