//! The single virtual CPU: an instruction pointer and a small register file.
use vstd::prelude::*;
use crate::byte_utils::AccessResult;

verus! {

/// Number of word registers in the register file.
pub const NUM_REGISTERS: usize = 6;

/// The CPU state; a saved copy of it is a process context.
#[derive(Clone, Copy)]
pub struct Cpu {
    pub instr_ptr: u16,
    pub registers: [u16; NUM_REGISTERS],
}

impl Cpu {
    /// Whether every register and the instruction pointer are zero.
    pub open spec fn is_zeroed(&self) -> bool {
        &&& self.instr_ptr == 0
        &&& forall|i: int| 0 <= i < NUM_REGISTERS ==> self.registers[i] == 0
    }

    /// A CPU with the instruction pointer and all registers at zero.
    pub fn init() -> (r: Cpu)
        ensures
            r.is_zeroed(),
    {
        Cpu { instr_ptr: 0, registers: [0; NUM_REGISTERS] }
    }

    /// A CPU with the instruction pointer and all registers at zero.
    pub fn new() -> (r: Cpu)
        ensures
            r.is_zeroed(),
    {
        Cpu::init()
    }

    /// The value of register `addr`, or an error when there is no such register.
    pub fn get_reg(&self, addr: u8) -> (r: AccessResult<u16>)
        ensures
            r is Ok <==> addr < NUM_REGISTERS,
            r is Ok ==> r->Ok_0 == self.registers@[addr as int],
    {
        let addr = addr as usize;
        if addr < NUM_REGISTERS {
            Ok(self.registers[addr])
        } else {
            Err(())
        }
    }

    /// Sets register `addr` to `val`, or fails, changing nothing, when there is
    /// no such register.
    pub fn set_reg(&mut self, addr: u8, val: u16) -> (r: AccessResult<()>)
        ensures
            r is Ok <==> addr < NUM_REGISTERS,
            final(self).instr_ptr == old(self).instr_ptr,
            r is Ok ==> final(self).registers@ == old(self).registers@.update(addr as int, val),
            r is Err ==> final(self).registers@ == old(self).registers@,
    {
        let addr = addr as usize;
        if addr < NUM_REGISTERS {
            self.registers[addr] = val;
            Ok(())
        } else {
            Err(())
        }
    }
}

} // verus!
