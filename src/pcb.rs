//! The process control block: everything the machine keeps about one process.
use vstd::prelude::*;
use crate::cpu::Cpu;
use crate::instr::InstructionBlock;

verus! {

/// Bytes in a process stack.
pub const STACK_LEN: usize = 64;

/// Where a process is in its life.
#[derive(Clone, Copy, Debug, PartialEq, Eq, Structural)]
pub enum Status {
    /// Created, not yet run.
    New,
    /// Inside a time slice.
    Executing,
    /// Between time slices.
    Blocked,
    /// Finished, normally or by a fault.
    Exited,
}

/// A process's private, byte-addressed stack memory.
pub struct Stack {
    pub bytes: [u8; STACK_LEN],
}

impl Stack {
    /// A stack of zero bytes.
    pub fn new() -> (r: Stack)
        ensures
            forall|i: int| 0 <= i < STACK_LEN ==> r.bytes[i] == 0,
    {
        Stack { bytes: [0; STACK_LEN] }
    }
}

/// A process control block: the process id, the program it runs, its status,
/// its saved CPU context, its stack and its program image.
pub struct Pcb {
    pub id: u16,
    pub exe_file_name: String,
    pub status: Status,
    pub ctx: Cpu,
    pub stack: Stack,
    pub instr: InstructionBlock,
}

impl Pcb {
    /// Whether `self` and `other` agree on everything but the saved context.
    pub open spec fn same_but_ctx(&self, other: &Pcb) -> bool {
        &&& self.id == other.id
        &&& self.exe_file_name@ == other.exe_file_name@
        &&& self.status == other.status
        &&& self.stack.bytes == other.stack.bytes
        &&& self.instr@ == other.instr@
    }

    /// Whether `self` and `other` agree on everything but the stack.
    pub open spec fn same_but_stack(&self, other: &Pcb) -> bool {
        &&& self.id == other.id
        &&& self.exe_file_name@ == other.exe_file_name@
        &&& self.status == other.status
        &&& self.ctx == other.ctx
        &&& self.instr@ == other.instr@
    }

    /// A new process `proc_id` running `instr`: status `New`, a zeroed context
    /// and a zeroed stack.
    pub fn new(proc_id: u16, exe_file_name: String, instr: InstructionBlock) -> (r: Pcb)
        ensures
            r.id == proc_id,
            r.exe_file_name@ == exe_file_name@,
            r.status == Status::New,
            r.ctx.is_zeroed(),
            forall|i: int| 0 <= i < STACK_LEN ==> r.stack.bytes[i] == 0,
            r.instr@ == instr@,
    {
        Pcb {
            id: proc_id,
            exe_file_name: exe_file_name,
            status: Status::New,
            ctx: Cpu::new(),
            stack: Stack::new(),
            instr: instr,
        }
    }

    /// Restores the saved context into the CPU.
    pub fn load_cpu_ctx(&self, cpu: &mut Cpu)
        ensures
            final(cpu).instr_ptr == self.ctx.instr_ptr,
            final(cpu).registers == self.ctx.registers,
    {
        cpu.instr_ptr = self.ctx.instr_ptr;
        cpu.registers = self.ctx.registers;
    }

    /// Saves the CPU state as this process's context.
    pub fn save_cpu_ctx(&mut self, cpu: &Cpu)
        ensures
            final(self).ctx.instr_ptr == cpu.instr_ptr,
            final(self).ctx.registers == cpu.registers,
            final(self).same_but_ctx(old(self)),
    {
        self.ctx.instr_ptr = cpu.instr_ptr;
        self.ctx.registers = cpu.registers;
    }

    /// The stack bytes.
    pub fn get_stack(&self) -> (r: &[u8])
        ensures
            r@ == self.stack.bytes@,
    {
        self.stack.bytes.as_slice()
    }

    /// The stack bytes, for writing.
    pub fn get_stack_mut(&mut self) -> (r: &mut [u8])
        ensures
            r@ == old(self).stack.bytes@,
            final(self).stack.bytes@ == final(r)@,
            final(self).id == old(self).id,
            final(self).exe_file_name@ == old(self).exe_file_name@,
            final(self).status == old(self).status,
            final(self).ctx == old(self).ctx,
            final(self).instr@ == old(self).instr@,
    {
        &mut self.stack.bytes
    }

    /// The program image.
    pub fn get_instr_blk(&self) -> (r: &InstructionBlock)
        ensures
            r@ == self.instr@,
    {
        &self.instr
    }

    /// The process id.
    pub fn get_id(&self) -> (r: u16)
        ensures
            r == self.id,
    {
        self.id
    }

    /// Sets the process id.
    pub fn set_id(&mut self, proc_id: u16)
        ensures
            final(self).id == proc_id,
            final(self).exe_file_name@ == old(self).exe_file_name@,
            final(self).status == old(self).status,
            final(self).ctx == old(self).ctx,
            final(self).stack.bytes == old(self).stack.bytes,
            final(self).instr@ == old(self).instr@,
    {
        self.id = proc_id;
    }

    /// The process status.
    pub fn get_status(&self) -> (r: Status)
        ensures
            r == self.status,
    {
        self.status
    }

    /// Sets the process status.
    pub fn set_status(&mut self, proc_status: Status)
        ensures
            final(self).status == proc_status,
            final(self).id == old(self).id,
            final(self).exe_file_name@ == old(self).exe_file_name@,
            final(self).ctx == old(self).ctx,
            final(self).stack.bytes == old(self).stack.bytes,
            final(self).instr@ == old(self).instr@,
    {
        self.status = proc_status;
    }

    /// The saved instruction pointer.
    pub fn get_instr_ptr(&self) -> (r: u16)
        ensures
            r == self.ctx.instr_ptr,
    {
        self.ctx.instr_ptr
    }

    /// Sets the saved instruction pointer.
    pub fn set_instr_ptr(&mut self, instr_ptr: u16)
        ensures
            final(self).ctx.instr_ptr == instr_ptr,
            final(self).ctx.registers == old(self).ctx.registers,
            final(self).same_but_ctx(old(self)),
    {
        self.ctx.instr_ptr = instr_ptr;
    }
}

/// Saving the CPU into a process's context and loading that context back
/// leaves the CPU bit-identical to its state at the time it was saved.
pub proof fn lemma_save_load_round_trip(at_save: Cpu, saved: Pcb, loaded: Cpu)
    requires
        saved.ctx.instr_ptr == at_save.instr_ptr,
        saved.ctx.registers == at_save.registers,
        loaded.instr_ptr == saved.ctx.instr_ptr,
        loaded.registers == saved.ctx.registers,
    ensures
        loaded == at_save,
{
}

} // verus!
