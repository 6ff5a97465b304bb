//! A small multitasking machine: a 16-bit register CPU, a four-byte instruction
//! set, per-process stacks and program images, a bounded process table and the
//! scheduling core that runs processes one time slice at a time.
pub mod byte_utils;
pub mod clock;
pub mod cmd;
pub mod cpu;
pub mod instr;
pub mod pcb;
pub mod sys;
pub mod tbl;
pub mod text;
pub mod exec;

pub use byte_utils::AccessResult;
pub use cmd::{Command, CommandWithArgs};
pub use cpu::{Cpu, NUM_REGISTERS};
pub use exec::{ExecResult, Executor, Terminal};
pub use instr::{Instruction, InstructionBlock, InstructionType};
pub use pcb::{Pcb, Stack, Status, STACK_LEN};
pub use sys::{System, CORE_DUMP_FILE_NAME};
pub use tbl::{ProcessTable, MAX_PROCS};
