//! The system core: the CPU, the process table and the queue of exited
//! processes, with the operations the shell asks for. The threads that run
//! processes and reap them drive it from outside, one call at a time.
use vstd::prelude::*;
use crate::cpu::Cpu;
use crate::exec::{slice_post, ExecResult, Executor, Terminal};
use crate::instr::{decodes_to, valid_image_len, InstructionBlock};
use crate::pcb::{Pcb, Status, STACK_LEN};
use crate::tbl::{lemma_slots_len, live_seq, ProcessTable, MAX_PROCS};
use crate::text::{decimal, push_decimal, push_newline, push_tab, push_tab_fields, tab_fields};

verus! {

/// Name of the file a fault's core dump is written to.
pub const CORE_DUMP_FILE_NAME: &'static str = "coredump";

/// The name of a status, as listings print it.
pub open spec fn status_text(st: Status) -> Seq<char> {
    match st {
        Status::New => "New"@,
        Status::Executing => "Executing"@,
        Status::Blocked => "Blocked"@,
        Status::Exited => "Exited"@,
    }
}

/// The header line of the process listing.
pub open spec fn listing_header() -> Seq<char> {
    "pid\tstate\tip\t1\t2\t3\t4\t5\t6\texe\n"@
}

/// One line of the process listing: id, status, saved instruction pointer,
/// the six saved registers and the program name, separated by tabs.
pub open spec fn proc_row(p: Pcb) -> Seq<char> {
    decimal(p.id as nat) + seq!['\t'] + status_text(p.status) + seq!['\t'] + decimal(
        p.ctx.instr_ptr as nat,
    ) + tab_fields(p.ctx.registers@) + seq!['\t'] + p.exe_file_name@ + seq!['\n']
}

/// The lines of `ps`, in order.
pub open spec fn proc_rows(ps: Seq<Pcb>) -> Seq<char>
    decreases ps.len(),
{
    if ps.len() == 0 {
        Seq::empty()
    } else {
        proc_rows(ps.drop_last()) + proc_row(ps.last())
    }
}

/// The stack bytes as words, for printing.
pub open spec fn widen(bytes: Seq<u8>) -> Seq<u16> {
    bytes.map_values(|b: u8| b as u16)
}

/// The core dump of `cpu` and `pcb`: a line with the CPU's instruction pointer
/// and registers, a line with the process's id, status, saved instruction
/// pointer and saved registers, and a line with its stack bytes; the fields in
/// decimal, separated by tabs.
pub open spec fn dump_text(cpu: Cpu, pcb: Pcb) -> Seq<char> {
    let cpu_line = "cpu\t"@ + decimal(cpu.instr_ptr as nat) + tab_fields(cpu.registers@) + "\n"@;
    let pcb_line = "pcb\t"@ + decimal(pcb.id as nat) + "\t"@ + status_text(pcb.status) + "\t"@
        + decimal(pcb.ctx.instr_ptr as nat) + tab_fields(pcb.ctx.registers@) + "\n"@;
    let stack_line = "stack"@ + tab_fields(widen(pcb.stack.bytes@)) + "\n"@;
    cpu_line + pcb_line + stack_line
}

/// Each of `names`, followed by a tab.
pub open spec fn tab_list(names: Seq<Seq<char>>) -> Seq<char>
    decreases names.len(),
{
    if names.len() == 0 {
        Seq::empty()
    } else {
        tab_list(names.drop_last()) + names.last() + seq!['\t']
    }
}

/// Appends the name of `st`.
fn push_status(s: &mut String, st: Status)
    ensures
        final(s)@ == old(s)@ + status_text(st),
{
    match st {
        Status::New => {
            proof {
                reveal_strlit("New");
            }
            s.append("New");
        },
        Status::Executing => {
            proof {
                reveal_strlit("Executing");
            }
            s.append("Executing");
        },
        Status::Blocked => {
            proof {
                reveal_strlit("Blocked");
            }
            s.append("Blocked");
        },
        Status::Exited => {
            proof {
                reveal_strlit("Exited");
            }
            s.append("Exited");
        },
    }
}

/// Appends the listing line of `pcb`.
fn push_proc_row(s: &mut String, pcb: &Pcb)
    ensures
        final(s)@ == old(s)@ + proc_row(*pcb),
{
    push_decimal(s, pcb.id);
    push_tab(s);
    push_status(s, pcb.status);
    push_tab(s);
    push_decimal(s, pcb.ctx.instr_ptr);
    push_tab_fields(s, pcb.ctx.registers.as_slice());
    push_tab(s);
    s.append(pcb.exe_file_name.as_str());
    push_newline(s);
    assert(final(s)@ =~= old(s)@ + proc_row(*pcb));
}

/// The core dump of `cpu` and `pcb`, written when the process faults.
pub fn get_core_dump_str(cpu: &Cpu, pcb: &Pcb) -> (r: String)
    ensures
        r@ == dump_text(*cpu, *pcb),
{
    proof {
        reveal_strlit("cpu\t");
        reveal_strlit("pcb\t");
        reveal_strlit("stack");
        reveal_strlit("\t");
        reveal_strlit("\n");
        assert("\t"@ =~= seq!['\t']);
        assert("\n"@ =~= seq!['\n']);
    }
    let mut s = String::from_str("cpu\t");
    push_decimal(&mut s, cpu.instr_ptr);
    push_tab_fields(&mut s, cpu.registers.as_slice());
    push_newline(&mut s);
    s.append("pcb\t");
    push_decimal(&mut s, pcb.id);
    push_tab(&mut s);
    push_status(&mut s, pcb.status);
    push_tab(&mut s);
    push_decimal(&mut s, pcb.ctx.instr_ptr);
    push_tab_fields(&mut s, pcb.ctx.registers.as_slice());
    push_newline(&mut s);
    s.append("stack");
    let mut wide: Vec<u16> = Vec::new();
    let mut i: usize = 0;
    while i < STACK_LEN
        invariant
            i <= STACK_LEN,
            wide@ == widen(pcb.stack.bytes@).take(i as int),
        decreases STACK_LEN - i,
    {
        wide.push(pcb.stack.bytes[i] as u16);
        i += 1;
        assert(wide@ =~= widen(pcb.stack.bytes@).take(i as int));
    }
    assert(wide@ =~= widen(pcb.stack.bytes@));
    push_tab_fields(&mut s, wide.as_slice());
    push_newline(&mut s);
    assert(s@ =~= dump_text(*cpu, *pcb));
    s
}

/// The system: the one CPU, the process table, and the ids of processes that
/// have exited or been killed and wait for the reaper.
pub struct System {
    pub cpu: Cpu,
    pub proc_tbl: ProcessTable,
    pub exits: Vec<u16>,
}

/// What `kill` leaves: a live process is queued for the reaper; any other id
/// is refused. Nothing else changes.
pub open spec fn kill_post(before: System, after: System, proc_id: u16, r: Result<(), String>) -> bool {
    &&& r is Ok <==> before.proc_tbl.live_ids().contains(proc_id)
    &&& after.exits@ == if r is Ok {
        before.exits@.push(proc_id)
    } else {
        before.exits@
    }
    &&& after.proc_tbl == before.proc_tbl
    &&& after.cpu == before.cpu
}

/// What the reaper leaves: the queue is empty, no queued id is alive, every
/// queued id that was alive is free again, and every other process is as it
/// was.
pub open spec fn reaped(before: System, after: System) -> bool {
    let q = before.exits@;
    &&& after.exits@.len() == 0
    &&& after.cpu == before.cpu
    &&& forall|i: int| 0 <= i < q.len() ==> !after.proc_tbl.live_ids().contains(#[trigger] q[i])
    &&& forall|i: int|
        0 <= i < q.len() && before.proc_tbl.live_ids().contains(#[trigger] q[i])
            ==> after.proc_tbl.free_ids().contains(q[i])
    &&& forall|id: u16|
        !q.contains(id) ==> (#[trigger] after.proc_tbl.live_ids().contains(id)
            == before.proc_tbl.live_ids().contains(id)) && (before.proc_tbl.live_ids().contains(id)
            ==> after.proc_tbl.procs()[id] == before.proc_tbl.procs()[id])
}

impl System {
    /// The system's invariant: its process table is well formed.
    pub open spec fn wf(&self) -> bool {
        self.proc_tbl.wf()
    }

    /// A system with a zeroed CPU, an empty process table and nothing queued.
    pub fn init() -> (r: System)
        ensures
            r.wf(),
            r.cpu.is_zeroed(),
            r.proc_tbl.free_ids() == Seq::new(MAX_PROCS as nat, |i: int| i as u16),
            r.proc_tbl.live_ids() == Set::<u16>::empty(),
            r.exits@ == Seq::<u16>::empty(),
    {
        System { cpu: Cpu::init(), proc_tbl: ProcessTable::new(), exits: Vec::new() }
    }

    /// A system with a zeroed CPU, an empty process table and nothing queued.
    pub fn new() -> (r: System)
        ensures
            r.wf(),
            r.cpu.is_zeroed(),
            r.proc_tbl.free_ids() == Seq::new(MAX_PROCS as nat, |i: int| i as u16),
            r.proc_tbl.live_ids() == Set::<u16>::empty(),
            r.exits@ == Seq::<u16>::empty(),
    {
        System::init()
    }

    /// The file names of the store, each followed by a tab.
    pub fn list_files(&self, names: &Vec<String>) -> (r: String)
        ensures
            r@ == tab_list(names@.map_values(|n: String| n@)),
    {
        let ghost all = names@.map_values(|n: String| n@);
        let mut s = String::new();
        let mut i: usize = 0;
        while i < names.len()
            invariant
                i <= names@.len(),
                all == names@.map_values(|n: String| n@),
                s@ == tab_list(all.take(i as int)),
            decreases names@.len() - i,
        {
            assert(all.take(i + 1).drop_last() =~= all.take(i as int));
            s.append(names[i].as_str());
            push_tab(&mut s);
            i += 1;
        }
        assert(all.take(names@.len() as int) =~= all);
        s
    }

    /// The process listing: a header line, then one line per live process in
    /// id order. It is a snapshot: no slice runs while it is taken.
    pub fn list_procs(&self) -> (r: String)
        requires
            self.wf(),
        ensures
            r@ == listing_header() + proc_rows(live_seq(self.proc_tbl.slots())),
    {
        proof {
            reveal_strlit("pid\tstate\tip\t1\t2\t3\t4\t5\t6\texe\n");
        }
        let mut s = String::from_str("pid\tstate\tip\t1\t2\t3\t4\t5\t6\texe\n");
        assert(s@ =~= listing_header());
        let procs = self.proc_tbl.get_running_procs();
        let ghost live = live_seq(self.proc_tbl.slots());
        let mut i: usize = 0;
        while i < procs.len()
            invariant
                i <= procs@.len(),
                procs@.len() == live.len(),
                forall|j: int| 0 <= j < procs@.len() ==> *procs@[j] == live[j],
                s@ == listing_header() + proc_rows(live.take(i as int)),
            decreases procs@.len() - i,
        {
            assert(live.take(i + 1).drop_last() =~= live.take(i as int));
            push_proc_row(&mut s, procs[i]);
            i += 1;
            assert(s@ =~= listing_header() + proc_rows(live.take(i as int)));
        }
        assert(live.take(live.len() as int) =~= live);
        s
    }

    /// Makes a new process running the program image `bytes`, read from the
    /// file `file_name`, and returns its id: the id at the front of the free
    /// pool. Fails, changing nothing, when the image is malformed or the table
    /// is full.
    pub fn exec(&mut self, file_name: &str, bytes: &[u8]) -> (r: Result<u16, String>)
        requires
            old(self).wf(),
        ensures
            final(self).wf(),
            final(self).cpu == old(self).cpu,
            final(self).exits@ == old(self).exits@,
            r is Ok <==> valid_image_len(bytes@.len()) && old(self).proc_tbl.free_ids().len() > 0,
            r is Err ==> final(self).proc_tbl == old(self).proc_tbl,
            r is Ok ==> ({
                let id = r->Ok_0;
                let p = final(self).proc_tbl.procs()[id];
                &&& id == old(self).proc_tbl.free_ids()[0]
                &&& final(self).proc_tbl.free_ids() == old(self).proc_tbl.free_ids().drop_first()
                &&& final(self).proc_tbl.slots() == old(self).proc_tbl.slots().update(id as int, Some(p))
                &&& p.id == id
                &&& p.exe_file_name@ == file_name@
                &&& p.status == Status::New
                &&& p.ctx.is_zeroed()
                &&& forall|i: int| 0 <= i < STACK_LEN ==> p.stack.bytes[i] == 0
                &&& decodes_to(bytes@, p.instr@)
            }),
    {
        let instr_blk = match InstructionBlock::new(bytes) {
            Ok(blk) => blk,
            Err(msg) => return Err(msg),
        };
        if self.proc_tbl.free_count() == 0 {
            proof {
                reveal_strlit("Could not allocate another process.");
            }
            return Err(String::from_str("Could not allocate another process."));
        }
        match self.proc_tbl.alloc_pcb(String::from_str(file_name), instr_blk) {
            Some(proc_id) => Ok(proc_id),
            None => Err(String::from_str("Could not allocate another process.")),
        }
    }

    /// Runs process `proc_id` for one time slice on the CPU; `None`, changing
    /// nothing, when no such process is alive (it has been reaped).
    pub fn run_slice(&mut self, proc_id: u16, use_term: bool, term: &mut Terminal) -> (r: Option<
        ExecResult,
    >)
        requires
            old(self).wf(),
        ensures
            final(self).wf(),
            final(self).exits@ == old(self).exits@,
            final(self).proc_tbl.free_ids() == old(self).proc_tbl.free_ids(),
            r is None <==> !old(self).proc_tbl.live_ids().contains(proc_id),
            r is None ==> final(self).proc_tbl == old(self).proc_tbl && *final(term) == *old(term)
                && final(self).cpu == old(self).cpu,
            r is Some ==> ({
                let before = old(self).proc_tbl.procs()[proc_id];
                let after = final(self).proc_tbl.procs()[proc_id];
                &&& final(self).proc_tbl.slots() == old(self).proc_tbl.slots().update(
                    proc_id as int,
                    Some(after),
                )
                &&& slice_post(before, after, *old(term), *final(term), use_term, r->Some_0)
                &&& final(self).cpu.instr_ptr == after.ctx.instr_ptr
                &&& final(self).cpu.registers == after.ctx.registers
            }),
    {
        if !self.proc_tbl.contains(proc_id) {
            return None;
        }
        let executor = Executor::new(proc_id, use_term);
        let pcb = self.proc_tbl.get_pcb_mut(proc_id);
        let result = executor.run_slice(&mut self.cpu, pcb, term);
        proof {
            lemma_slots_len(&self.proc_tbl);
        }
        Some(result)
    }

    /// The core dump of process `proc_id` with the CPU as it stands; `None`
    /// when no such process is alive.
    pub fn core_dump(&self, proc_id: u16) -> (r: Option<String>)
        requires
            self.wf(),
        ensures
            r is Some <==> self.proc_tbl.live_ids().contains(proc_id),
            r is Some ==> r->Some_0@ == dump_text(self.cpu, self.proc_tbl.procs()[proc_id]),
    {
        if self.proc_tbl.contains(proc_id) {
            Some(get_core_dump_str(&self.cpu, self.proc_tbl.get_pcb(proc_id)))
        } else {
            None
        }
    }

    /// Queues live process `proc_id` for the reaper; an error naming the id
    /// when no such process is alive. The process is not preempted: a slice
    /// under way finishes, and once the reaper has removed the process no
    /// further slice of it runs.
    pub fn kill(&mut self, proc_id: u16) -> (r: Result<(), String>)
        requires
            old(self).wf(),
        ensures
            kill_post(*old(self), *final(self), proc_id, r),
            r is Err ==> r->Err_0@ == "No process with "@
                + decimal(proc_id as nat) + " exists."@,
    {
        if self.proc_tbl.contains(proc_id) {
            self.exits.push(proc_id);
            Ok(())
        } else {
            proof {
                reveal_strlit("No process with ");
                reveal_strlit(" exists.");
            }
            let mut msg = String::from_str("No process with ");
            push_decimal(&mut msg, proc_id);
            msg.append(" exists.");
            Err(msg)
        }
    }

    /// Queues process `proc_id` for the reaper once it has stopped running.
    pub fn notify_exit(&mut self, proc_id: u16)
        ensures
            final(self).exits@ == old(self).exits@.push(proc_id),
            final(self).proc_tbl == old(self).proc_tbl,
            final(self).cpu == old(self).cpu,
    {
        self.exits.push(proc_id);
    }

    /// Ends process `proc_id` after its executor stopped with `result`: on a
    /// fault, returns the core dump of the CPU and the process, to be written
    /// to `CORE_DUMP_FILE_NAME`; in every case queues the id for the reaper.
    pub fn exit_process(&mut self, proc_id: u16, result: ExecResult) -> (r: Option<String>)
        requires
            old(self).wf(),
        ensures
            final(self).exits@ == old(self).exits@.push(proc_id),
            final(self).proc_tbl == old(self).proc_tbl,
            final(self).cpu == old(self).cpu,
            r is Some <==> result == ExecResult::Fault && old(self).proc_tbl.live_ids().contains(proc_id),
            r is Some ==> r->Some_0@ == dump_text(old(self).cpu, old(self).proc_tbl.procs()[proc_id]),
    {
        let dump = if result == ExecResult::Fault {
            self.core_dump(proc_id)
        } else {
            None
        };
        self.notify_exit(proc_id);
        dump
    }

    /// The reaper: removes every queued process from the table, returning
    /// its id to the free pool, and empties the queue.
    pub fn reap_exited(&mut self)
        requires
            old(self).wf(),
        ensures
            final(self).wf(),
            reaped(*old(self), *final(self)),
    {
        let ghost q = self.exits@;
        let mut i: usize = 0;
        while i < self.exits.len()
            invariant
                self.wf(),
                self.exits@ == q,
                self.cpu == old(self).cpu,
                i <= q.len(),
                forall|j: int| 0 <= j < i ==> !self.proc_tbl.live_ids().contains(#[trigger] q[j]),
                forall|j: int|
                    0 <= j < i && old(self).proc_tbl.live_ids().contains(#[trigger] q[j])
                        ==> self.proc_tbl.free_ids().contains(q[j]),
                forall|id: u16|
                    !q.take(i as int).contains(id) ==> (#[trigger] self.proc_tbl.live_ids().contains(id)
                        == old(self).proc_tbl.live_ids().contains(id)) && (old(
                        self,
                    ).proc_tbl.live_ids().contains(id) ==> self.proc_tbl.procs()[id] == old(
                        self,
                    ).proc_tbl.procs()[id]),
            decreases q.len() - i,
        {
            let id = self.exits[i];
            let ghost before = self.proc_tbl;
            self.proc_tbl.dealloc_pcb(id);
            proof {
                assert forall|j: int|
                    0 <= j <= i && old(self).proc_tbl.live_ids().contains(#[trigger] q[j])
                        implies self.proc_tbl.free_ids().contains(q[j]) by {
                    if j < i && before.live_ids().contains(id) {
                        let k = choose|k: int|
                            0 <= k < before.free_ids().len() && before.free_ids()[k] == q[j];
                        assert(self.proc_tbl.free_ids()[k + 1] == q[j]);
                    }
                    if j == i {
                        if before.live_ids().contains(id) {
                            assert(self.proc_tbl.free_ids()[0] == id);
                        }
                    }
                }
                assert forall|id2: u16| !q.take(i + 1).contains(id2) implies (
                #[trigger] self.proc_tbl.live_ids().contains(id2) == old(
                    self,
                ).proc_tbl.live_ids().contains(id2)) && (old(self).proc_tbl.live_ids().contains(id2)
                    ==> self.proc_tbl.procs()[id2] == old(self).proc_tbl.procs()[id2]) by {
                    if q.take(i as int).contains(id2) {
                        let k = choose|k: int| 0 <= k < i && q.take(i as int)[k] == id2;
                        assert(q.take(i + 1)[k] == id2);
                    }
                    if id2 == id {
                        assert(q.take(i + 1)[i as int] == id2);
                    }
                    lemma_slots_len(&before);
                    lemma_slots_len(&self.proc_tbl);
                    if id2 < MAX_PROCS {
                        assert(self.proc_tbl.slots()[id2 as int] == before.slots()[id2 as int]);
                    }
                    assert(before.live_ids().contains(id2) == old(self).proc_tbl.live_ids().contains(
                        id2,
                    ));
                }
            }
            i += 1;
        }
        self.exits.clear();
        assert(q.take(q.len() as int) =~= q);
    }
}

/// A core dump begins with the CPU's instruction pointer and its six
/// registers, in decimal: the state in which the process stopped.
pub proof fn lemma_dump_shows_cpu(cpu: Cpu, pcb: Pcb)
    ensures
        ({
            let head = "cpu\t"@ + decimal(cpu.instr_ptr as nat) + tab_fields(cpu.registers@);
            dump_text(cpu, pcb).subrange(0, head.len() as int) == head
        }),
{
    let head = "cpu\t"@ + decimal(cpu.instr_ptr as nat) + tab_fields(cpu.registers@);
    assert(dump_text(cpu, pcb).subrange(0, head.len() as int) =~= head);
}

/// Killing a live process and then running the reaper removes the process
/// from the table and returns its id to the free pool.
pub proof fn lemma_kill_then_reap(
    s0: System,
    s1: System,
    s2: System,
    proc_id: u16,
    r: Result<(), String>,
)
    requires
        s0.wf(),
        kill_post(s0, s1, proc_id, r),
        r is Ok,
        reaped(s1, s2),
    ensures
        !s2.proc_tbl.live_ids().contains(proc_id),
        s2.proc_tbl.free_ids().contains(proc_id),
{
    let k = (s1.exits@.len() - 1) as int;
    assert(s1.exits@[k] == proc_id);
}

} // verus!
