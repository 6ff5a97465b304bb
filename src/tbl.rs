//! The process table: a bounded map from process id to process control block,
//! with an explicit pool of free ids.
use vstd::prelude::*;
use crate::instr::InstructionBlock;
use crate::pcb::{Pcb, Status, STACK_LEN};

verus! {

/// Most processes that can be alive at once; ids run from zero to one less.
pub const MAX_PROCS: usize = 10;

/// The live processes of `slots`, in slot order.
pub open spec fn live_seq(slots: Seq<Option<Pcb>>) -> Seq<Pcb>
    decreases slots.len(),
{
    if slots.len() == 0 {
        Seq::empty()
    } else {
        let init = live_seq(slots.drop_last());
        match slots.last() {
            Some(p) => init.push(p),
            None => init,
        }
    }
}

/// Every process id the table can hand out.
pub open spec fn all_ids() -> Set<u16> {
    Set::new(|id: u16| id < MAX_PROCS)
}

/// The process table. A live process sits in the slot of its id; the free ids
/// wait in a queue, handed out from the front and returned to the front.
pub struct ProcessTable {
    next_ids: Vec<u16>,
    procs: Vec<Option<Pcb>>,
}

impl ProcessTable {
    /// The free ids, the next one to be handed out first.
    pub closed spec fn free_ids(&self) -> Seq<u16> {
        self.next_ids@
    }

    /// The slot of each id: the process with that id, if it is alive.
    pub closed spec fn slots(&self) -> Seq<Option<Pcb>> {
        self.procs@
    }

    /// The live processes by id.
    pub open spec fn procs(&self) -> Map<u16, Pcb> {
        Map::new(
            |id: u16| id < self.slots().len() && self.slots()[id as int] is Some,
            |id: u16| self.slots()[id as int]->Some_0,
        )
    }

    /// The ids of the live processes.
    pub open spec fn live_ids(&self) -> Set<u16> {
        self.procs().dom()
    }

    /// The table's invariant: one slot per id, and an id is free exactly when
    /// no live process has it, with no id queued twice.
    pub closed spec fn wf(&self) -> bool {
        &&& self.procs@.len() == MAX_PROCS
        &&& self.next_ids@.no_duplicates()
        &&& forall|i: int| 0 <= i < self.next_ids@.len() ==> #[trigger] self.next_ids@[i] < MAX_PROCS
        &&& forall|id: u16|
            id < MAX_PROCS ==> (#[trigger] self.procs@[id as int] is None <==> self.next_ids@.contains(id))
    }

    /// An empty table whose free pool holds every id in ascending order.
    pub fn new() -> (r: ProcessTable)
        ensures
            r.wf(),
            r.free_ids() == Seq::new(MAX_PROCS as nat, |i: int| i as u16),
            r.live_ids() == Set::<u16>::empty(),
    {
        let mut next_ids: Vec<u16> = Vec::new();
        let mut procs: Vec<Option<Pcb>> = Vec::new();
        let mut i: usize = 0;
        while i < MAX_PROCS
            invariant
                i <= MAX_PROCS,
                next_ids@ == Seq::new(i as nat, |j: int| j as u16),
                procs@.len() == i,
                forall|j: int| 0 <= j < i ==> (#[trigger] procs@[j]) is None,
            decreases MAX_PROCS - i,
        {
            next_ids.push(i as u16);
            procs.push(None);
            i += 1;
            assert(next_ids@ =~= Seq::new(i as nat, |j: int| j as u16));
        }
        let r = ProcessTable { next_ids, procs };
        assert forall|id: u16| id < MAX_PROCS implies (#[trigger] r.procs@[id as int] is None
            <==> r.next_ids@.contains(id)) by {
            assert(r.next_ids@[id as int] == id);
        }
        assert(r.live_ids() =~= Set::<u16>::empty());
        r
    }

    /// Whether process `proc_id` is alive.
    pub fn contains(&self, proc_id: u16) -> (r: bool)
        requires
            self.wf(),
        ensures
            r == self.live_ids().contains(proc_id),
    {
        (proc_id as usize) < self.procs.len() && self.procs[proc_id as usize].is_some()
    }

    /// The control block of live process `proc_id`.
    pub fn get_pcb(&self, proc_id: u16) -> (r: &Pcb)
        requires
            self.wf(),
            self.live_ids().contains(proc_id),
        ensures
            *r == self.procs()[proc_id],
    {
        self.procs[proc_id as usize].as_ref().unwrap()
    }

    /// The control block of live process `proc_id`, for changing it.
    pub fn get_pcb_mut(&mut self, proc_id: u16) -> (r: &mut Pcb)
        requires
            old(self).wf(),
            old(self).live_ids().contains(proc_id),
        ensures
            *r == old(self).procs()[proc_id],
            final(self).wf(),
            final(self).free_ids() == old(self).free_ids(),
            final(self).slots() == old(self).slots().update(proc_id as int, Some(*final(r))),
    {
        self.procs[proc_id as usize].as_mut().unwrap()
    }

    /// The number of free ids.
    pub fn free_count(&self) -> (r: usize)
        ensures
            r == self.free_ids().len(),
    {
        self.next_ids.len()
    }

    /// The live processes, in id order.
    pub fn get_running_procs(&self) -> (r: Vec<&Pcb>)
        requires
            self.wf(),
        ensures
            r@.len() == live_seq(self.slots()).len(),
            forall|i: int| 0 <= i < r@.len() ==> *r@[i] == live_seq(self.slots())[i],
    {
        let mut r: Vec<&Pcb> = Vec::new();
        let mut i: usize = 0;
        while i < self.procs.len()
            invariant
                i <= self.procs@.len(),
                r@.len() == live_seq(self.procs@.take(i as int)).len(),
                forall|j: int|
                    0 <= j < r@.len() ==> *r@[j] == live_seq(self.procs@.take(i as int))[j],
            decreases self.procs@.len() - i,
        {
            assert(self.procs@.take(i + 1).drop_last() =~= self.procs@.take(i as int));
            match &self.procs[i] {
                Some(p) => r.push(p),
                None => {},
            }
            i += 1;
        }
        assert(self.procs@.take(self.procs@.len() as int) =~= self.procs@);
        r
    }

    /// Takes the id at the front of the free pool and makes a new process of it
    /// running `instr`; `None`, changing nothing, when the pool is empty.
    pub fn alloc_pcb(&mut self, exe_file_name: String, instr: InstructionBlock) -> (r: Option<u16>)
        requires
            old(self).wf(),
        ensures
            final(self).wf(),
            old(self).free_ids().len() == 0 ==> r is None && final(self).free_ids() == old(self).free_ids()
                && final(self).slots() == old(self).slots(),
            old(self).free_ids().len() > 0 ==> r == Some(old(self).free_ids()[0])
                && final(self).free_ids() == old(self).free_ids().drop_first()
                && final(self).slots() == old(self).slots().update(
                    r->Some_0 as int,
                    Some(final(self).procs()[r->Some_0]),
                ),
            r matches Some(id) ==> ({
                let p = final(self).procs()[id];
                &&& p.id == id
                &&& p.exe_file_name@ == exe_file_name@
                &&& p.status == Status::New
                &&& p.ctx.is_zeroed()
                &&& forall|i: int| 0 <= i < STACK_LEN ==> p.stack.bytes[i] == 0
                &&& p.instr@ == instr@
            }),
    {
        if self.next_ids.len() == 0 {
            return None;
        }
        let proc_id = self.next_ids.remove(0);
        assert(old(self).next_ids@[0] == proc_id);
        assert(self.next_ids@ =~= old(self).next_ids@.drop_first());
        let pcb = Pcb::new(proc_id, exe_file_name, instr);
        self.procs.set(proc_id as usize, Some(pcb));
        proof {
            assert forall|id: u16| id < MAX_PROCS implies (#[trigger] self.procs@[id as int] is None
                <==> self.next_ids@.contains(id)) by {
                if id != proc_id {
                    if old(self).next_ids@.contains(id) {
                        let k = choose|k: int|
                            0 <= k < old(self).next_ids@.len() && old(self).next_ids@[k] == id;
                        assert(k != 0);
                        assert(self.next_ids@[k - 1] == id);
                    }
                } else {
                    assert(!self.next_ids@.contains(id));
                }
            }
        }
        Some(proc_id)
    }

    /// Removes process `proc_id`, if it is alive, and puts its id at the front
    /// of the free pool, so that it is the next one handed out.
    pub fn dealloc_pcb(&mut self, proc_id: u16)
        requires
            old(self).wf(),
        ensures
            final(self).wf(),
            old(self).live_ids().contains(proc_id) ==> final(self).free_ids() == seq![proc_id]
                + old(self).free_ids() && final(self).slots() == old(self).slots().update(
                proc_id as int,
                None,
            ),
            !old(self).live_ids().contains(proc_id) ==> final(self).free_ids() == old(
                self,
            ).free_ids() && final(self).slots() == old(self).slots(),
    {
        if (proc_id as usize) < self.procs.len() && self.procs[proc_id as usize].is_some() {
            self.procs.set(proc_id as usize, None);
            self.next_ids.insert(0, proc_id);
            assert(self.next_ids@ =~= seq![proc_id] + old(self).next_ids@);
            proof {
                assert forall|id: u16| id < MAX_PROCS implies (#[trigger] self.procs@[id as int]
                    is None <==> self.next_ids@.contains(id)) by {
                    if id != proc_id && old(self).next_ids@.contains(id) {
                        let k = choose|k: int|
                            0 <= k < old(self).next_ids@.len() && old(self).next_ids@[k] == id;
                        assert(self.next_ids@[k + 1] == id);
                    }
                    if id == proc_id {
                        assert(self.next_ids@[0] == id);
                    }
                }
            }
        }
    }
}

/// A well-formed table has one slot for each id.
pub proof fn lemma_slots_len(t: &ProcessTable)
    requires
        t.wf(),
    ensures
        t.slots().len() == MAX_PROCS,
{
}

/// The live ids and the free pool partition the ids `0..MAX_PROCS`: every id
/// is live or free, none is both, no id is queued twice, and so the number of
/// live processes and the number of free ids add up to `MAX_PROCS`.
pub proof fn lemma_ids_partition(t: &ProcessTable)
    requires
        t.wf(),
    ensures
        t.live_ids().disjoint(t.free_ids().to_set()),
        t.live_ids() + t.free_ids().to_set() == all_ids(),
        t.free_ids().no_duplicates(),
        t.live_ids().len() + t.free_ids().len() == MAX_PROCS,
{
    let free = t.free_ids().to_set();
    let every = Seq::new(MAX_PROCS as nat, |i: int| i as u16);
    assert(every.no_duplicates());
    assert(every.to_set() =~= all_ids()) by {
        assert forall|id: u16| all_ids().contains(id) implies every.to_set().contains(id) by {
            assert(every[id as int] == id);
        }
    }
    every.unique_seq_to_set();
    t.free_ids().unique_seq_to_set();
    assert(t.live_ids() + free =~= all_ids());
    assert(t.live_ids().disjoint(free));
    vstd::set_lib::lemma_len_subset(t.live_ids(), all_ids());
    vstd::set_lib::lemma_set_disjoint_lens(t.live_ids(), free);
}

} // verus!
