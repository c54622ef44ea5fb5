//! The process queues: one bounded FIFO of program counters per warrior.

use crate::emulator_core::{CoreAddr, CoreSettings, EmulatorError, EmulatorResult, ErrorKind};
use std::collections::VecDeque;
use vstd::prelude::*;

verus! {

/// Stores the program counters of each warrior, up to a capacity that all
/// warriors share.
pub struct ProcessQueueSet {
    /// The queues, indexed by warrior id.  The next process to run is first.
    queues: Vec<VecDeque<CoreAddr>>,
    /// The length at which a queue takes no further process.
    max_processes: u64,
}

impl View for ProcessQueueSet {
    type V = Seq<Seq<CoreAddr>>;

    /// The queues in the order of the warrior ids, each with its head first.
    closed spec fn view(&self) -> Seq<Seq<CoreAddr>> {
        Seq::new(self.queues@.len(), |i: int| self.queues@[i]@)
    }
}

/// `queue` after `value` was offered to its back: appended while the queue is
/// shorter than `capacity`, and dropped otherwise.
pub open spec fn push_bounded(queue: Seq<CoreAddr>, value: CoreAddr, capacity: nat) -> Seq<
    CoreAddr,
> {
    if queue.len() < capacity {
        queue.push(value)
    } else {
        queue
    }
}

/// The ids of the warriors whose queue is not empty, in ascending order.
pub open spec fn active_ids(queues: Seq<Seq<CoreAddr>>) -> Seq<u64>
    decreases queues.len(),
{
    if queues.len() == 0 {
        Seq::empty()
    } else {
        let before = active_ids(queues.drop_last());
        if queues.last().len() > 0 {
            before.push((queues.len() - 1) as u64)
        } else {
            before
        }
    }
}

/// The list of active warriors holds exactly the ids with a non-empty queue,
/// each once, in strictly ascending order.
pub proof fn lemma_active_ids(queues: Seq<Seq<CoreAddr>>)
    requires
        queues.len() <= u64::MAX,
    ensures
        active_ids(queues).len() <= queues.len(),
        forall|k: int|
            0 <= k < active_ids(queues).len() ==> (#[trigger] active_ids(queues)[k])
                < queues.len() && queues[active_ids(queues)[k] as int].len() > 0,
        forall|j: int, k: int|
            0 <= j < k < active_ids(queues).len() ==> active_ids(queues)[j] < active_ids(
                queues,
            )[k],
        forall|w: int|
            0 <= w < queues.len() && (#[trigger] queues[w]).len() > 0 ==> active_ids(
                queues,
            ).contains(w as u64),
    decreases queues.len(),
{
    if queues.len() > 0 {
        let shorter = queues.drop_last();
        lemma_active_ids(shorter);
        let before = active_ids(shorter);
        let all = active_ids(queues);
        assert forall|w: int| 0 <= w < queues.len() && (#[trigger] queues[w]).len() > 0 implies all.contains(
            w as u64,
        ) by {
            if w < shorter.len() {
                assert(shorter[w] == queues[w]);
                let k = choose|k: int| 0 <= k < before.len() && before[k] == w as u64;
                assert(all[k] == w as u64);
            } else {
                assert(all[all.len() - 1] == w as u64);
            }
        }
        assert forall|k: int| 0 <= k < all.len() implies (#[trigger] all[k]) < queues.len()
            && queues[all[k] as int].len() > 0 by {
            if k < before.len() {
                assert(all[k] == before[k]);
                assert(shorter[before[k] as int] == queues[before[k] as int]);
            }
        }
    }
}

impl ProcessQueueSet {
    /// The number of processes that a queue holds at most.
    pub closed spec fn capacity(&self) -> nat {
        self.max_processes as nat
    }

    /// There is a queue for each warrior id that fits the machine, and no
    /// queue is longer than the capacity.
    pub open spec fn wf(&self) -> bool {
        &&& self@.len() <= usize::MAX
        &&& forall|w: int| 0 <= w < self@.len() ==> (#[trigger] self@[w]).len() <= self.capacity()
    }

    /// The number of warriors that have a process queue.
    pub fn warriors(&self) -> (r: usize)
        ensures
            r == self@.len(),
    {
        self.queues.len()
    }

    /// Remove and return the next program counter of a warrior, if it has one.
    ///
    /// # Errors
    ///
    /// Returns [`EmulatorError::InternalError`] if there is no warrior with
    /// this id.
    pub fn pop(&mut self, warrior_id: u64) -> (r: EmulatorResult<Option<CoreAddr>>)
        ensures
            old(self).wf() ==> final(self).wf(),
            final(self).capacity() == old(self).capacity(),
            warrior_id >= old(self)@.len() ==> (r matches Err(e) && e.kind()
                == ErrorKind::InternalError) && final(self)@ == old(self)@,
            warrior_id < old(self)@.len() && old(self)@[warrior_id as int].len() == 0 ==> r == Ok::<
                Option<CoreAddr>,
                EmulatorError,
            >(None) && final(self)@ == old(self)@,
            warrior_id < old(self)@.len() && old(self)@[warrior_id as int].len() > 0 ==> r == Ok::<
                Option<CoreAddr>,
                EmulatorError,
            >(Some(old(self)@[warrior_id as int][0])) && final(self)@ == old(self)@.update(
                warrior_id as int,
                old(self)@[warrior_id as int].drop_first(),
            ),
    {
        let count = self.queues.len();
        let idx = convert_warrior_id(warrior_id)?;
        if idx >= count {
            return Err(
                EmulatorError::InternalError(
                    "tried to pop from the process queue for a warrior that doesn't exist",
                ),
            );
        }
        let head = self.queues[idx].pop_front();
        proof {
            let before = old(self)@;
            let after = self@;
            if head is Some {
                assert(after =~= before.update(idx as int, before[idx as int].drop_first()));
            } else {
                assert(after =~= before);
            }
        }
        Ok(head)
    }

    /// Add a program counter to the back of a warrior's queue, unless the
    /// queue is at capacity: then the value is dropped.
    ///
    /// # Errors
    ///
    /// Returns [`EmulatorError::InternalError`] if there is no warrior with
    /// this id.
    pub fn push_back(&mut self, value: CoreAddr, warrior_id: u64) -> (r: EmulatorResult<()>)
        ensures
            old(self).wf() ==> final(self).wf(),
            final(self).capacity() == old(self).capacity(),
            warrior_id >= old(self)@.len() ==> (r matches Err(e) && e.kind()
                == ErrorKind::InternalError) && final(self)@ == old(self)@,
            warrior_id < old(self)@.len() ==> r is Ok && final(self)@ == old(self)@.update(
                warrior_id as int,
                push_bounded(old(self)@[warrior_id as int], value, old(self).capacity()),
            ),
    {
        let count = self.queues.len();
        let idx = convert_warrior_id(warrior_id)?;
        if idx >= count {
            return Err(
                EmulatorError::InternalError("a process queue doesn't exist for this warrior"),
            );
        }
        if (self.queues[idx].len() as u64) < self.max_processes {
            self.queues[idx].push_back(value);
        }
        proof {
            let before = old(self)@;
            assert(self@ =~= before.update(
                idx as int,
                push_bounded(before[idx as int], value, old(self).capacity()),
            ));
        }
        Ok(())
    }

    /// Empty the process queues of all warriors.
    pub fn reset_queues(&mut self)
        ensures
            old(self).wf() ==> final(self).wf(),
            final(self).capacity() == old(self).capacity(),
            final(self)@ == Seq::new(old(self)@.len(), |w: int| Seq::<CoreAddr>::empty()),
    {
        let count = self.queues.len();
        let mut i: usize = 0;
        while i < count
            invariant
                i <= count,
                count == self.queues@.len(),
                self.max_processes == old(self).max_processes,
                forall|w: int| 0 <= w < i ==> (#[trigger] self.queues@[w])@.len() == 0,
            decreases count - i,
        {
            self.queues[i].clear();
            i += 1;
        }
        assert(self@ =~~= Seq::new(old(self)@.len(), |w: int| Seq::<CoreAddr>::empty()));
    }

    /// The ids of the warriors with a non-empty process queue, in ascending
    /// order.
    pub fn active_warriors(&self) -> (r: Vec<u64>)
        ensures
            r@ == active_ids(self@),
    {
        let mut active: Vec<u64> = Vec::new();
        let count = self.queues.len();
        let mut i: usize = 0;
        while i < count
            invariant
                i <= count,
                count == self.queues@.len(),
                self@.len() == count,
                active@ == active_ids(self@.take(i as int)),
            decreases count - i,
        {
            proof {
                let next = self@.take(i + 1);
                assert(next.drop_last() =~= self@.take(i as int));
                assert(next.last() == self@[i as int]);
            }
            if self.queues[i].len() > 0 {
                active.push(i as u64);
            }
            i += 1;
        }
        assert(self@.take(count as int) =~= self@);
        active
    }

    /// Replace the process queue of a warrior with `process_queue`, in order.
    ///
    /// # Errors
    ///
    /// Returns [`EmulatorError::InternalError`] if there is no warrior with
    /// this id, or if the new queue is longer than the capacity.  The queues
    /// are then unchanged.
    pub fn replace_queue(&mut self, warrior_id: u64, process_queue: &[CoreAddr]) -> (r:
        EmulatorResult<()>)
        ensures
            old(self).wf() ==> final(self).wf(),
            final(self).capacity() == old(self).capacity(),
            warrior_id >= old(self)@.len() || process_queue@.len() > old(self).capacity() ==> (
            r matches Err(e) && e.kind() == ErrorKind::InternalError) && final(self)@ == old(self)@,
            warrior_id < old(self)@.len() && process_queue@.len() <= old(self).capacity() ==> r
                is Ok && final(self)@ == old(self)@.update(warrior_id as int, process_queue@),
    {
        let count = self.queues.len();
        let idx = convert_warrior_id(warrior_id)?;
        if idx >= count {
            return Err(
                EmulatorError::InternalError(
                    "attempting to replace the process queue for a warrior id not currently associated with a process queue",
                ),
            );
        }
        if process_queue.len() as u64 > self.max_processes {
            return Err(
                EmulatorError::InternalError(
                    "Unable to replace a process queue where the length of the new queue is greater the allowed number of processes",
                ),
            );
        }
        let mut queue: VecDeque<CoreAddr> = VecDeque::new();
        let mut i: usize = 0;
        while i < process_queue.len()
            invariant
                i <= process_queue@.len(),
                queue@ == process_queue@.take(i as int),
            decreases process_queue@.len() - i,
        {
            queue.push_back(process_queue[i]);
            assert(process_queue@.take(i + 1) =~= process_queue@.take(i as int).push(
                process_queue@[i as int],
            ));
            i += 1;
        }
        assert(process_queue@.take(i as int) =~= process_queue@);
        self.queues[idx] = queue;
        assert(self@ =~= old(self)@.update(warrior_id as int, process_queue@));
        Ok(())
    }

    /// Construct an empty process queue for each warrior of the settings.
    pub fn new(settings: &CoreSettings) -> (r: Self)
        requires
            settings.warriors <= usize::MAX,
        ensures
            r.wf(),
            r.capacity() == settings.processes,
            r@ == Seq::new(settings.warriors as nat, |w: int| Seq::<CoreAddr>::empty()),
    {
        let mut queues: Vec<VecDeque<CoreAddr>> = Vec::new();
        let count = settings.warriors as usize;
        let mut i: usize = 0;
        while i < count
            invariant
                i <= count,
                queues@.len() == i,
                forall|w: int| 0 <= w < i ==> (#[trigger] queues@[w])@.len() == 0,
            decreases count - i,
        {
            queues.push(VecDeque::new());
            i += 1;
        }
        let set = ProcessQueueSet { queues, max_processes: settings.processes };
        assert(set@ =~~= Seq::new(settings.warriors as nat, |w: int| Seq::<CoreAddr>::empty()));
        set
    }

    /// A copy of the whole process queue of a warrior, the next process first.
    ///
    /// # Errors
    ///
    /// Returns [`EmulatorError::InternalError`] if there is no warrior with
    /// this id.
    pub fn read_queue(&self, warrior_id: u64) -> (r: EmulatorResult<Vec<CoreAddr>>)
        ensures
            warrior_id >= self@.len() ==> (r matches Err(e) && e.kind()
                == ErrorKind::InternalError),
            warrior_id < self@.len() ==> (r matches Ok(queue) && queue@
                == self@[warrior_id as int]),
    {
        let count = self.queues.len();
        let idx = convert_warrior_id(warrior_id)?;
        if idx >= count {
            return Err(
                EmulatorError::InternalError(
                    "attempting to read the process queue of a warrior with no process queue",
                ),
            );
        }
        let queue = &self.queues[idx];
        let mut copy: Vec<CoreAddr> = Vec::new();
        let mut i: usize = 0;
        while i < queue.len()
            invariant
                i <= queue@.len(),
                copy@ == queue@.take(i as int),
            decreases queue@.len() - i,
        {
            copy.push(queue[i]);
            assert(queue@.take(i + 1) =~= queue@.take(i as int).push(queue@[i as int]));
            i += 1;
        }
        assert(queue@.take(i as int) =~= queue@);
        Ok(copy)
    }
}

/// Convert a warrior id to an index into the process queues.
///
/// # Errors
///
/// Returns [`EmulatorError::InternalError`] if the id is larger than any
/// index.
pub fn convert_warrior_id(warrior_id: u64) -> (r: EmulatorResult<usize>)
    ensures
        warrior_id <= usize::MAX ==> r == Ok::<usize, EmulatorError>(warrior_id as usize),
        warrior_id > usize::MAX ==> (r matches Err(e) && e.kind() == ErrorKind::InternalError),
{
    if warrior_id > usize::MAX as u64 {
        Err(EmulatorError::InternalError("unable to convert warrior id into usize"))
    } else {
        Ok(warrior_id as usize)
    }
}

} // verus!
