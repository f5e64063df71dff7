use vstd::prelude::*;
use crate::fail::Fail;

verus! {

/// Largest length a scatter-gather segment can describe.
pub const MAX_SEGMENT_LEN: usize = 0xffff_ffff;

/// A scatter-gather array: the number of segments it claims, and the bytes of its one
/// segment.
#[derive(Clone, Debug)]
pub struct SgArray {
    pub sga_numsegs: u32,
    pub sga_seg: Vec<u8>,
}

/// Bytes of `n` zeros: what a fresh allocation holds.
pub open spec fn zeros(n: nat) -> Seq<u8> {
    Seq::new(n, |i: int| 0u8)
}

/// What releasing an array with `numsegs` segments yields.
pub open spec fn free_spec(numsegs: u32) -> Result<(), Fail> {
    if numsegs == 1 {
        Ok(())
    } else {
        Err(Fail::InvalidArgument)
    }
}

/// What copying an array with `numsegs` segments holding `seg` yields.
pub open spec fn clone_spec(numsegs: u32, seg: Seq<u8>) -> Result<Seq<u8>, Fail> {
    if numsegs == 1 {
        Ok(seg)
    } else {
        Err(Fail::InvalidArgument)
    }
}

/// An allocation of `n` bytes, for `n` from 1 to the largest segment length, is
/// released without error, and its copy holds `n` bytes equal to its own.
pub proof fn lemma_sgarray_round_trip(n: usize, sga: SgArray)
    requires
        1 <= n <= MAX_SEGMENT_LEN,
        sga.sga_numsegs == 1,
        sga.sga_seg@ == zeros(n as nat),
    ensures
        free_spec(sga.sga_numsegs) is Ok,
        clone_spec(sga.sga_numsegs, sga.sga_seg@) == Ok::<Seq<u8>, Fail>(sga.sga_seg@),
        clone_spec(sga.sga_numsegs, sga.sga_seg@).unwrap().len() == n,
{
}

/// Releasing or copying an array whose segment count is not one is an invalid argument.
pub proof fn lemma_sgarray_arity(numsegs: u32, seg: Seq<u8>)
    requires
        numsegs != 1,
    ensures
        free_spec(numsegs) == Err::<(), Fail>(Fail::InvalidArgument),
        clone_spec(numsegs, seg) == Err::<Seq<u8>, Fail>(Fail::InvalidArgument),
{
}

/// A handle on a task admitted to the scheduler.
#[derive(Clone, Copy, Debug, PartialEq, Eq, Structural)]
pub struct SchedulerHandle {
    pub key: u64,
}

/// Runtime of a stack on a POSIX host: a clock advanced by its owner, in nanoseconds,
/// and a table of admitted tasks keyed in admission order.
pub struct PosixRuntime<T> {
    now: u64,
    tasks: Vec<(u64, T)>,
    next_key: u64,
    timers: Vec<(u64, u64)>,
    next_timer: u64,
}

/// Whether the deadlines of `timers` never decrease.
pub open spec fn deadlines_sorted(timers: Seq<(u64, u64)>) -> bool {
    forall|i: int, j: int| 0 <= i < j < timers.len() ==> timers[i].0 <= timers[j].0
}

/// The keys of a task table.
pub open spec fn keys_of<T>(tasks: Seq<(u64, T)>) -> Seq<u64> {
    tasks.map_values(|e: (u64, T)| e.0)
}

impl<T> PosixRuntime<T> {
    pub closed spec fn now_spec(&self) -> u64 {
        self.now
    }

    /// Admitted tasks not yet taken, in admission order, with their keys.
    pub closed spec fn tasks_spec(&self) -> Seq<(u64, T)> {
        self.tasks@
    }

    pub closed spec fn next_key_spec(&self) -> u64 {
        self.next_key
    }

    /// Pending timers as (deadline, identifier), earliest deadline first.
    pub closed spec fn timers_spec(&self) -> Seq<(u64, u64)> {
        self.timers@
    }

    pub closed spec fn next_timer_spec(&self) -> u64 {
        self.next_timer
    }

    /// Keys increase in admission order and lie below the next key to hand out.
    pub open spec fn wf(&self) -> bool {
        &&& forall|i: int, j: int|
            0 <= i < j < self.tasks_spec().len() ==> self.tasks_spec()[i].0 < self.tasks_spec()[j].0
        &&& forall|i: int| 0 <= i < self.tasks_spec().len() ==> self.tasks_spec()[i].0 < self.next_key_spec()
        &&& deadlines_sorted(self.timers_spec())
    }

    /// A runtime whose clock reads `now`, with no task.
    pub fn new(now: u64) -> (r: Self)
        ensures
            r.wf(),
            r.now_spec() == now,
            r.tasks_spec().len() == 0,
            r.next_key_spec() == 0,
            r.timers_spec().len() == 0,
            r.next_timer_spec() == 0,
    {
        PosixRuntime { now, tasks: Vec::new(), next_key: 0, timers: Vec::new(), next_timer: 0 }
    }

    /// The clock.
    pub fn now(&self) -> (r: u64)
        ensures
            r == self.now_spec(),
    {
        self.now
    }

    /// Moves the clock forward to `now`; it never moves back.
    pub fn advance_clock(&mut self, now: u64)
        requires
            old(self).wf(),
            old(self).now_spec() <= now,
        ensures
            final(self).wf(),
            final(self).now_spec() == now,
            final(self).tasks_spec() == old(self).tasks_spec(),
            final(self).next_key_spec() == old(self).next_key_spec(),
            final(self).timers_spec() == old(self).timers_spec(),
    {
        let ghost pre = *self;
        self.now = now;
        assert(self.tasks_spec() == pre.tasks_spec());
        assert(self.timers_spec() == pre.timers_spec());
    }

    /// Registers a timer for `deadline` under a fresh identifier (wrapping after the
    /// largest), placed after every pending timer with a deadline no later than it.
    pub fn add_timer(&mut self, deadline: u64) -> (r: u64)
        requires
            old(self).wf(),
        ensures
            final(self).wf(),
            r == old(self).next_timer_spec(),
            final(self).next_timer_spec() == old(self).next_timer_spec().wrapping_add(1),
            exists|k: int|
                0 <= k <= old(self).timers_spec().len() && final(self).timers_spec()
                    == old(self).timers_spec().insert(k, (deadline, r)) && (forall|i: int|
                    0 <= i < k ==> old(self).timers_spec()[i].0 <= deadline) && (forall|i: int|
                    k <= i < old(self).timers_spec().len() ==> old(self).timers_spec()[i].0 > deadline),
            final(self).now_spec() == old(self).now_spec(),
            final(self).tasks_spec() == old(self).tasks_spec(),
            final(self).next_key_spec() == old(self).next_key_spec(),
    {
        let ghost pre = *self;
        let id = self.next_timer;
        let mut k: usize = 0;
        while k < self.timers.len() && self.timers[k].0 <= deadline
            invariant
                k <= self.timers@.len(),
                self.timers@ == pre.timers@,
                forall|i: int| 0 <= i < k ==> self.timers@[i].0 <= deadline,
            decreases self.timers@.len() - k,
        {
            k = k + 1;
        }
        proof {
            assert forall|i: int| k <= i < pre.timers@.len() implies pre.timers@[i].0 > deadline by {
                assert(pre.timers_spec()[k as int].0 <= pre.timers_spec()[i].0);
            }
        }
        self.timers.insert(k, (deadline, id));
        self.next_timer = self.next_timer.wrapping_add(1);
        proof {
            assert(self.tasks_spec() == pre.tasks_spec());
            assert forall|i: int, j: int| 0 <= i < j < self.timers@.len() implies self.timers@[i].0 <= self.timers@[j].0 by {
                let ii = if i < k { i } else { i - 1 };
                let jj = if j < k { j } else { j - 1 };
                if i != k && j != k {
                    assert(pre.timers_spec()[ii].0 <= pre.timers_spec()[jj].0);
                }
            }
        }
        id
    }

    /// Removes the timers whose deadline the clock has reached and returns their
    /// identifiers, earliest deadline first.
    pub fn expire(&mut self) -> (r: Vec<u64>)
        requires
            old(self).wf(),
        ensures
            final(self).wf(),
            ({
                let t = old(self).timers_spec();
                exists|k: int|
                    0 <= k <= t.len() && r@ == t.take(k).map_values(|e: (u64, u64)| e.1)
                        && final(self).timers_spec() == t.skip(k) && (forall|i: int|
                        0 <= i < k ==> t[i].0 <= old(self).now_spec()) && (forall|i: int|
                        k <= i < t.len() ==> t[i].0 > old(self).now_spec())
            }),
            final(self).now_spec() == old(self).now_spec(),
            final(self).tasks_spec() == old(self).tasks_spec(),
            final(self).next_key_spec() == old(self).next_key_spec(),
            final(self).next_timer_spec() == old(self).next_timer_spec(),
    {
        let ghost pre = *self;
        let mut ids: Vec<u64> = Vec::new();
        let mut k: usize = 0;
        while k < self.timers.len() && self.timers[k].0 <= self.now
            invariant
                k <= self.timers@.len(),
                self.timers@ == pre.timers@,
                self.now == pre.now,
                forall|i: int| 0 <= i < k ==> self.timers@[i].0 <= self.now,
                ids@ == self.timers@.take(k as int).map_values(|e: (u64, u64)| e.1),
            decreases self.timers@.len() - k,
        {
            ids.push(self.timers[k].1);
            assert(self.timers@.take(k as int + 1).map_values(|e: (u64, u64)| e.1) =~= self.timers@.take(
                k as int,
            ).map_values(|e: (u64, u64)| e.1).push(self.timers@[k as int].1));
            k = k + 1;
        }
        proof {
            assert forall|i: int| k <= i < pre.timers@.len() implies pre.timers@[i].0 > pre.now by {
                assert(pre.timers_spec()[k as int].0 <= pre.timers_spec()[i].0);
            }
        }
        let rest = self.timers.split_off(k);
        self.timers = rest;
        proof {
            assert(self.timers@ =~= pre.timers@.skip(k as int));
            assert(self.tasks_spec() == pre.tasks_spec());
            assert forall|i: int, j: int| 0 <= i < j < self.timers@.len() implies self.timers@[i].0 <= self.timers@[j].0 by {
                assert(pre.timers_spec()[i + k].0 <= pre.timers_spec()[j + k].0);
            }
        }
        ids
    }

    /// The deadline `duration` nanoseconds from now (the largest time when that passes it).
    pub fn wait(&self, duration: u64) -> (r: u64)
        ensures
            r as int == if self.now_spec() + duration > u64::MAX {
                u64::MAX as int
            } else {
                self.now_spec() + duration
            },
    {
        self.now.saturating_add(duration)
    }

    /// The deadline `when`.
    pub fn wait_until(&self, when: u64) -> (r: u64)
        ensures
            r == when,
    {
        when
    }

    /// Whether the clock has reached `deadline`.
    pub fn is_due(&self, deadline: u64) -> (r: bool)
        ensures
            r == (deadline <= self.now_spec()),
    {
        deadline <= self.now
    }

    /// Whether another task can be admitted.
    pub fn can_insert(&self) -> (r: bool)
        ensures
            r == (self.next_key_spec() < u64::MAX),
    {
        self.next_key < u64::MAX
    }

    /// Admits a task under the next key; `None` when the keys are exhausted.
    pub fn insert(&mut self, task: T) -> (r: Option<SchedulerHandle>)
        requires
            old(self).wf(),
        ensures
            final(self).wf(),
            final(self).now_spec() == old(self).now_spec(),
            old(self).next_key_spec() < u64::MAX ==> r == Some(SchedulerHandle { key: old(self).next_key_spec() })
                && final(self).tasks_spec() == old(self).tasks_spec().push((old(self).next_key_spec(), task))
                && final(self).next_key_spec() == old(self).next_key_spec() + 1,
            old(self).next_key_spec() == u64::MAX ==> r is None && final(self).tasks_spec()
                == old(self).tasks_spec() && final(self).next_key_spec() == old(self).next_key_spec(),
    {
        if self.next_key == u64::MAX {
            return None;
        }
        let key = self.next_key;
        let ghost pre = self.tasks@;
        self.tasks.push((key, task));
        self.next_key = key + 1;
        proof {
            assert forall|i: int| 0 <= i < pre.len() implies self.tasks@[i] == pre[i] by {}
            assert forall|i: int| 0 <= i < pre.len() implies pre[i].0 < key by {
                assert(old(self).tasks_spec()[i].0 < old(self).next_key_spec());
            }
            assert forall|i: int, j: int| 0 <= i < j < pre.len() implies pre[i].0 < pre[j].0 by {
                assert(old(self).tasks_spec()[i].0 < old(self).tasks_spec()[j].0);
            }
            assert(self.tasks@[pre.len() as int].0 == key);
        }
        Some(SchedulerHandle { key })
    }

    /// Admits a task that the stack cannot run without.
    pub fn spawn(&mut self, task: T) -> (r: SchedulerHandle)
        requires
            old(self).wf(),
            old(self).next_key_spec() < u64::MAX,
        ensures
            final(self).wf(),
            final(self).now_spec() == old(self).now_spec(),
            r.key == old(self).next_key_spec(),
            final(self).tasks_spec() == old(self).tasks_spec().push((old(self).next_key_spec(), task)),
            final(self).next_key_spec() == old(self).next_key_spec() + 1,
    {
        match self.insert(task) {
            Some(h) => h,
            None => SchedulerHandle { key: 0 },
        }
    }

    /// Admits a task for execution; the same as `spawn`.
    pub fn schedule(&mut self, task: T) -> (r: SchedulerHandle)
        requires
            old(self).wf(),
            old(self).next_key_spec() < u64::MAX,
        ensures
            final(self).wf(),
            final(self).now_spec() == old(self).now_spec(),
            r.key == old(self).next_key_spec(),
            final(self).tasks_spec() == old(self).tasks_spec().push((old(self).next_key_spec(), task)),
            final(self).next_key_spec() == old(self).next_key_spec() + 1,
    {
        self.spawn(task)
    }

    fn position(&self, key: u64) -> (r: Option<usize>)
        ensures
            match r {
                Some(i) => i < self.tasks_spec().len() && self.tasks_spec()[i as int].0 == key,
                None => !keys_of(self.tasks_spec()).contains(key),
            },
    {
        let mut i: usize = 0;
        while i < self.tasks.len()
            invariant
                i <= self.tasks@.len(),
                forall|j: int| 0 <= j < i ==> self.tasks@[j].0 != key,
            decreases self.tasks@.len() - i,
        {
            if self.tasks[i].0 == key {
                return Some(i);
            }
            i = i + 1;
        }
        proof {
            if keys_of(self.tasks@).contains(key) {
                let j = choose|j: int| 0 <= j < keys_of(self.tasks@).len() && keys_of(self.tasks@)[j] == key;
                assert(self.tasks@[j].0 == key);
            }
        }
        None
    }

    /// The handle of the task with `key`, if it is still in the table.
    pub fn get_handle(&self, key: u64) -> (r: Option<SchedulerHandle>)
        ensures
            r is Some <==> keys_of(self.tasks_spec()).contains(key),
            r is Some ==> r.unwrap().key == key,
    {
        match self.position(key) {
            Some(i) => {
                proof {
                    assert(keys_of(self.tasks@)[i as int] == key);
                }
                Some(SchedulerHandle { key })
            },
            None => None,
        }
    }

    /// Removes the task of `handle` from the table and hands it back; `None` if it was
    /// already taken.
    pub fn take(&mut self, handle: SchedulerHandle) -> (r: Option<T>)
        requires
            old(self).wf(),
        ensures
            final(self).wf(),
            final(self).now_spec() == old(self).now_spec(),
            final(self).next_key_spec() == old(self).next_key_spec(),
            !keys_of(old(self).tasks_spec()).contains(handle.key) ==> r is None
                && final(self).tasks_spec() == old(self).tasks_spec(),
            keys_of(old(self).tasks_spec()).contains(handle.key) ==> exists|i: int|
                0 <= i < old(self).tasks_spec().len() && old(self).tasks_spec()[i].0 == handle.key
                    && r == Some(old(self).tasks_spec()[i].1)
                    && final(self).tasks_spec() == old(self).tasks_spec().remove(i),
            !keys_of(final(self).tasks_spec()).contains(handle.key),
    {
        match self.position(handle.key) {
            Some(i) => {
                proof {
                    assert(keys_of(self.tasks@)[i as int] == handle.key);
                }
                let ghost pre = self.tasks@;
                let (_, task) = self.tasks.remove(i);
                proof {
                    assert(self.tasks@ == pre.remove(i as int));
                    assert forall|a: int, b: int| 0 <= a < b < self.tasks@.len() implies self.tasks@[a].0 < self.tasks@[b].0 by {
                        if a >= i {
                            assert(self.tasks@[a] == pre[a + 1]);
                        }
                        if b >= i {
                            assert(self.tasks@[b] == pre[b + 1]);
                        }
                    }
                    assert forall|a: int| 0 <= a < self.tasks@.len() implies self.tasks@[a].0 != handle.key by {
                        if a >= i {
                            assert(self.tasks@[a] == pre[a + 1]);
                        }
                    }
                    if keys_of(self.tasks@).contains(handle.key) {
                        let j = choose|j: int| 0 <= j < keys_of(self.tasks@).len() && keys_of(self.tasks@)[j] == handle.key;
                        assert(self.tasks@[j].0 == handle.key);
                    }
                }
                Some(task)
            },
            None => None,
        }
    }

    /// Wraps a buffer as a one-segment scatter-gather array; a buffer longer than a
    /// segment can describe is out of range.
    pub fn into_sgarray(&self, buf: Vec<u8>) -> (r: Result<SgArray, Fail>)
        ensures
            buf@.len() <= MAX_SEGMENT_LEN ==> r is Ok && r.unwrap().sga_numsegs == 1 && r.unwrap().sga_seg@ == buf@,
            buf@.len() > MAX_SEGMENT_LEN ==> r is Err && matches!(r.unwrap_err(), Fail::OutOfRange { .. }),
    {
        if buf.len() > MAX_SEGMENT_LEN {
            return Err(Fail::OutOfRange { details: "buffer too long for a segment" });
        }
        Ok(SgArray { sga_numsegs: 1, sga_seg: buf })
    }

    /// Allocates a one-segment scatter-gather array of `size` zero bytes. A size of
    /// zero is an invalid argument; one beyond a segment's reach is out of range.
    pub fn alloc_sgarray(&self, size: usize) -> (r: Result<SgArray, Fail>)
        ensures
            1 <= size <= MAX_SEGMENT_LEN <==> r is Ok,
            r is Ok ==> r.unwrap().sga_numsegs == 1 && r.unwrap().sga_seg@ == zeros(size as nat),
            size == 0 ==> r == Err::<SgArray, Fail>(Fail::InvalidArgument),
            size > MAX_SEGMENT_LEN ==> r is Err && matches!(r.unwrap_err(), Fail::OutOfRange { .. }),
    {
        if size == 0 {
            return Err(Fail::InvalidArgument);
        }
        if size > MAX_SEGMENT_LEN {
            return Err(Fail::OutOfRange { details: "buffer too long for a segment" });
        }
        let mut buf: Vec<u8> = Vec::new();
        let mut i: usize = 0;
        while i < size
            invariant
                i <= size,
                buf@ == Seq::new(i as nat, |k: int| 0u8),
            decreases size - i,
        {
            buf.push(0u8);
            assert(buf@ =~= Seq::new((i + 1) as nat, |k: int| 0u8));
            i = i + 1;
        }
        Ok(SgArray { sga_numsegs: 1, sga_seg: buf })
    }

    /// Releases a scatter-gather array; only one-segment arrays are accepted.
    pub fn free_sgarray(&self, sga: SgArray) -> (r: Result<(), Fail>)
        ensures
            r == free_spec(sga.sga_numsegs),
    {
        if sga.sga_numsegs != 1 {
            return Err(Fail::InvalidArgument);
        }
        Ok(())
    }

    /// Copies the bytes of a one-segment scatter-gather array into a new buffer.
    pub fn clone_sgarray(&self, sga: &SgArray) -> (r: Result<Vec<u8>, Fail>)
        ensures
            match r {
                Ok(v) => clone_spec(sga.sga_numsegs, sga.sga_seg@) == Ok::<Seq<u8>, Fail>(v@),
                Err(e) => clone_spec(sga.sga_numsegs, sga.sga_seg@) == Err::<Seq<u8>, Fail>(e),
            },
    {
        if sga.sga_numsegs != 1 {
            return Err(Fail::InvalidArgument);
        }
        let mut out: Vec<u8> = Vec::new();
        let mut i: usize = 0;
        while i < sga.sga_seg.len()
            invariant
                i <= sga.sga_seg@.len(),
                out@ == sga.sga_seg@.take(i as int),
            decreases sga.sga_seg@.len() - i,
        {
            out.push(sga.sga_seg[i]);
            assert(sga.sga_seg@.take(i as int + 1) =~= sga.sga_seg@.take(i as int).push(sga.sga_seg@[i as int]));
            i = i + 1;
        }
        assert(sga.sga_seg@.take(sga.sga_seg@.len() as int) =~= sga.sga_seg@);
        Ok(out)
    }
}

} // verus!
