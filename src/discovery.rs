//! Discovery coordinators: requests are registered in submission order,
//! their results arrive in any order, and results leave in submission order.
use vstd::prelude::*;

verus! {

/// Where a coordinator is in its life.
#[derive(Clone, Copy, Debug, PartialEq, Eq, Structural)]
pub enum Phase {
    /// Accepting new requests.
    Listening,
    /// Terminated: handing out results in submission order.
    Draining,
    /// Every result has been handed out.
    Done,
}

/// Why a coordinator refused an operation.
#[derive(Clone, Copy, Debug, PartialEq, Eq, Structural)]
pub enum CoordinatorError {
    /// New requests are accepted only while listening.
    NotListening,
    /// No pending request has this slot.
    UnknownSlot,
    /// This slot already holds its result.
    AlreadyFilled,
}

/// A slot after a result arrives for it: only an empty slot in range takes it.
pub open spec fn fill<T>(slots: Seq<Option<T>>, k: int, v: T) -> Seq<Option<T>> {
    if 0 <= k < slots.len() && slots[k].is_none() {
        slots.update(k, Some(v))
    } else {
        slots
    }
}

/// The slots after results arrive in the order of `comps` (slot, result).
pub open spec fn fill_all<T>(slots: Seq<Option<T>>, comps: Seq<(int, T)>) -> Seq<Option<T>>
    decreases comps.len(),
{
    if comps.len() == 0 {
        slots
    } else {
        let pre = fill_all(slots, comps.drop_last());
        fill(pre, comps.last().0, comps.last().1)
    }
}

/// `n` slots, none of them filled.
pub open spec fn empty_slots<T>(n: nat) -> Seq<Option<T>> {
    Seq::new(n, |i: int| None::<T>)
}

/// Whether every slot holds its result.
pub open spec fn all_filled<T>(slots: Seq<Option<T>>) -> bool {
    forall|i: int| 0 <= i < slots.len() ==> (#[trigger] slots[i]).is_some()
}

/// The results of filled slots, in slot order.
pub open spec fn unwrap_all<T>(slots: Seq<Option<T>>) -> Seq<T> {
    slots.map_values(|o: Option<T>| o.unwrap())
}

/// Each completion names a slot below `n`, and no slot twice.
pub open spec fn distinct_slots<T>(n: nat, comps: Seq<(int, T)>) -> bool {
    &&& forall|j: int| 0 <= j < comps.len() ==> 0 <= (#[trigger] comps[j]).0 < n
    &&& forall|j1: int, j2: int|
        0 <= j1 < comps.len() && 0 <= j2 < comps.len() && j1 != j2 ==> (#[trigger] comps[j1]).0
            != (#[trigger] comps[j2]).0
}

/// Some completion names slot `i`.
pub open spec fn names_slot<T>(comps: Seq<(int, T)>, i: int) -> bool {
    exists|j: int| 0 <= j < comps.len() && (#[trigger] comps[j]).0 == i
}

/// Every slot below `n` is named by some completion.
pub open spec fn covers<T>(n: nat, comps: Seq<(int, T)>) -> bool {
    forall|i: int| 0 <= i < n ==> #[trigger] names_slot(comps, i)
}

proof fn lemma_fill_all_slots<T>(n: nat, comps: Seq<(int, T)>)
    requires
        distinct_slots(n, comps),
    ensures
        fill_all(empty_slots::<T>(n), comps).len() == n,
        forall|j: int|
            0 <= j < comps.len() ==> fill_all(empty_slots::<T>(n), comps)[(#[trigger] comps[j]).0]
                == Some(comps[j].1),
        forall|i: int|
            0 <= i < n && (forall|j: int| 0 <= j < comps.len() ==> (#[trigger] comps[j]).0 != i)
                ==> fill_all(empty_slots::<T>(n), comps)[i].is_none(),
    decreases comps.len(),
{
    if comps.len() > 0 {
        let pre_c = comps.drop_last();
        assert forall|j: int| 0 <= j < pre_c.len() implies 0 <= (#[trigger] pre_c[j]).0 < n by {
            assert(pre_c[j] == comps[j]);
        }
        assert forall|j1: int, j2: int|
            0 <= j1 < pre_c.len() && 0 <= j2 < pre_c.len() && j1 != j2 implies (#[trigger] pre_c[j1]).0
                != (#[trigger] pre_c[j2]).0 by {
            assert(pre_c[j1] == comps[j1] && pre_c[j2] == comps[j2]);
        }
        lemma_fill_all_slots::<T>(n, pre_c);
        let pre = fill_all(empty_slots::<T>(n), pre_c);
        let last = comps.len() - 1;
        let k = comps[last].0;
        assert forall|j: int| 0 <= j < pre_c.len() implies (#[trigger] pre_c[j]).0 != k by {
            assert(pre_c[j] == comps[j]);
            assert(comps[j].0 != comps[last].0);
        }
        assert(pre[k].is_none());
        let s = fill_all(empty_slots::<T>(n), comps);
        assert(s == pre.update(k, Some(comps[last].1)));
        assert forall|j: int| 0 <= j < comps.len() implies s[(#[trigger] comps[j]).0] == Some(comps[j].1) by {
            if j < last {
                assert(pre_c[j] == comps[j]);
                assert(comps[j].0 != comps[last].0);
            }
        }
        assert forall|i: int|
            0 <= i < n && (forall|j: int| 0 <= j < comps.len() ==> (#[trigger] comps[j]).0 != i)
                implies s[i].is_none() by {
            assert(comps[last].0 != i);
            assert forall|j: int| 0 <= j < pre_c.len() implies (#[trigger] pre_c[j]).0 != i by {
                assert(pre_c[j] == comps[j]);
            }
        }
    }
}

/// Results leave in submission order, not arrival order: whatever order the
/// results of `n` requests arrive in, once each has arrived every slot is
/// filled, and slot `i` holds the result of request `i`.
pub proof fn lemma_results_in_submission_order<T>(n: nat, comps: Seq<(int, T)>)
    requires
        distinct_slots(n, comps),
        covers(n, comps),
    ensures
        fill_all(empty_slots::<T>(n), comps).len() == n,
        all_filled(fill_all(empty_slots::<T>(n), comps)),
        forall|j: int|
            0 <= j < comps.len() ==> fill_all(empty_slots::<T>(n), comps)[(#[trigger] comps[j]).0]
                == Some(comps[j].1),
{
    lemma_fill_all_slots::<T>(n, comps);
    let s = fill_all(empty_slots::<T>(n), comps);
    assert forall|i: int| 0 <= i < s.len() implies (#[trigger] s[i]).is_some() by {
        assert(names_slot(comps, i));
        let j = choose|j: int| 0 <= j < comps.len() && (#[trigger] comps[j]).0 == i;
        assert(s[comps[j].0] == Some(comps[j].1));
    }
}

/// Two arrival orders of the same results leave the same slots.
pub proof fn lemma_arrival_order_irrelevant<T>(n: nat, c1: Seq<(int, T)>, c2: Seq<(int, T)>)
    requires
        distinct_slots(n, c1),
        covers(n, c1),
        distinct_slots(n, c2),
        forall|j1: int| 0 <= j1 < c1.len() ==> exists|j2: int| 0 <= j2 < c2.len() && #[trigger] c1[j1] == #[trigger] c2[j2],
    ensures
        fill_all(empty_slots::<T>(n), c1) == fill_all(empty_slots::<T>(n), c2),
{
    lemma_results_in_submission_order::<T>(n, c1);
    lemma_fill_all_slots::<T>(n, c2);
    let s1 = fill_all(empty_slots::<T>(n), c1);
    let s2 = fill_all(empty_slots::<T>(n), c2);
    assert forall|i: int| 0 <= i < n implies s1[i] == s2[i] by {
        assert(names_slot(c1, i));
        let j = choose|j: int| 0 <= j < c1.len() && (#[trigger] c1[j]).0 == i;
        let j2 = choose|j2: int| 0 <= j2 < c2.len() && #[trigger] c1[j] == #[trigger] c2[j2];
        assert(s2[c2[j2].0] == Some(c2[j2].1));
    }
    assert(s1 =~= s2);
}

/// The bytes of one script fetch, gathered chunk by chunk.
pub struct ScriptFetch {
    buf: Vec<u8>,
}

impl ScriptFetch {
    /// The bytes received so far.
    pub closed spec fn received(&self) -> Seq<u8> {
        self.buf@
    }

    pub fn new() -> (r: ScriptFetch)
        ensures
            r.received().len() == 0,
    {
        ScriptFetch { buf: Vec::new() }
    }

    /// A chunk of the payload arrived.
    pub fn on_payload(&mut self, data: &[u8])
        ensures
            final(self).received() == old(self).received() + data@,
    {
        self.buf.extend_from_slice(data);
    }

    /// The fetch ended: the gathered bytes on success, nothing on failure.
    pub fn finish(self, succeeded: bool) -> (r: Option<Vec<u8>>)
        ensures
            succeeded ==> r.is_some() && r.unwrap()@ == self.received(),
            !succeeded ==> r.is_none(),
    {
        if succeeded {
            Some(self.buf)
        } else {
            None
        }
    }
}

/// The registry of requests of one coordinator, in submission order.
pub struct OrderedRegistry<T> {
    phase: Phase,
    emitted: usize,
    pending: Vec<Option<T>>,
}

impl<T> OrderedRegistry<T> {
    pub closed spec fn phase(&self) -> Phase {
        self.phase
    }

    /// Where the registry is in its life.
    pub fn get_phase(&self) -> (r: Phase)
        ensures
            r == self.phase(),
    {
        self.phase
    }

    /// How many results have been handed out: those of slots `0..emitted`.
    pub closed spec fn emitted(&self) -> nat {
        self.emitted as nat
    }

    /// The slots not yet handed out, from slot `emitted` on.
    pub closed spec fn pending(&self) -> Seq<Option<T>> {
        self.pending@
    }

    /// How many requests were submitted.
    pub open spec fn submitted(&self) -> nat {
        self.emitted() + self.pending().len()
    }

    pub closed spec fn wf(&self) -> bool {
        self.emitted + self.pending@.len() <= usize::MAX
    }

    pub fn new() -> (r: OrderedRegistry<T>)
        ensures
            r.wf(),
            r.phase() == Phase::Listening,
            r.emitted() == 0,
            r.pending().len() == 0,
    {
        OrderedRegistry { phase: Phase::Listening, emitted: 0, pending: Vec::new() }
    }

    /// Registers a new request while listening; returns its slot.
    pub fn submit(&mut self) -> (r: Result<usize, CoordinatorError>)
        requires
            old(self).wf(),
            old(self).submitted() < usize::MAX,
        ensures
            final(self).wf(),
            final(self).phase() == old(self).phase(),
            final(self).emitted() == old(self).emitted(),
            old(self).phase() == Phase::Listening ==> {
                &&& r == Ok::<usize, CoordinatorError>(old(self).submitted() as usize)
                &&& final(self).pending() == old(self).pending().push(None)
            },
            old(self).phase() != Phase::Listening ==> {
                &&& r == Err::<usize, CoordinatorError>(CoordinatorError::NotListening)
                &&& final(self).pending() == old(self).pending()
            },
    {
        if self.phase != Phase::Listening {
            return Err(CoordinatorError::NotListening);
        }
        let slot = self.emitted + self.pending.len();
        self.pending.push(None);
        Ok(slot)
    }

    /// Records the result of the request in `slot`, whatever the order of arrival.
    pub fn complete(&mut self, slot: usize, value: T) -> (r: Result<(), CoordinatorError>)
        requires
            old(self).wf(),
        ensures
            final(self).wf(),
            final(self).phase() == old(self).phase(),
            final(self).emitted() == old(self).emitted(),
            final(self).pending() == fill(old(self).pending(), slot - old(self).emitted(), value),
            r == if slot < old(self).emitted() || slot >= old(self).submitted() {
                Err::<(), CoordinatorError>(CoordinatorError::UnknownSlot)
            } else if old(self).pending()[slot - old(self).emitted()].is_some() {
                Err::<(), CoordinatorError>(CoordinatorError::AlreadyFilled)
            } else {
                Ok::<(), CoordinatorError>(())
            },
    {
        if slot < self.emitted || slot - self.emitted >= self.pending.len() {
            return Err(CoordinatorError::UnknownSlot);
        }
        let k = slot - self.emitted;
        if self.pending[k].is_some() {
            return Err(CoordinatorError::AlreadyFilled);
        }
        self.pending.set(k, Some(value));
        Ok(())
    }

    /// The termination signal: a listening registry starts draining.
    pub fn terminate(&mut self)
        requires
            old(self).wf(),
        ensures
            final(self).wf(),
            final(self).phase() == if old(self).phase() == Phase::Listening {
                Phase::Draining
            } else {
                old(self).phase()
            },
            final(self).emitted() == old(self).emitted(),
            final(self).pending() == old(self).pending(),
    {
        if self.phase == Phase::Listening {
            self.phase = Phase::Draining;
        }
    }

    /// While draining, hands out the result of the earliest slot not yet
    /// handed out, if it has arrived; a later result never overtakes it.
    /// Once every result is out, the registry is done.
    pub fn next_ready(&mut self) -> (r: Option<T>)
        requires
            old(self).wf(),
        ensures
            final(self).wf(),
            old(self).phase() == Phase::Draining && old(self).pending().len() > 0
                && old(self).pending()[0].is_some() ==> {
                &&& r == old(self).pending()[0]
                &&& final(self).pending() == old(self).pending().drop_first()
                &&& final(self).emitted() == old(self).emitted() + 1
                &&& final(self).phase() == Phase::Draining
            },
            !(old(self).phase() == Phase::Draining && old(self).pending().len() > 0
                && old(self).pending()[0].is_some()) ==> {
                &&& r.is_none()
                &&& final(self).pending() == old(self).pending()
                &&& final(self).emitted() == old(self).emitted()
                &&& final(self).phase() == if old(self).phase() == Phase::Draining
                    && old(self).pending().len() == 0 {
                    Phase::Done
                } else {
                    old(self).phase()
                }
            },
    {
        if self.phase != Phase::Draining {
            return None;
        }
        if self.pending.len() == 0 {
            self.phase = Phase::Done;
            return None;
        }
        if self.pending[0].is_none() {
            return None;
        }
        let head = self.pending.remove(0);
        self.emitted = self.emitted + 1;
        assert(self.pending@ =~= old(self).pending@.drop_first());
        head
    }

    /// While draining with every result arrived, hands out all of them at once,
    /// in submission order, and is done.
    pub fn take_all(&mut self) -> (r: Option<Vec<T>>)
        requires
            old(self).wf(),
        ensures
            final(self).wf(),
            old(self).phase() == Phase::Draining && all_filled(old(self).pending()) ==> {
                &&& r.is_some()
                &&& r.unwrap()@ == unwrap_all(old(self).pending())
                &&& final(self).phase() == Phase::Done
                &&& final(self).pending().len() == 0
                &&& final(self).emitted() == old(self).submitted()
            },
            !(old(self).phase() == Phase::Draining && all_filled(old(self).pending())) ==> {
                &&& r.is_none()
                &&& final(self).phase() == old(self).phase()
                &&& final(self).pending() == old(self).pending()
                &&& final(self).emitted() == old(self).emitted()
            },
    {
        if self.phase != Phase::Draining {
            return None;
        }
        let mut i: usize = 0;
        while i < self.pending.len()
            invariant
                i <= self.pending@.len(),
                self.pending@ == old(self).pending@,
                self.emitted == old(self).emitted,
                self.phase == old(self).phase,
                self.wf(),
                forall|j: int| 0 <= j < i ==> (#[trigger] self.pending@[j]).is_some(),
            decreases self.pending@.len() - i,
        {
            if self.pending[i].is_none() {
                return None;
            }
            i = i + 1;
        }
        let n = self.pending.len();
        let mut out: Vec<T> = Vec::new();
        while self.pending.len() > 0
            invariant
                self.pending@.len() + out@.len() == n,
                self.emitted == old(self).emitted,
                self.phase == Phase::Draining,
                old(self).emitted + n <= usize::MAX,
                n == old(self).pending@.len(),
                all_filled(old(self).pending@),
                self.pending@ == old(self).pending@.subrange(out@.len() as int, n as int),
                out@ == unwrap_all(old(self).pending@.subrange(0, out@.len() as int)),
            decreases self.pending@.len(),
        {
            let ghost k = out@.len() as int;
            let head = self.pending.remove(0);
            assert(head == old(self).pending@[k]);
            assert(head.is_some());
            match head {
                Some(v) => {
                    out.push(v);
                },
                None => {},
            }
            assert(self.pending@ =~= old(self).pending@.subrange(k + 1, n as int));
            assert(out@ =~= unwrap_all(old(self).pending@.subrange(0, k + 1)));
        }
        assert(old(self).pending@.subrange(0, n as int) =~= old(self).pending@);
        self.emitted = self.emitted + n;
        self.phase = Phase::Done;
        Some(out)
    }
}

} // verus!
