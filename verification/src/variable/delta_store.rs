//! The variable store: one domain per variable, and for each variable the strongest event
//! since the scheduler last asked.

use crate::domain::bounds_of;
use crate::domain::interval_is_empty;
use crate::domain::proper;
use crate::domain::Bounds;
use crate::propagation::events::lemma_events_compose;
use crate::propagation::events::FDEvent;
use crate::variable::memory::CopyStore;
use crate::variable::memory::ImmutableCopyStore;
use interval::Interval;
use std::rc::Rc;
use vstd::prelude::*;

verus! {

/// The ranges that a sequence of domains stands for.
pub open spec fn ranges_of(domains: Seq<Interval<i32>>) -> Seq<Bounds> {
    Seq::new(domains.len(), |i: int| bounds_of(domains[i]))
}

/// Whether every domain of the sequence is one that a variable can have.
pub open spec fn all_proper(domains: Seq<Interval<i32>>) -> bool {
    forall|i: int| 0 <= i < domains.len() ==> proper(#[trigger] domains[i])
}

/// Whether every range of the sequence is one that a variable can have: not empty, and within
/// the limits of an interval over `i32`.
pub open spec fn domains_ok(domains: Seq<Bounds>) -> bool {
    forall|i: int|
        0 <= i < domains.len() ==> i32::MIN < (#[trigger] domains[i]).lb <= domains[i].ub
            <= i32::MAX
}

/// Whether `after` has a domain for each variable of `before`, included in the one it had.
pub open spec fn narrows(after: Seq<Bounds>, before: Seq<Bounds>) -> bool {
    &&& after.len() == before.len()
    &&& forall|i: int| 0 <= i < after.len() ==> (#[trigger] after[i]).subset_of(before[i])
}

/// The changes among the first `n` variables, in the order of the variables: each variable
/// whose pending event is a change, with that event.
pub open spec fn delta_of(pending: Seq<FDEvent>, n: int) -> Seq<(usize, FDEvent)>
    decreases n,
{
    if n <= 0 {
        Seq::empty()
    } else if pending[n - 1] != FDEvent::NoChange {
        delta_of(pending, n - 1).push(((n - 1) as usize, pending[n - 1]))
    } else {
        delta_of(pending, n - 1)
    }
}

/// The delta lists exactly the variables whose pending event is a change, each once with that
/// event, in the order of the variables.
pub proof fn lemma_delta_of(pending: Seq<FDEvent>, n: int)
    requires
        0 <= n <= pending.len(),
        n <= usize::MAX,
    ensures
        forall|j: int|
            0 <= j < delta_of(pending, n).len() ==> {
                let entry = #[trigger] delta_of(pending, n)[j];
                &&& entry.0 < n
                &&& entry.1 == pending[entry.0 as int]
                &&& entry.1 != FDEvent::NoChange
            },
        forall|j: int, k: int|
            0 <= j < k < delta_of(pending, n).len() ==> (#[trigger] delta_of(pending, n)[j]).0 < (
            #[trigger] delta_of(pending, n)[k]).0,
        forall|v: int|
            0 <= v < n && (#[trigger] pending[v]) != FDEvent::NoChange ==> delta_of(
                pending,
                n,
            ).contains((v as usize, pending[v])),
    decreases n,
{
    if n > 0 {
        lemma_delta_of(pending, n - 1);
        let before = delta_of(pending, n - 1);
        let now = delta_of(pending, n);
        assert forall|v: int| 0 <= v < n && (#[trigger] pending[v]) != FDEvent::NoChange implies now.contains(
            (v as usize, pending[v]),
        ) by {
            if v < n - 1 {
                let j = choose|j: int| 0 <= j < before.len() && before[j] == (v as usize, pending[v]);
                assert(now[j] == (v as usize, pending[v]));
            } else {
                assert(now[now.len() - 1] == (v as usize, pending[v]));
            }
        }
    }
}

/// Where no variable has a pending change, the delta is empty.
pub proof fn lemma_delta_of_no_change(pending: Seq<FDEvent>, n: int)
    requires
        0 <= n <= pending.len(),
        forall|v: int| 0 <= v < n ==> pending[v] == FDEvent::NoChange,
    ensures
        delta_of(pending, n) == Seq::<(usize, FDEvent)>::empty(),
    decreases n,
{
    if n > 0 {
        lemma_delta_of_no_change(pending, n - 1);
    }
}

/// The number of values that the domains hold, all variables together.
pub open spec fn total_size(domains: Seq<Bounds>) -> nat
    decreases domains.len(),
{
    if domains.len() == 0 {
        0
    } else {
        total_size(domains.drop_last()) + domains.last().size()
    }
}

/// A narrowing does not add values, and it removes at least one unless it changes nothing.
pub proof fn lemma_total_size_narrows(after: Seq<Bounds>, before: Seq<Bounds>)
    requires
        narrows(after, before),
        domains_ok(after),
    ensures
        total_size(after) <= total_size(before),
        after != before ==> total_size(after) < total_size(before),
    decreases after.len(),
{
    if after.len() > 0 {
        let a = after.drop_last();
        let b = before.drop_last();
        assert(narrows(a, b)) by {
            assert forall|i: int| 0 <= i < a.len() implies (#[trigger] a[i]).subset_of(b[i]) by {
                assert(after[i].subset_of(before[i]));
            }
        }
        assert(domains_ok(a)) by {
            assert forall|i: int| 0 <= i < a.len() implies i32::MIN < (#[trigger] a[i]).lb
                <= a[i].ub <= i32::MAX by {
                assert(i32::MIN < after[i].lb <= after[i].ub);
            }
        }
        lemma_total_size_narrows(a, b);
        assert(after.last().subset_of(before.last()));
        if a == b && after.last() == before.last() {
            assert forall|i: int| 0 <= i < after.len() implies after[i] == before[i] by {
                if i < after.len() - 1 {
                    assert(a[i] == after[i] && b[i] == before[i]);
                }
            }
            assert(after =~= before);
        }
    } else {
        assert(after =~= before);
    }
}

/// A store of variables over integer intervals that records how each domain changed.
pub struct DeltaStore {
    memory: CopyStore<Interval<i32>>,
    pending: Vec<FDEvent>,
    baseline: Ghost<Seq<Bounds>>,
}

impl DeltaStore {
    /// The domains as they are held, one per variable.
    pub closed spec fn held(&self) -> Seq<Interval<i32>> {
        self.memory@
    }

    /// The current range of each variable.
    pub open spec fn domains(&self) -> Seq<Bounds> {
        ranges_of(self.held())
    }

    /// The pending event of each variable.
    pub closed spec fn pending(&self) -> Seq<FDEvent> {
        self.pending@
    }

    /// The range that each variable had when the delta was last consumed, or when it was
    /// allocated if that was later.
    pub closed spec fn baseline(&self) -> Seq<Bounds> {
        self.baseline@
    }

    /// The number of variables.
    pub open spec fn len(&self) -> nat {
        self.held().len()
    }

    /// The invariant of the store: every variable has a non-empty domain, included in its
    /// baseline, and its pending event is exactly the event of the net narrowing since then.
    pub open spec fn wf(&self) -> bool {
        &&& self.pending().len() == self.len()
        &&& self.baseline().len() == self.len()
        &&& self.len() <= usize::MAX
        &&& all_proper(self.held())
        &&& forall|i: int|
            0 <= i < self.len() ==> {
                &&& (#[trigger] self.domains()[i]).subset_of(self.baseline()[i])
                &&& self.pending()[i] == FDEvent::of_narrowing(
                    self.baseline()[i],
                    self.domains()[i],
                )
            }
    }

    /// Every range of a well-formed store is one that a variable can have.
    pub proof fn lemma_domains_ok(&self)
        requires
            self.wf(),
        ensures
            domains_ok(self.domains()),
    {
        assert forall|i: int| 0 <= i < self.domains().len() implies i32::MIN < (
        #[trigger] self.domains()[i]).lb <= self.domains()[i].ub <= i32::MAX by {
            assert(proper(self.held()[i]));
        }
    }

    /// Event accuracy: the delta that the next consumption hands out lists exactly the
    /// variables whose domain differs from its baseline, each with the event of its net
    /// narrowing since then.
    pub proof fn lemma_event_accuracy(&self)
        requires
            self.wf(),
        ensures
            forall|j: int|
                0 <= j < delta_of(self.pending(), self.len() as int).len() ==> {
                    let entry = #[trigger] delta_of(self.pending(), self.len() as int)[j];
                    &&& entry.0 < self.len()
                    &&& self.domains()[entry.0 as int] != self.baseline()[entry.0 as int]
                    &&& entry.1 == FDEvent::of_narrowing(
                        self.baseline()[entry.0 as int],
                        self.domains()[entry.0 as int],
                    )
                },
            forall|v: int|
                0 <= v < self.len() && (#[trigger] self.domains()[v]) != self.baseline()[v]
                    ==> delta_of(self.pending(), self.len() as int).contains(
                    (v as usize, FDEvent::of_narrowing(self.baseline()[v], self.domains()[v])),
                ),
    {
        lemma_delta_of(self.pending(), self.len() as int);
        self.lemma_domains_ok();
    }

    /// A store without variables.
    pub fn empty() -> (store: DeltaStore)
        ensures
            store.wf(),
            store.len() == 0,
    {
        DeltaStore { memory: CopyStore::empty(), pending: Vec::new(), baseline: Ghost(Seq::empty()) }
    }

    /// A store without variables.
    pub fn new() -> (store: DeltaStore)
        ensures
            store.wf(),
            store.len() == 0,
    {
        DeltaStore::empty()
    }

    /// The number of variables.
    pub fn size(&self) -> (n: usize)
        requires
            self.wf(),
        ensures
            n == self.len(),
    {
        self.memory.size()
    }

    /// Allocates a variable with the domain `dom`, which must not be empty, and returns its
    /// handle: the number of variables allocated before it.
    pub fn allocate(&mut self, dom: Interval<i32>) -> (var: usize)
        requires
            old(self).wf(),
            old(self).len() < usize::MAX,
            proper(dom),
        ensures
            final(self).wf(),
            var == old(self).len(),
            final(self).held() == old(self).held().push(dom),
            final(self).pending() == old(self).pending().push(FDEvent::NoChange),
            final(self).baseline() == old(self).baseline().push(bounds_of(dom)),
    {
        let var = self.memory.size();
        self.memory.push(dom);
        self.pending.push(FDEvent::NoChange);
        proof {
            self.baseline@ = self.baseline@.push(bounds_of(dom));
        }
        assert forall|i: int| 0 <= i < self.len() implies {
            &&& proper(#[trigger] self.held()[i])
            &&& self.domains()[i].subset_of(self.baseline()[i])
            &&& self.pending()[i] == FDEvent::of_narrowing(self.baseline()[i], self.domains()[i])
        } by {
            if i < old(self).len() {
                assert(old(self).domains()[i].subset_of(old(self).baseline()[i]));
            }
        }
        var
    }

    /// The current domain of the variable `var`. The pending event stays.
    pub fn read(&self, var: usize) -> (dom: Interval<i32>)
        requires
            self.wf(),
            var < self.len(),
        ensures
            dom == self.held()[var as int],
            proper(dom),
            bounds_of(dom) == self.domains()[var as int],
    {
        *self.memory.index(var)
    }

    /// Narrows the variable `var` to `dom`, which must be included in its current domain.
    ///
    /// An empty `dom` is a failure: the store stays as it is and the result is `false`.
    /// Otherwise `dom` becomes the variable's domain, the event of this narrowing is merged
    /// into its pending event, and the result is `true`.
    pub fn update(&mut self, var: usize, dom: Interval<i32>) -> (ok: bool)
        requires
            old(self).wf(),
            var < old(self).len(),
            bounds_of(dom).subset_of(old(self).domains()[var as int]),
        ensures
            final(self).wf(),
            ok == !bounds_of(dom).is_empty(),
            final(self).baseline() == old(self).baseline(),
            ok ==> final(self).held() == old(self).held().update(var as int, dom),
            ok ==> final(self).pending() == old(self).pending().update(
                var as int,
                old(self).pending()[var as int].spec_merge(
                    FDEvent::of_narrowing(old(self).domains()[var as int], bounds_of(dom)),
                ),
            ),
            !ok ==> final(self).held() == old(self).held(),
            !ok ==> final(self).pending() == old(self).pending(),
    {
        let current = *self.memory.index(var);
        if interval_is_empty(&dom) {
            false
        } else {
            let event = FDEvent::new(&dom, &current);
            let merged = self.pending[var].merge(event);
            self.pending.set(var, merged);
            self.memory.update(var, dom);
            assert forall|i: int| 0 <= i < self.len() implies {
                &&& proper(#[trigger] self.held()[i])
                &&& self.domains()[i].subset_of(self.baseline()[i])
                &&& self.pending()[i] == FDEvent::of_narrowing(
                    self.baseline()[i],
                    self.domains()[i],
                )
            } by {
                assert(old(self).domains()[i].subset_of(old(self).baseline()[i]));
                if i == var as int {
                    lemma_events_compose(
                        self.baseline()[i],
                        old(self).domains()[i],
                        bounds_of(dom),
                    );
                }
            }
            true
        }
    }

    /// Hands out the changes since the last call, in the order of the variables, and clears
    /// them: each variable whose domain changed, with the event of its net narrowing.
    pub fn consume_delta(&mut self) -> (delta: Vec<(usize, FDEvent)>)
        requires
            old(self).wf(),
        ensures
            final(self).wf(),
            delta@ == delta_of(old(self).pending(), old(self).len() as int),
            final(self).held() == old(self).held(),
            final(self).baseline() == old(self).domains(),
            final(self).pending() == Seq::new(old(self).len(), |i: int| FDEvent::NoChange),
    {
        let mut delta: Vec<(usize, FDEvent)> = Vec::new();
        let n = self.pending.len();
        let mut i: usize = 0;
        while i < n
            invariant
                i <= n,
                n == old(self).len(),
                self.pending@.len() == n,
                self.memory == old(self).memory,
                self.baseline == old(self).baseline,
                delta@ == delta_of(old(self).pending(), i as int),
                forall|k: int| 0 <= k < i ==> self.pending@[k] == FDEvent::NoChange,
                forall|k: int| i <= k < n ==> self.pending@[k] == old(self).pending()[k],
            decreases n - i,
        {
            let event = self.pending[i];
            if event.is_change() {
                delta.push((i, event));
                self.pending.set(i, FDEvent::NoChange);
            }
            i = i + 1;
        }
        proof {
            self.baseline@ = self.domains();
        }
        delta
    }

    /// Turns the store into an immutable snapshot of its domains. Pending events are not part
    /// of a snapshot.
    pub fn freeze(self) -> (frozen: FrozenDeltaStore)
        requires
            self.wf(),
        ensures
            frozen.wf(),
            frozen.held() == self.held(),
    {
        FrozenDeltaStore { memory: self.memory.freeze() }
    }
}

/// An immutable snapshot of the domains of a [`DeltaStore`].
pub struct FrozenDeltaStore {
    memory: ImmutableCopyStore<Interval<i32>>,
}

/// A store with the domains of a sequence of proper domains and no pending event.
fn resume(memory: CopyStore<Interval<i32>>) -> (store: DeltaStore)
    requires
        all_proper(memory@),
    ensures
        store.wf(),
        store.held() == memory@,
        store.baseline() == ranges_of(memory@),
        store.pending() == Seq::new(memory@.len(), |i: int| FDEvent::NoChange),
{
    let n = memory.size();
    let mut pending: Vec<FDEvent> = Vec::new();
    let mut i: usize = 0;
    while i < n
        invariant
            i <= n,
            pending@ == Seq::new(i as nat, |k: int| FDEvent::NoChange),
        decreases n - i,
    {
        pending.push(FDEvent::NoChange);
        i = i + 1;
    }
    DeltaStore { memory: memory, pending: pending, baseline: Ghost(ranges_of(memory@)) }
}

impl FrozenDeltaStore {
    /// The domains of the snapshot, one per variable.
    pub closed spec fn held(&self) -> Seq<Interval<i32>> {
        self.memory@
    }

    /// The range of each variable in the snapshot.
    pub open spec fn domains(&self) -> Seq<Bounds> {
        ranges_of(self.held())
    }

    /// The invariant of a snapshot: it was taken of a store, so every domain is one that a
    /// variable can have.
    pub open spec fn wf(&self) -> bool {
        all_proper(self.held())
    }

    /// A label for the snapshot: a handle that shares its domains and from which a store can
    /// be restored any number of times.
    pub fn label(&mut self) -> (label: Rc<Vec<Interval<i32>>>)
        ensures
            label@ == old(self).held(),
            final(self).held() == old(self).held(),
    {
        self.memory.label()
    }

    /// A mutable store with the domains of `label` and no pending event. The label's other
    /// holders keep what they had.
    pub fn restore(self, label: Rc<Vec<Interval<i32>>>) -> (store: DeltaStore)
        requires
            all_proper(label@),
        ensures
            store.wf(),
            store.held() == label@,
            store.baseline() == store.domains(),
            store.pending() == Seq::new(label@.len(), |i: int| FDEvent::NoChange),
    {
        let memory = self.memory.restore(label);
        resume(memory)
    }
}

/// Freeze and restore round trip: a store restored from the label of a snapshot has, for every
/// variable, the domain that the frozen store had, and nothing pending.
pub proof fn lemma_freeze_restore(
    store: DeltaStore,
    frozen: FrozenDeltaStore,
    label: Seq<Interval<i32>>,
    restored: DeltaStore,
)
    requires
        store.wf(),
        frozen.held() == store.held(),
        label == frozen.held(),
        restored.wf(),
        restored.held() == label,
        restored.baseline() == restored.domains(),
    ensures
        all_proper(label),
        restored.len() == store.len(),
        restored.held() == store.held(),
        restored.domains() == store.domains(),
        delta_of(restored.pending(), restored.len() as int) == Seq::<(usize, FDEvent)>::empty(),
{
    assert forall|v: int| 0 <= v < restored.len() implies restored.pending()[v]
        == FDEvent::NoChange by {
        assert(restored.domains()[v].subset_of(restored.baseline()[v]));
    }
    lemma_delta_of_no_change(restored.pending(), restored.len() as int);
}

} // verus!
