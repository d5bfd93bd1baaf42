//! The constraint store: the registered propagators, their dependency index, and the loop that
//! runs them to a fixpoint.

use crate::domain::Bounds;
use crate::kernel::Trilean;
use crate::propagation::events::FDEvent;
use crate::propagation::propagator::quiet_for;
use crate::propagation::propagator::within;
use crate::propagation::propagator::Propagator;
use crate::propagation::reactors::asked_for;
use crate::propagation::reactors::entries_for;
use crate::propagation::reactors::lemma_reactions;
use crate::propagation::reactors::lemma_subscribed;
use crate::propagation::reactors::IndexedDeps;
use crate::propagation::schedulers::RelaxedFifo;
use crate::variable::delta_store::delta_of;
use crate::variable::delta_store::domains_ok;
use crate::variable::delta_store::lemma_delta_of;
use crate::variable::delta_store::lemma_delta_of_no_change;
use crate::variable::delta_store::lemma_total_size_narrows;
use crate::variable::delta_store::narrows;
use crate::variable::delta_store::total_size;
use crate::variable::delta_store::DeltaStore;
use vstd::prelude::*;

verus! {

/// Whether the propagator has nothing to do on the domains: it succeeds and changes nothing.
pub open spec fn at_rest<P: Propagator>(p: P, domains: Seq<Bounds>) -> bool {
    p.succeeds(domains) && p.outcome(domains) == domains
}

/// Whether the domains are a fixpoint of all the propagators: every variable has a domain,
/// and no propagator can narrow any of them further.
pub open spec fn common_fixpoint<P: Propagator>(props: Seq<P>, domains: Seq<Bounds>) -> bool {
    &&& domains_ok(domains)
    &&& forall|i: int| 0 <= i < props.len() ==> at_rest(#[trigger] props[i], domains)
}

/// Whether the assignment satisfies the constraints of all the propagators.
pub open spec fn solution<P: Propagator>(props: Seq<P>, assignment: Seq<int>) -> bool {
    forall|i: int| 0 <= i < props.len() ==> (#[trigger] props[i]).holds(assignment)
}

/// Whether the domains entail the constraints of all the propagators.
pub open spec fn all_entailed<P: Propagator>(props: Seq<P>, domains: Seq<Bounds>) -> bool {
    forall|i: int| 0 <= i < props.len() ==> (#[trigger] props[i]).status(domains) == Trilean::True
}

/// Whether every propagator can work on a store of `nvars` variables.
pub open spec fn all_valid<P: Propagator>(props: Seq<P>, nvars: nat) -> bool {
    forall|i: int| 0 <= i < props.len() ==> (#[trigger] props[i]).valid(nvars)
}

/// Whether the index holds every dependency of every propagator, and only propagators that
/// exist.
pub open spec fn indexed<P: Propagator>(props: Seq<P>, index: Seq<Seq<(usize, FDEvent)>>) -> bool {
    &&& forall|i: int, k: int|
        0 <= i < props.len() && 0 <= k < props[i].watched().len() ==> entries_for(
            index,
            (#[trigger] props[i].watched()[k]).0 as int,
        ).contains((i as usize, props[i].watched()[k].1))
    &&& forall|v: int, entry: (usize, FDEvent)| #[trigger]
        entries_for(index, v).contains(entry) ==> entry.0 < props.len()
}

/// Whether one of the first `n` changes of `delta` wakes the propagator `q` up: it subscribed
/// to the variable of that change for an event at most as strong.
pub open spec fn woken_by(
    index: Seq<Seq<(usize, FDEvent)>>,
    delta: Seq<(usize, FDEvent)>,
    n: int,
    q: usize,
) -> bool {
    exists|m: int|
        0 <= m < n && #[trigger] asked_for(
            entries_for(index, delta[m].0 as int),
            delta[m].1,
            entries_for(index, delta[m].0 as int).len() as int,
            q,
        )
}

/// A sequence with one more element at its end contains what it contained, and that element.
proof fn lemma_contains_push(s: Seq<usize>, last: usize, q: usize)
    ensures
        s.push(last).contains(q) <==> s.contains(q) || q == last,
{
    if s.contains(q) {
        let k = choose|k: int| 0 <= k < s.len() && s[k] == q;
        assert(s.push(last)[k] == q);
    }
    if q == last {
        assert(s.push(last)[s.len() as int] == q);
    }
}

/// A propagator that a narrowing does not leave asleep is among those that the delta of this
/// narrowing wakes up through the index.
proof fn lemma_woken<P: Propagator>(
    props: Seq<P>,
    index: Seq<Seq<(usize, FDEvent)>>,
    q: int,
    before: Seq<Bounds>,
    after: Seq<Bounds>,
    pending: Seq<FDEvent>,
)
    requires
        indexed(props, index),
        0 <= q < props.len(),
        props[q].valid(before.len()),
        before.len() == after.len(),
        before.len() == pending.len(),
        before.len() <= usize::MAX,
        forall|v: int|
            0 <= v < pending.len() ==> #[trigger] pending[v] == FDEvent::of_narrowing(
                before[v],
                after[v],
            ),
        !quiet_for(props[q].watched(), before, after),
    ensures
        woken_by(
            index,
            delta_of(pending, pending.len() as int),
            delta_of(pending, pending.len() as int).len() as int,
            q as usize,
        ),
{
    let watched = props[q].watched();
    let delta = delta_of(pending, pending.len() as int);
    let k = choose|k: int|
        0 <= k < watched.len() && !({
            let var = (#[trigger] watched[k]).0 as int;
            let event = FDEvent::of_narrowing(before[var], after[var]);
            event == FDEvent::NoChange || !watched[k].1.spec_le(event)
        });
    let var = watched[k].0;
    let wanted = watched[k].1;
    let event = FDEvent::of_narrowing(before[var as int], after[var as int]);
    props[q].lemma_watched_in_range(before.len());
    assert(var < before.len());
    assert(pending[var as int] == event);
    lemma_delta_of(pending, pending.len() as int);
    assert(delta.contains((var, event)));
    let m = choose|m: int| 0 <= m < delta.len() && delta[m] == (var, event);
    let entries = entries_for(index, var as int);
    assert(entries.contains((q as usize, wanted)));
    let j = choose|j: int| 0 <= j < entries.len() && entries[j] == (q as usize, wanted);
    assert(entries[j].1.spec_le(event) && entries[j].0 == q as usize);
    assert(asked_for(
        entries_for(index, delta[m].0 as int),
        delta[m].1,
        entries_for(index, delta[m].0 as int).len() as int,
        q as usize,
    ));
}

/// Inclusion of domains, variable by variable, is transitive.
pub proof fn lemma_narrows_transitive(inner: Seq<Bounds>, middle: Seq<Bounds>, outer: Seq<Bounds>)
    requires
        narrows(inner, middle),
        narrows(middle, outer),
        domains_ok(middle),
    ensures
        narrows(inner, outer),
{
    assert forall|i: int| 0 <= i < inner.len() implies (#[trigger] inner[i]).subset_of(outer[i]) by {
        assert(middle[i].subset_of(outer[i]));
        assert(i32::MIN < middle[i].lb <= middle[i].ub);
    }
}

/// Whether `domains` is the greatest fixpoint of the propagators within `start`: a fixpoint
/// within `start` that includes every other one.
pub open spec fn greatest_fixpoint<P: Propagator>(
    props: Seq<P>,
    start: Seq<Bounds>,
    domains: Seq<Bounds>,
) -> bool {
    &&& narrows(domains, start)
    &&& common_fixpoint(props, domains)
    &&& forall|e: Seq<Bounds>|
        narrows(e, start) && #[trigger] common_fixpoint(props, e) ==> narrows(e, domains)
}

/// Confluence: the propagators have at most one greatest fixpoint within given domains, so
/// two runs that reach it, in whatever order, end with the same domains.
pub proof fn lemma_confluence<P: Propagator>(
    props: Seq<P>,
    start: Seq<Bounds>,
    first: Seq<Bounds>,
    second: Seq<Bounds>,
)
    requires
        greatest_fixpoint(props, start, first),
        greatest_fixpoint(props, start, second),
    ensures
        first == second,
{
    assert(narrows(first, second));
    assert(narrows(second, first));
    assert forall|i: int| 0 <= i < first.len() implies first[i] == second[i] by {
        assert(first[i].subset_of(second[i]));
        assert(second[i].subset_of(first[i]));
        assert(i32::MIN < first[i].lb <= first[i].ub);
        assert(i32::MIN < second[i].lb <= second[i].ub);
    }
    assert(first =~= second);
}

/// The propagators of a problem, with the index of what each of them watches.
pub struct Store<P> {
    propagators: Vec<P>,
    deps: IndexedDeps,
}

impl<P: Propagator> Store<P> {
    /// The registered propagators, in the order of registration.
    pub closed spec fn propagators(&self) -> Seq<P> {
        self.propagators@
    }

    /// The dependency index: for each variable, the propagators that watch it.
    pub closed spec fn index(&self) -> Seq<Seq<(usize, FDEvent)>> {
        self.deps@
    }

    /// The invariant of the store: the index agrees with the propagators.
    pub open spec fn wf(&self) -> bool {
        indexed(self.propagators(), self.index())
    }

    /// A store without propagators.
    pub fn new() -> (store: Store<P>)
        ensures
            store.wf(),
            store.propagators() == Seq::<P>::empty(),
    {
        Store { propagators: Vec::new(), deps: IndexedDeps::new() }
    }

    /// The number of propagators.
    pub fn size(&self) -> (n: usize)
        ensures
            n == self.propagators().len(),
    {
        self.propagators.len()
    }

    /// Registers a propagator: indexes its dependencies and returns its identifier, the number
    /// of propagators registered before it.
    pub fn register(&mut self, p: P) -> (idx: usize)
        requires
            old(self).wf(),
            forall|k: int| 0 <= k < p.watched().len() ==> (#[trigger] p.watched()[k]).0 < usize::MAX,
        ensures
            final(self).wf(),
            idx == old(self).propagators().len(),
            final(self).propagators() == old(self).propagators().push(p),
    {
        let idx = self.propagators.len();
        let deps = p.dependencies();
        let mut k: usize = 0;
        while k < deps.len()
            invariant
                k <= deps.len(),
                deps@ == p.watched(),
                idx == old(self).propagators().len(),
                self.propagators@ == old(self).propagators@,
                forall|j: int| 0 <= j < p.watched().len() ==> (#[trigger] p.watched()[j]).0 < usize::MAX,
                forall|v: int, entry: (usize, FDEvent)| #[trigger]
                    entries_for(old(self).index(), v).contains(entry) ==> entries_for(
                        self.index(),
                        v,
                    ).contains(entry),
                forall|v: int, entry: (usize, FDEvent)| #[trigger]
                    entries_for(self.index(), v).contains(entry) ==> entry.0 <= idx,
                forall|j: int|
                    0 <= j < k ==> entries_for(self.index(), (#[trigger] deps@[j]).0 as int).contains(
                        (idx, deps@[j].1),
                    ),
            decreases deps.len() - k,
        {
            let (var, event) = deps[k];
            assert(deps@[k as int] == p.watched()[k as int]);
            proof {
                lemma_subscribed(self.index(), var, event, idx);
            }
            self.deps.subscribe(var, event, idx);
            k = k + 1;
        }
        let ghost indexed_before = self.index();
        self.propagators.push(p);
        proof {
            let props = self.propagators();
            let index = self.index();
            assert(index == indexed_before);
            assert forall|i: int, j: int|
                0 <= i < props.len() && 0 <= j < props[i].watched().len() implies entries_for(
                index,
                (#[trigger] props[i].watched()[j]).0 as int,
            ).contains((i as usize, props[i].watched()[j].1)) by {
                if i < idx {
                    assert(props[i] == old(self).propagators()[i]);
                    assert(entries_for(
                        old(self).index(),
                        old(self).propagators()[i].watched()[j].0 as int,
                    ).contains((i as usize, old(self).propagators()[i].watched()[j].1)));
                } else {
                    assert(props[i] == p);
                    assert(deps@[j] == p.watched()[j]);
                }
            }
            assert forall|v: int, entry: (usize, FDEvent)| #[trigger]
                entries_for(index, v).contains(entry) implies entry.0 < props.len() by {
                assert(entry.0 <= idx);
            }
        }
        idx
    }

    /// Runs the propagators until none of them can narrow a domain further, or until one of
    /// them fails.
    ///
    /// Every propagator is scheduled once; the changes that were pending in `vstore` are
    /// consumed, since all propagators run anyway. While propagators wait, the one that has
    /// waited longest runs, and those that its changes wake up are scheduled behind the
    /// others. A propagator whose constraint has become entailed is not scheduled again.
    ///
    /// The result is `False` where a propagator failed: the domains that the run started from
    /// then hold no fixpoint of all the propagators, and no solution. Otherwise the run ends
    /// idle, at the greatest fixpoint within the domains it started from, whatever the order
    /// in which the propagators ran; the result is `True` where that fixpoint entails every
    /// constraint, and `Unknown` where it does not. No solution is lost on the way.
    pub fn consistency(&mut self, vstore: &mut DeltaStore) -> (result: Trilean)
        requires
            old(self).wf(),
            old(vstore).wf(),
            all_valid(old(self).propagators(), old(vstore).len()),
        ensures
            final(self).wf(),
            final(self).propagators() == old(self).propagators(),
            final(self).index() == old(self).index(),
            final(vstore).wf(),
            narrows(final(vstore).domains(), old(vstore).domains()),
            forall|a: Seq<int>|
                within(a, old(vstore).domains()) && #[trigger] solution(old(self).propagators(), a)
                    ==> result != Trilean::False && within(a, final(vstore).domains()),
            result != Trilean::False ==> greatest_fixpoint(
                old(self).propagators(),
                old(vstore).domains(),
                final(vstore).domains(),
            ),
            result == Trilean::False ==> forall|e: Seq<Bounds>|
                narrows(e, old(vstore).domains()) ==> !#[trigger] common_fixpoint(
                    old(self).propagators(),
                    e,
                ),
            result != Trilean::False ==> final(vstore).baseline() == final(vstore).domains(),
            result == Trilean::True <==> result != Trilean::False && all_entailed(
                old(self).propagators(),
                final(vstore).domains(),
            ),
            result == Trilean::False ==> exists|i: int|
                0 <= i < old(self).propagators().len() && (#[trigger] old(
                    self,
                ).propagators()[i]).status(final(vstore).domains()) == Trilean::False,
    {
        let n = self.propagators.len();
        let ghost props = self.propagators@;
        let ghost index = self.deps@;
        let ghost d0 = vstore.domains();
        proof {
            vstore.lemma_domains_ok();
        }
        let _ = vstore.consume_delta();
        let mut scheduler = RelaxedFifo::new(n);
        let mut entailed: Vec<bool> = Vec::new();
        let mut i: usize = 0;
        while i < n
            invariant
                i <= n,
                scheduler.wf(),
                scheduler.capacity() == n,
                entailed@.len() == i,
                forall|k: int| 0 <= k < i ==> !entailed@[k],
                forall|k: usize| k < i ==> #[trigger] scheduler@.contains(k),
            decreases n - i,
        {
            let ghost before = scheduler@;
            scheduler.schedule(i);
            entailed.push(false);
            assert forall|k: usize| k < i + 1 implies #[trigger] scheduler@.contains(k) by {
                if k < i {
                    assert(before.contains(k));
                    let w = choose|w: int| 0 <= w < before.len() && before[w] == k;
                    assert(scheduler@[w] == k);
                } else if !before.contains(i) {
                    assert(scheduler@[before.len() as int] == i);
                }
            }
            i = i + 1;
        }
        while !scheduler.is_empty()
            invariant
                props == old(self).propagators(),
                index == old(self).index(),
                d0 == old(vstore).domains(),
                n == props.len(),
                self.propagators@ == props,
                self.deps@ == index,
                indexed(props, index),
                all_valid(props, d0.len()),
                domains_ok(d0),
                vstore.wf(),
                vstore.len() == d0.len(),
                vstore.baseline() == vstore.domains(),
                narrows(vstore.domains(), d0),
                scheduler.wf(),
                scheduler.capacity() == n,
                entailed@.len() == n,
                forall|j: int|
                    0 <= j < n && entailed@[j] ==> (#[trigger] props[j]).status(vstore.domains())
                        == Trilean::True,
                forall|j: int|
                    0 <= j < n && !scheduler@.contains(j as usize) && !entailed@[j] ==> at_rest(
                        #[trigger] props[j],
                        vstore.domains(),
                    ),
                forall|a: Seq<int>|
                    within(a, d0) && #[trigger] solution(props, a) ==> within(a, vstore.domains()),
                forall|e: Seq<Bounds>|
                    narrows(e, d0) && #[trigger] common_fixpoint(props, e) ==> narrows(
                        e,
                        vstore.domains(),
                    ),
            decreases total_size(vstore.domains()), scheduler@.len(),
        {
            let ghost d = vstore.domains();
            let ghost queue = scheduler@;
            let ghost flagged = entailed@;
            proof {
                vstore.lemma_domains_ok();
            }
            let idx = scheduler.pop().unwrap();
            let ghost queue1 = scheduler@;
            let ghost p = props[idx as int];
            assert(queue.contains(idx));
            let ok = self.propagators[idx].propagate(vstore);
            let ghost d1 = vstore.domains();
            let ghost pending1 = vstore.pending();
            proof {
                assert(self.propagators@ =~= props);
                p.lemma_contracting(d);
                p.lemma_failure(d);
                p.lemma_idempotent(d);
                lemma_narrows_transitive(d1, d, d0);
                assert forall|e: Seq<Bounds>|
                    narrows(e, d0) && #[trigger] common_fixpoint(props, e) implies p.succeeds(d)
                    && narrows(e, d1) by {
                    assert(at_rest(props[idx as int], e));
                    p.lemma_keeps_fixpoints(e, d);
                }
                assert forall|a: Seq<int>|
                    within(a, d0) && #[trigger] solution(props, a) implies p.succeeds(d) && within(
                    a,
                    d1,
                ) by {
                    assert(props[idx as int].holds(a));
                    p.lemma_sound(d, a);
                }
            }
            if !ok {
                return Trilean::False;
            }
            let status = self.propagators[idx].is_subsumed(vstore);
            assert(status == p.status(d1));
            if status.is_false() {
                return Trilean::False;
            }
            if status.is_true() {
                entailed.set(idx, true);
            }
            let delta = vstore.consume_delta();
            self.wake(&delta, &entailed, &mut scheduler);
            proof {
                assert(vstore.domains() == d1);
                assert forall|j: int| 0 <= j < n && entailed@[j] implies (#[trigger] props[j]).status(
                    d1,
                ) == Trilean::True by {
                    if j != idx || flagged[j] {
                        assert(props[j].status(d) == Trilean::True);
                        props[j].lemma_status_monotonic(d, d1);
                    }
                }
                assert forall|j: int|
                    0 <= j < n && !scheduler@.contains(j as usize) && !entailed@[j] implies at_rest(
                    #[trigger] props[j],
                    d1,
                ) by {
                    if j != idx {
                        if queue.contains(j as usize) {
                            let w = choose|w: int| 0 <= w < queue.len() && queue[w] == j as usize;
                            assert(queue1[w - 1] == j as usize);
                            assert(queue1.contains(j as usize));
                        }
                        assert(!flagged[j]);
                        assert(at_rest(props[j], d));
                        if !quiet_for(props[j].watched(), d, d1) {
                            assert forall|v: int| 0 <= v < pending1.len() implies #[trigger] pending1[v]
                                == FDEvent::of_narrowing(d[v], d1[v]) by {
                                assert(d1[v].subset_of(d[v]));
                            }
                            lemma_woken(props, index, j, d, d1, pending1);
                            assert(self.index() == index);
                            assert(scheduler@.contains(j as usize));
                        }
                        props[j].lemma_asleep(d, d1);
                    }
                }
                if d1 == d {
                    assert forall|v: int| 0 <= v < pending1.len() implies pending1[v]
                        == FDEvent::NoChange by {
                        assert(d1[v].subset_of(d[v]));
                        assert(i32::MIN < d[v].lb <= d[v].ub);
                    }
                    lemma_delta_of_no_change(pending1, pending1.len() as int);
                    assert(scheduler@ == queue1);
                } else {
                    lemma_total_size_narrows(d1, d);
                }
            }
        }
        let mut all_true = true;
        let mut k: usize = 0;
        proof {
            vstore.lemma_domains_ok();
            assert forall|j: int| 0 <= j < n implies at_rest(#[trigger] props[j], vstore.domains()) by {
                if entailed@[j] {
                    props[j].lemma_entailed(vstore.domains());
                } else {
                    assert(!scheduler@.contains(j as usize));
                }
            }
        }
        while k < n
            invariant
                k <= n,
                n == props.len(),
                self.propagators@ == props,
                vstore.wf(),
                all_valid(props, vstore.len()),
                all_true <==> forall|j: int|
                    0 <= j < k ==> (#[trigger] props[j]).status(vstore.domains()) == Trilean::True,
            decreases n - k,
        {
            let status = self.propagators[k].is_subsumed(vstore);
            if !status.is_true() {
                all_true = false;
            }
            k = k + 1;
        }
        if all_true {
            Trilean::True
        } else {
            Trilean::Unknown
        }
    }

    /// Schedules the propagators that the changes of `delta` wake up, and no others: for each
    /// change, those that subscribed to its variable for an event at most as strong, unless
    /// they are entailed.
    fn wake(&self, delta: &Vec<(usize, FDEvent)>, entailed: &Vec<bool>, scheduler: &mut RelaxedFifo)
        requires
            self.wf(),
            old(scheduler).wf(),
            old(scheduler).capacity() == self.propagators().len(),
            entailed@.len() == self.propagators().len(),
        ensures
            final(scheduler).wf(),
            final(scheduler).capacity() == old(scheduler).capacity(),
            delta@.len() == 0 ==> final(scheduler)@ == old(scheduler)@,
            forall|q: usize| #[trigger]
                final(scheduler)@.contains(q) <==> old(scheduler)@.contains(q) || (woken_by(
                    self.index(),
                    delta@,
                    delta@.len() as int,
                    q,
                ) && !entailed@[q as int]),
    {
        let ghost index = self.index();
        let mut m: usize = 0;
        while m < delta.len()
            invariant
                m <= delta.len(),
                self.wf(),
                index == self.index(),
                scheduler.wf(),
                scheduler.capacity() == self.propagators().len(),
                entailed@.len() == self.propagators().len(),
                m == 0 ==> scheduler@ == old(scheduler)@,
                forall|q: usize| #[trigger]
                    scheduler@.contains(q) <==> old(scheduler)@.contains(q) || (woken_by(
                        index,
                        delta@,
                        m as int,
                        q,
                    ) && !entailed@[q as int]),
            decreases delta.len() - m,
        {
            let (var, event) = delta[m];
            let woken = self.deps.react(var, event);
            let ghost entries = entries_for(index, var as int);
            let ghost at_entry = scheduler@;
            proof {
                lemma_reactions(entries, event, entries.len() as int);
            }
            let mut j: usize = 0;
            while j < woken.len()
                invariant
                    j <= woken.len(),
                    self.wf(),
                    index == self.index(),
                    scheduler.wf(),
                    scheduler.capacity() == self.propagators().len(),
                    entailed@.len() == self.propagators().len(),
                    entries == entries_for(index, var as int),
                    forall|q: usize| #[trigger]
                        woken@.contains(q) <==> asked_for(entries, event, entries.len() as int, q),
                    forall|q: usize| #[trigger]
                        scheduler@.contains(q) <==> at_entry.contains(q) || (woken@.subrange(
                            0,
                            j as int,
                        ).contains(q) && !entailed@[q as int]),
                decreases woken.len() - j,
            {
                let q = woken[j];
                let ghost before = scheduler@;
                proof {
                    assert(woken@.contains(q));
                    let w = choose|w: int|
                        0 <= w < entries.len() && (#[trigger] entries[w]).1.spec_le(event)
                            && entries[w].0 == q;
                    assert(entries.contains(entries[w]));
                }
                if !entailed[q] {
                    scheduler.schedule(q);
                }
                proof {
                    let seen = woken@.subrange(0, j as int);
                    let seen_now = woken@.subrange(0, j + 1);
                    assert(seen_now =~= seen.push(q));
                    assert forall|other: usize| #[trigger]
                        scheduler@.contains(other) <==> at_entry.contains(other) || (
                        seen_now.contains(other) && !entailed@[other as int]) by {
                        lemma_contains_push(seen, q, other);
                        if !entailed@[q as int] && !before.contains(q) {
                            lemma_contains_push(before, q, other);
                        }
                    }
                }
                j = j + 1;
            }
            proof {
                assert(woken@.subrange(0, woken@.len() as int) =~= woken@);
                assert forall|q: usize| #[trigger]
                    scheduler@.contains(q) <==> old(scheduler)@.contains(q) || (woken_by(
                    index,
                    delta@,
                    m + 1,
                    q,
                ) && !entailed@[q as int]) by {
                    let here = asked_for(entries, event, entries.len() as int, q);
                    assert(woken@.contains(q) <==> here);
                    if woken_by(index, delta@, m + 1, q) && !woken_by(index, delta@, m as int, q) {
                        let k = choose|k: int|
                            0 <= k < m + 1 && #[trigger] asked_for(
                                entries_for(index, delta@[k].0 as int),
                                delta@[k].1,
                                entries_for(index, delta@[k].0 as int).len() as int,
                                q,
                            );
                        assert(k == m);
                    }
                    if here {
                        assert(asked_for(
                            entries_for(index, delta@[m as int].0 as int),
                            delta@[m as int].1,
                            entries_for(index, delta@[m as int].0 as int).len() as int,
                            q,
                        ));
                    }
                }
            }
            m = m + 1;
        }
    }
}

} // verus!
