//! The dependency index: for each variable, the propagators that watch it.

use crate::propagation::events::FDEvent;
use vstd::prelude::*;

verus! {

/// The index with a list for each of the first `n` variables: the lists it had, and empty
/// lists for the variables it did not reach.
pub open spec fn padded_to(
    index: Seq<Seq<(usize, FDEvent)>>,
    n: nat,
) -> Seq<Seq<(usize, FDEvent)>> {
    if index.len() >= n {
        index
    } else {
        index + Seq::new((n - index.len()) as nat, |v: int| Seq::<(usize, FDEvent)>::empty())
    }
}

/// The index after the propagator `prop` has subscribed to the events on `var` that are at
/// least as strong as `event`.
pub open spec fn subscribed(
    index: Seq<Seq<(usize, FDEvent)>>,
    var: usize,
    event: FDEvent,
    prop: usize,
) -> Seq<Seq<(usize, FDEvent)>> {
    let padded = padded_to(index, (var + 1) as nat);
    padded.update(var as int, padded[var as int].push((prop, event)))
}

/// The entries of the index for the variable `var`; none where the index does not reach it.
pub open spec fn entries_for(index: Seq<Seq<(usize, FDEvent)>>, var: int) -> Seq<(usize, FDEvent)> {
    if 0 <= var < index.len() {
        index[var]
    } else {
        Seq::empty()
    }
}

/// Among the first `n` entries, in their order, the propagators that asked for an event at
/// most as strong as `event`.
pub open spec fn reactions(entries: Seq<(usize, FDEvent)>, event: FDEvent, n: int) -> Seq<usize>
    decreases n,
{
    if n <= 0 {
        Seq::empty()
    } else if entries[n - 1].1.spec_le(event) {
        reactions(entries, event, n - 1).push(entries[n - 1].0)
    } else {
        reactions(entries, event, n - 1)
    }
}

/// Whether, among the first `n` entries, the propagator `prop` asked for an event at most as
/// strong as `event`.
pub open spec fn asked_for(
    entries: Seq<(usize, FDEvent)>,
    event: FDEvent,
    n: int,
    prop: usize,
) -> bool {
    exists|j: int| 0 <= j < n && (#[trigger] entries[j]).1.spec_le(event) && entries[j].0 == prop
}

/// The reactions to an event are exactly the propagators that asked for an event at most as
/// strong.
pub proof fn lemma_reactions(entries: Seq<(usize, FDEvent)>, event: FDEvent, n: int)
    requires
        0 <= n <= entries.len(),
    ensures
        forall|prop: usize| #[trigger]
            reactions(entries, event, n).contains(prop) <==> asked_for(entries, event, n, prop),
    decreases n,
{
    if n > 0 {
        lemma_reactions(entries, event, n - 1);
        let before = reactions(entries, event, n - 1);
        let now = reactions(entries, event, n);
        assert forall|prop: usize| #[trigger] now.contains(prop) <==> asked_for(
            entries,
            event,
            n,
            prop,
        ) by {
            if now.contains(prop) {
                let i = choose|i: int| 0 <= i < now.len() && now[i] == prop;
                if i < before.len() {
                    assert(before.contains(prop));
                }
            }
            if asked_for(entries, event, n, prop) {
                let j = choose|j: int|
                    0 <= j < n && (#[trigger] entries[j]).1.spec_le(event) && entries[j].0 == prop;
                if j < n - 1 {
                    assert(before.contains(prop));
                    let i = choose|i: int| 0 <= i < before.len() && before[i] == prop;
                    assert(now[i] == prop);
                } else {
                    assert(now[now.len() - 1] == prop);
                }
            }
        }
    }
}

/// A subscription adds one entry to the list of its variable and leaves every other entry
/// where it was.
pub proof fn lemma_subscribed(
    index: Seq<Seq<(usize, FDEvent)>>,
    var: usize,
    event: FDEvent,
    prop: usize,
)
    requires
        var < usize::MAX,
    ensures
        entries_for(subscribed(index, var, event, prop), var as int).contains((prop, event)),
        forall|v: int, entry: (usize, FDEvent)| #[trigger]
            entries_for(index, v).contains(entry) ==> entries_for(
                subscribed(index, var, event, prop),
                v,
            ).contains(entry),
        forall|v: int, entry: (usize, FDEvent)| #[trigger]
            entries_for(subscribed(index, var, event, prop), v).contains(entry)
                ==> entries_for(index, v).contains(entry) || (v == var && entry == (prop, event)),
{
    let after = subscribed(index, var, event, prop);
    assert(after[var as int][after[var as int].len() - 1] == (prop, event));
    assert forall|v: int, entry: (usize, FDEvent)| #[trigger]
        entries_for(index, v).contains(entry) implies entries_for(after, v).contains(entry) by {
        let j = choose|j: int|
            0 <= j < entries_for(index, v).len() && entries_for(index, v)[j] == entry;
        assert(entries_for(after, v)[j] == entry);
    }
}

/// For each variable, the propagators that watch it, each with the weakest event that it wants
/// to be woken up for, in the order of their subscriptions.
pub struct IndexedDeps {
    by_var: Vec<Vec<(usize, FDEvent)>>,
}

impl View for IndexedDeps {
    type V = Seq<Seq<(usize, FDEvent)>>;

    closed spec fn view(&self) -> Seq<Seq<(usize, FDEvent)>> {
        Seq::new(self.by_var@.len(), |v: int| self.by_var@[v]@)
    }
}

impl IndexedDeps {
    /// An index without subscriptions.
    pub fn new() -> (index: IndexedDeps)
        ensures
            index@ == Seq::<Seq<(usize, FDEvent)>>::empty(),
    {
        IndexedDeps { by_var: Vec::new() }
    }

    /// Subscribes the propagator `prop` to the events on `var` that are at least as strong as
    /// `event`.
    pub fn subscribe(&mut self, var: usize, event: FDEvent, prop: usize)
        requires
            var < usize::MAX,
        ensures
            final(self)@ == subscribed(old(self)@, var, event, prop),
    {
        while self.by_var.len() <= var
            invariant
                self.by_var@.len() >= old(self).by_var@.len(),
                self.by_var@.len() <= var + 1 || self.by_var@.len() == old(self).by_var@.len(),
                forall|v: int|
                    0 <= v < old(self).by_var@.len() ==> self.by_var@[v] == old(self).by_var@[v],
                forall|v: int|
                    old(self).by_var@.len() <= v < self.by_var@.len() ==> (
                    #[trigger] self.by_var@[v])@.len() == 0,
            decreases var + 1 - self.by_var.len(),
        {
            self.by_var.push(Vec::new());
        }
        self.by_var[var].push((prop, event));
        assert(self@ =~~= subscribed(old(self)@, var, event, prop));
    }

    /// The propagators to wake up for `event` on `var`: those that subscribed to `var` for an
    /// event at most as strong, in the order of their subscriptions.
    pub fn react(&self, var: usize, event: FDEvent) -> (woken: Vec<usize>)
        ensures
            woken@ == reactions(
                entries_for(self@, var as int),
                event,
                entries_for(self@, var as int).len() as int,
            ),
    {
        let mut woken: Vec<usize> = Vec::new();
        if var < self.by_var.len() {
            let entries = &self.by_var[var];
            let mut j: usize = 0;
            while j < entries.len()
                invariant
                    j <= entries.len(),
                    entries@ == entries_for(self@, var as int),
                    woken@ == reactions(entries@, event, j as int),
                decreases entries.len() - j,
            {
                let (prop, min_event) = entries[j];
                if min_event.le(event) {
                    woken.push(prop);
                }
                j = j + 1;
            }
        }
        woken
    }
}

} // verus!
