//! The memory of a variable store: a mutable vector of domains that can be frozen into an
//! immutable, shareable snapshot and restored from it.

use crate::domain::interval_text;
use crate::domain::interval_to_string;
use crate::domain::within_limits;
use interval::Interval;
use std::rc::Rc;
use vstd::prelude::*;

verus! {

/// A mutable store of domains, one per variable, in the order of allocation.
#[derive(Clone)]
pub struct CopyStore<Domain> {
    variables: Vec<Domain>,
}

impl<Domain> View for CopyStore<Domain> {
    type V = Seq<Domain>;

    closed spec fn view(&self) -> Seq<Domain> {
        self.variables@
    }
}

impl<Domain> CopyStore<Domain> {
    pub(crate) fn restore(variables: Vec<Domain>) -> (store: CopyStore<Domain>)
        ensures
            store@ == variables@,
    {
        CopyStore { variables: variables }
    }

    /// A store without variables.
    pub fn empty() -> (store: CopyStore<Domain>)
        ensures
            store@ == Seq::<Domain>::empty(),
    {
        CopyStore { variables: Vec::new() }
    }

    /// The number of variables.
    pub fn size(&self) -> (n: usize)
        ensures
            n == self@.len(),
    {
        self.variables.len()
    }

    /// Adds a variable with the domain `value` behind the others.
    pub fn push(&mut self, value: Domain)
        ensures
            final(self)@ == old(self)@.push(value),
    {
        self.variables.push(value);
    }

    /// Gives the variable `key` the domain `dom` and hands back the domain it had.
    pub fn update(&mut self, key: usize, dom: Domain) -> (previous: Option<Domain>)
        requires
            key < old(self)@.len(),
        ensures
            final(self)@ == old(self)@.update(key as int, dom),
            previous == Some(old(self)@[key as int]),
    {
        let mut dom = dom;
        std::mem::swap(&mut dom, &mut self.variables[key]);
        Some(dom)
    }

    /// The domain of the variable `index`.
    pub fn index(&self, index: usize) -> (dom: &Domain)
        requires
            index < self@.len(),
        ensures
            *dom == self@[index as int],
    {
        &self.variables[index]
    }

    /// An iterator over the domains, in the order of the variables.
    pub fn iter<'a>(&'a self) -> (domains: std::slice::Iter<'a, Domain>)
        ensures
            vstd::std_specs::slice::into_iter_elts(domains) == self@,
    {
        self.variables.iter()
    }

    /// Turns the store into an immutable snapshot, without copying the domains.
    pub fn freeze(self) -> (frozen: ImmutableCopyStore<Domain>)
        ensures
            frozen@ == self@,
    {
        ImmutableCopyStore::new(self)
    }
}

/// The text of the first `n` domains: that of each domain, followed by a space.
pub open spec fn text_of(domains: Seq<Interval<i32>>, n: int) -> Seq<char>
    decreases n,
{
    if n <= 0 {
        Seq::empty()
    } else {
        text_of(domains, n - 1) + interval_text(domains[n - 1]) + seq![' ']
    }
}

/// `String::push_str`: appends `more` to the end of `text`.
#[verifier::external_body]
fn append(text: &mut String, more: &str)
    ensures
        final(text)@ == old(text)@ + more@,
{
    text.push_str(more)
}

impl CopyStore<Interval<i32>> {
    /// The store as text: each domain as the `interval` library writes it, followed by a
    /// space.
    pub fn to_text(&self) -> (text: String)
        requires
            forall|i: int| 0 <= i < self@.len() ==> within_limits(#[trigger] self@[i]),
        ensures
            text@ == text_of(self@, self@.len() as int),
    {
        let mut text = String::new();
        let mut i: usize = 0;
        while i < self.variables.len()
            invariant
                i <= self.variables.len(),
                forall|k: int| 0 <= k < self@.len() ==> within_limits(#[trigger] self@[k]),
                text@ == text_of(self@, i as int),
            decreases self.variables.len() - i,
        {
            let one = interval_to_string(&self.variables[i]);
            append(&mut text, one.as_str());
            append(&mut text, " ");
            proof {
                reveal_strlit(" ");
            }
            i = i + 1;
        }
        text
    }
}

/// An immutable snapshot of a store, shared by reference counting.
pub struct ImmutableCopyStore<Domain> {
    variables: Rc<Vec<Domain>>,
}

impl<Domain> View for ImmutableCopyStore<Domain> {
    type V = Seq<Domain>;

    closed spec fn view(&self) -> Seq<Domain> {
        self.variables@
    }
}

/// `Rc::clone`: another handle on the same shared value.
#[verifier::external_body]
fn share<T>(handle: &Rc<T>) -> (other: Rc<T>)
    ensures
        other == *handle,
{
    Rc::clone(handle)
}

/// A vector with the same elements as `source`.
fn copy_of<Domain: Copy>(source: &Vec<Domain>) -> (copy: Vec<Domain>)
    ensures
        copy@ == source@,
{
    let mut copy: Vec<Domain> = Vec::new();
    let mut i: usize = 0;
    while i < source.len()
        invariant
            i <= source.len(),
            copy@ == source@.subrange(0, i as int),
        decreases source.len() - i,
    {
        copy.push(source[i]);
        i = i + 1;
    }
    copy
}

impl<Domain> ImmutableCopyStore<Domain> {
    fn new(store: CopyStore<Domain>) -> (frozen: ImmutableCopyStore<Domain>)
        ensures
            frozen@ == store@,
    {
        ImmutableCopyStore { variables: Rc::new(store.variables) }
    }

    /// A label for the snapshot: a handle that shares its domains.
    pub fn label(&mut self) -> (label: Rc<Vec<Domain>>)
        ensures
            label@ == old(self)@,
            final(self)@ == old(self)@,
    {
        share(&self.variables)
    }

    /// A mutable store with the domains of `label`. Where nothing else holds the label, its
    /// storage becomes the store's; where it is shared, the store gets a copy and the label's
    /// other holders keep what they had.
    pub fn restore(self, label: Rc<Vec<Domain>>) -> (store: CopyStore<Domain>) where Domain: Copy
        ensures
            store@ == label@,
    {
        let variables = match Rc::try_unwrap(label) {
            Ok(owned) => owned,
            Err(shared) => copy_of(&*shared),
        };
        CopyStore::restore(variables)
    }
}

} // verus!
