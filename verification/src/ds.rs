//! Shared building blocks of the containers: the chain cell `Node`, the
//! error kinds, and the model of a container built by repeated prepending.

use vstd::prelude::*;

verus! {

/// A single cell of a singly linked chain: a stored value together with an
/// owning link to the next cell, or `None` if this is the last cell.
pub struct Node<T> {
    pub value: T,
    pub next: Option<Box<Node<T>>>,
}

/// The failure kinds of the fallible container operations.
///
/// `EmptyCollection` is returned by removals from an empty container;
/// `IndexOutOfRange` by indexed operations whose position is not within
/// the valid bounds.
#[derive(Debug, PartialEq, Eq)]
pub enum DSError {
    EmptyCollection,
    IndexOutOfRange,
}

/// The sequence of values stored in the chain that starts at `n`,
/// front value first.
pub open spec fn chain_view<T>(n: Option<Box<Node<T>>>) -> Seq<T>
    decreases n,
{
    match n {
        None => Seq::empty(),
        Some(node) => seq![node.value] + chain_view(node.next),
    }
}

impl<T> Node<T> {
    /// A fresh cell holding `value`, with no successor.
    pub fn new(value: T) -> (r: Self)
        ensures
            r.value == value,
            r.next is None,
    {
        Node { value, next: None }
    }
}

/// The contents of a container that started empty and had the values of
/// `vs` prepended one by one, in order: the value prepended last sits at
/// the front.
pub open spec fn prepend_all<T>(vs: Seq<T>) -> Seq<T>
    decreases vs.len(),
{
    if vs.len() == 0 {
        Seq::empty()
    } else {
        seq![vs.last()] + prepend_all(vs.drop_last())
    }
}

/// Prepending each value of `vs` in order yields the reverse of `vs`:
/// the container holds as many values as were prepended, position 0 holds
/// the value prepended last, and the highest position holds the first.
pub proof fn lemma_prepend_all_reverses<T>(vs: Seq<T>)
    ensures
        prepend_all(vs).len() == vs.len(),
        forall|i: int| 0 <= i < vs.len() ==> prepend_all(vs)[i] == vs[vs.len() - 1 - i],
        vs.len() > 0 ==> prepend_all(vs)[0] == vs.last(),
        vs.len() > 0 ==> prepend_all(vs)[vs.len() - 1] == vs[0],
    decreases vs.len(),
{
    if vs.len() > 0 {
        lemma_prepend_all_reverses(vs.drop_last());
    }
}

/// Removing from the front of a container built by prepending the values
/// of `vs` yields the value prepended last, and leaves the container built
/// by prepending all earlier values: removals come in LIFO order.
pub proof fn lemma_prepend_all_lifo<T>(vs: Seq<T>)
    requires
        vs.len() > 0,
    ensures
        prepend_all(vs)[0] == vs.last(),
        prepend_all(vs).drop_first() == prepend_all(vs.drop_last()),
{
    assert(prepend_all(vs) == seq![vs.last()] + prepend_all(vs.drop_last()));
    assert((seq![vs.last()] + prepend_all(vs.drop_last())).drop_first() =~= prepend_all(
        vs.drop_last(),
    ));
}

} // verus!
