//! A singly linked list with insert-at-front, indexed insertion and
//! deletion, indexed reads, and a length query.
//!
//! The list is modelled by the sequence of its values, front first.
//! Position 0 is always the value most recently inserted at the front,
//! consistent with `insert`'s prepend semantics.

use vstd::prelude::*;

use crate::ds::{chain_view, DSError, Node};

verus! {

/// A singly linked list that owns its chain of nodes and tracks its length.
pub struct List<T> {
    pub head: Option<Box<Node<T>>>,
    pub length: usize,
}

impl<T> View for List<T> {
    type V = Seq<T>;

    /// The values of the list, front first.
    open spec fn view(&self) -> Seq<T> {
        chain_view(self.head)
    }
}

impl<T> List<T> {
    /// The stored length agrees with the number of nodes in the chain.
    pub open spec fn well_formed(&self) -> bool {
        self.length as nat == self@.len()
    }
}

/// Prepending a value in front of a chain shifts an insertion one
/// position to the right.
proof fn lemma_prepend_insert<T>(v: T, s: Seq<T>, i: int, x: T)
    requires
        1 <= i <= s.len() + 1,
    ensures
        (seq![v] + s).insert(i, x) == seq![v] + s.insert(i - 1, x),
{
    assert((seq![v] + s).insert(i, x) =~= seq![v] + s.insert(i - 1, x));
}

/// Prepending a value in front of a chain shifts a removal one
/// position to the right.
proof fn lemma_prepend_remove<T>(v: T, s: Seq<T>, i: int)
    requires
        1 <= i <= s.len(),
    ensures
        (seq![v] + s).remove(i) == seq![v] + s.remove(i - 1),
{
    assert((seq![v] + s).remove(i) =~= seq![v] + s.remove(i - 1));
}

/// Links a fresh node holding `value` into the chain so that it becomes
/// the value at position `index`.
fn insert_opt<T>(node: &mut Option<Box<Node<T>>>, value: T, index: usize)
    requires
        index as nat <= chain_view(*old(node)).len(),
    ensures
        chain_view(*final(node)) == chain_view(*old(node)).insert(index as int, value),
    decreases index,
{
    if index == 0 {
        let rest = node.take();
        let mut fresh = Box::new(Node::new(value));
        fresh.next = rest;
        *node = Some(fresh);
        proof {
            assert(chain_view(*final(node)) =~= chain_view(*old(node)).insert(0, value));
        }
    } else {
        let mut boxed = node.take().unwrap();
        let ghost front = boxed.value;
        let ghost rest = chain_view(boxed.next);
        insert_opt(&mut boxed.next, value, index - 1);
        *node = Some(boxed);
        proof {
            lemma_prepend_insert(front, rest, index as int, value);
        }
    }
}

/// Unlinks the node at position `index` and returns its value,
/// re-linking its predecessor to its successor.
fn remove_opt<T>(node: &mut Option<Box<Node<T>>>, index: usize) -> (r: T)
    requires
        (index as nat) < chain_view(*old(node)).len(),
    ensures
        r == chain_view(*old(node))[index as int],
        chain_view(*final(node)) == chain_view(*old(node)).remove(index as int),
    decreases index,
{
    let mut boxed = node.take().unwrap();
    if index == 0 {
        *node = boxed.next;
        proof {
            assert(chain_view(*final(node)) =~= chain_view(*old(node)).remove(0));
        }
        boxed.value
    } else {
        let ghost front = boxed.value;
        let ghost rest = chain_view(boxed.next);
        let r = remove_opt(&mut boxed.next, index - 1);
        *node = Some(boxed);
        proof {
            lemma_prepend_remove(front, rest, index as int);
        }
        r
    }
}

/// Reads the value at position `index` without changing the chain.
fn get_opt<T: Copy>(node: &Option<Box<Node<T>>>, index: usize) -> (r: T)
    requires
        (index as nat) < chain_view(*node).len(),
    ensures
        r == chain_view(*node)[index as int],
    decreases index,
{
    let boxed = node.as_ref().unwrap();
    if index == 0 {
        boxed.value
    } else {
        get_opt(&boxed.next, index - 1)
    }
}

impl<T: Copy> List<T> {
    /// An empty list: no head node, length 0.
    pub fn new() -> (r: Self)
        ensures
            r.well_formed(),
            r@ == Seq::<T>::empty(),
    {
        List { head: None, length: 0 }
    }

    /// Prepends `value` as the new front of the list. Always succeeds.
    pub fn insert(&mut self, value: T)
        requires
            old(self).well_formed(),
            old(self).length < usize::MAX,
        ensures
            final(self).well_formed(),
            final(self)@ == seq![value] + old(self)@,
    {
        let head = self.head.take();
        let mut node = Box::new(Node::new(value));
        node.next = head;
        self.head = Some(node);
        self.length = self.length + 1;
    }

    /// Inserts `value` so that it becomes the element at position `index`;
    /// inserting at `len()` appends after the last element. Positions
    /// beyond the length are rejected with `IndexOutOfRange` and leave the
    /// list unchanged.
    pub fn insert_at(&mut self, value: T, index: usize) -> (r: Result<(), DSError>)
        requires
            old(self).well_formed(),
            old(self).length < usize::MAX,
        ensures
            final(self).well_formed(),
            index as nat <= old(self)@.len() ==> r == Ok::<(), DSError>(()) && final(self)@
                == old(self)@.insert(index as int, value),
            index as nat > old(self)@.len() ==> r == Err::<(), DSError>(DSError::IndexOutOfRange)
                && *final(self) == *old(self),
    {
        if index > self.length {
            return Err(DSError::IndexOutOfRange);
        }
        insert_opt(&mut self.head, value, index);
        self.length = self.length + 1;
        Ok(())
    }

    /// Removes and returns the front value, or `EmptyCollection` if the
    /// list holds nothing.
    pub fn delete(&mut self) -> (r: Result<T, DSError>)
        requires
            old(self).well_formed(),
        ensures
            final(self).well_formed(),
            old(self)@.len() > 0 ==> r == Ok::<T, DSError>(old(self)@[0]) && final(self)@
                == old(self)@.drop_first(),
            old(self)@.len() == 0 ==> r == Err::<T, DSError>(DSError::EmptyCollection)
                && *final(self) == *old(self),
    {
        match self.head.take() {
            None => Err(DSError::EmptyCollection),
            Some(boxed) => {
                self.head = boxed.next;
                self.length = self.length - 1;
                proof {
                    assert(final(self)@ =~= old(self)@.drop_first());
                }
                Ok(boxed.value)
            },
        }
    }

    /// Removes and returns the value at position `index`. Positions at or
    /// beyond the length are rejected with `IndexOutOfRange` and leave the
    /// list unchanged.
    pub fn delete_at(&mut self, index: usize) -> (r: Result<T, DSError>)
        requires
            old(self).well_formed(),
        ensures
            final(self).well_formed(),
            (index as nat) < old(self)@.len() ==> r == Ok::<T, DSError>(
                old(self)@[index as int],
            ) && final(self)@ == old(self)@.remove(index as int),
            index as nat >= old(self)@.len() ==> r == Err::<T, DSError>(DSError::IndexOutOfRange)
                && *final(self) == *old(self),
    {
        if self.length == 0 || index > self.length - 1 {
            return Err(DSError::IndexOutOfRange);
        }
        let value = remove_opt(&mut self.head, index);
        self.length = self.length - 1;
        Ok(value)
    }

    /// Returns the value at position `index` without removing it, or
    /// `None` if the position is out of range or the list is empty.
    /// The list itself is left exactly as it was.
    pub fn get(&mut self, index: usize) -> (r: Option<T>)
        requires
            old(self).well_formed(),
        ensures
            *final(self) == *old(self),
            (index as nat) < old(self)@.len() ==> r == Some(old(self)@[index as int]),
            index as nat >= old(self)@.len() ==> r == None::<T>,
    {
        if self.length == 0 || index > self.length - 1 {
            return None;
        }
        Some(get_opt(&self.head, index))
    }

    /// The number of values held by the list.
    pub fn len(&self) -> (r: usize)
        ensures
            r == self.length,
            self.well_formed() ==> r as nat == self@.len(),
    {
        self.length
    }
}

/// Inserting at a valid position `i` grows the contents by exactly one:
/// the new value sits at position `i`, values before it keep their
/// positions, and values from `i` on shift one position to the right.
pub proof fn lemma_insert_at_effect<T>(s: Seq<T>, v: T, i: int)
    requires
        0 <= i <= s.len(),
    ensures
        s.insert(i, v).len() == s.len() + 1,
        s.insert(i, v)[i] == v,
        forall|k: int| 0 <= k < i ==> s.insert(i, v)[k] == s[k],
        forall|k: int| i < k <= s.len() ==> s.insert(i, v)[k] == s[k - 1],
{
}

/// Deleting at a valid position `i` shrinks the contents by exactly one
/// and takes out exactly the value at position `i`: values before it keep
/// their positions, values after it shift one position to the left, and
/// the multiset of stored values loses one occurrence of that value.
pub proof fn lemma_delete_at_effect<T>(s: Seq<T>, i: int)
    requires
        0 <= i < s.len(),
    ensures
        s.remove(i).len() == s.len() - 1,
        forall|k: int| 0 <= k < i ==> s.remove(i)[k] == s[k],
        forall|k: int| i <= k < s.len() - 1 ==> s.remove(i)[k] == s[k + 1],
        s.remove(i).to_multiset() == s.to_multiset().remove(s[i]),
{
    broadcast use vstd::seq_lib::group_to_multiset_ensures;

}

} // verus!
