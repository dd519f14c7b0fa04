//! A LIFO stack over a singly linked chain: push and pop at the front,
//! a length query, and a clear operation that releases the whole chain.
//!
//! The stack is modelled by the sequence of its values, top first.

use vstd::prelude::*;

use crate::ds::{chain_view, DSError, Node};

verus! {

/// A stack that owns its chain of nodes and tracks its length.
pub struct Stack<T> {
    pub head: Option<Box<Node<T>>>,
    pub length: usize,
}

impl<T> View for Stack<T> {
    type V = Seq<T>;

    /// The values of the stack, top first.
    open spec fn view(&self) -> Seq<T> {
        chain_view(self.head)
    }
}

impl<T> Stack<T> {
    /// The stored length agrees with the number of nodes in the chain.
    pub open spec fn well_formed(&self) -> bool {
        self.length as nat == self@.len()
    }

    /// An empty stack: no head node, length 0.
    pub fn new() -> (r: Self)
        ensures
            r.well_formed(),
            r@ == Seq::<T>::empty(),
    {
        Stack { head: None, length: 0 }
    }

    /// Pushes `value` on top of the stack. Always succeeds.
    pub fn push(&mut self, value: T)
        requires
            old(self).well_formed(),
            old(self).length < usize::MAX,
        ensures
            final(self).well_formed(),
            final(self)@ == seq![value] + old(self)@,
    {
        let head = self.head.take();
        let mut node = Node::new(value);
        node.next = head;
        self.head = Some(Box::new(node));
        self.length = self.length + 1;
    }

    /// Removes and returns the top value, or `EmptyCollection` if the
    /// stack holds nothing: the value pushed last comes off first.
    pub fn pop(&mut self) -> (r: Result<T, DSError>)
        requires
            old(self).well_formed(),
        ensures
            final(self).well_formed(),
            old(self)@.len() > 0 ==> r == Ok::<T, DSError>(old(self)@[0]) && final(self)@
                == old(self)@.drop_first(),
            old(self)@.len() == 0 ==> r == Err::<T, DSError>(DSError::EmptyCollection)
                && *final(self) == *old(self),
    {
        match self.head.take() {
            None => Err(DSError::EmptyCollection),
            Some(boxed) => {
                self.head = boxed.next;
                self.length = self.length - 1;
                proof {
                    assert(final(self)@ =~= old(self)@.drop_first());
                }
                Ok(boxed.value)
            },
        }
    }

    /// The number of values held by the stack.
    pub fn len(&self) -> (r: usize)
        ensures
            r == self.length,
            self.well_formed() ==> r as nat == self@.len(),
    {
        self.length
    }

    /// Releases the entire chain in one step and resets the stack to
    /// empty, length included.
    pub fn clear(&mut self)
        ensures
            final(self).well_formed(),
            final(self)@ == Seq::<T>::empty(),
            final(self).length == 0,
    {
        let _ = self.head.take();
        self.length = 0;
    }
}

} // verus!
