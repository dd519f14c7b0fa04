//! Verified teaching collection of classic data structures: a singly linked
//! list with indexed insertion and deletion, a LIFO stack, and an in-place
//! bubble sort over integer vectors.

pub mod bubble;
pub mod ds;
pub mod linked_list;
pub mod stack;
