//! Branded capability cells, fractional shares of them, and a doubly linked
//! list built from both.
//!
//! A [`GhostToken`] is the one capability through which every
//! [`GhostCell`] of its brand is read or written. The brand is a lifetime
//! that is minted with the token, so that the compiler lets no token near a
//! cell of another brand; what the cells hold lives in the token's arena, so
//! that whoever holds the token exclusively holds every cell exclusively.
//! A [`StaticRc`] is a share of one cell whose fraction is part of its type,
//! and a [`GhostLinkedList`] links its nodes with half shares. A
//! [`GhostSea`] keeps a token and the structure under it together.
//!
//! What the compiler cannot tell is stated in contracts: that a cell is
//! live under the token it is used with, that two shares are of one cell,
//! and that a list is well formed under the token it is given.

pub mod deque;
pub mod ghost_cell;
pub mod ghost_linked_list;
pub mod ghost_sea;
pub mod static_rc;

pub use crate::deque::{End, Op};
pub use crate::ghost_cell::{GhostCell, GhostProject, GhostToken, Plain};
pub use crate::ghost_linked_list::{
    GhostLinkedList, GhostLinkedListIterator, ListToken, Node, NodeFamily,
};
pub use crate::ghost_sea::{GhostApplyMut, GhostApplyRef, GhostSea};
pub use crate::static_rc::StaticRc;
