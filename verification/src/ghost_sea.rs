//! A token and the structure that lives under it, kept together.

use crate::ghost_cell::{GhostProject, GhostToken};
use vstd::prelude::*;

verus! {

/// What `GhostSea::apply_ref` applies: a reader of a structure and its
/// token. What it returns may borrow from both.
pub trait GhostApplyRef<'a, 'id, F: for <'x>GhostProject<'x>, T>: Sized {
    /// What the reader returns.
    type Output;

    /// On which structure and token the reader may be called: on all of
    /// them, unless an implementation says otherwise.
    open spec fn call_pre(&self, ghost: &T, token: &GhostToken<'id, F>) -> bool {
        true
    }

    /// Whether `out` is what the reader may return on a structure and
    /// token: anything, unless an implementation says more.
    open spec fn call_post(
        &self,
        ghost: &T,
        token: &GhostToken<'id, F>,
        out: Self::Output,
    ) -> bool {
        true
    }

    /// Reads the structure through the token.
    fn call(self, ghost: &'a T, token: &'a GhostToken<'id, F>) -> (out: Self::Output)
        requires
            self.call_pre(ghost, token),
        ensures
            self.call_post(ghost, token, out),
    ;
}

/// What `GhostSea::apply_mut` applies: a writer of a structure and its
/// token. What it returns may borrow from both.
pub trait GhostApplyMut<'a, 'id, F: for <'x>GhostProject<'x>, T>: Sized {
    /// What the writer returns.
    type Output;

    /// On which structure and token the writer may be called: on all of
    /// them, unless an implementation says otherwise.
    open spec fn call_pre(&self, ghost: T, token: GhostToken<'id, F>) -> bool {
        true
    }

    /// Whether the writer, called on `ghost` and `token`, may return `out`
    /// and leave `ghost_after` and `token_after` behind: anything, unless
    /// an implementation says more.
    open spec fn call_post(
        &self,
        ghost: T,
        token: GhostToken<'id, F>,
        ghost_after: T,
        token_after: GhostToken<'id, F>,
        out: Self::Output,
    ) -> bool {
        true
    }

    /// Writes the structure through the token.
    fn call(self, ghost: &'a mut T, token: &'a mut GhostToken<'id, F>) -> (out: Self::Output)
        requires
            self.call_pre(*old(ghost), *old(token)),
        ensures
            self.call_post(*old(ghost), *old(token), *final(ghost), *final(token), out),
    ;
}

/// A token together with the structure that lives under it, so that a
/// caller hands one value around in place of two. It carries the brand of
/// its token, and so stays within the minting that made the token.
pub struct GhostSea<'id, F: for <'x>GhostProject<'x>, T> {
    token: GhostToken<'id, F>,
    value: T,
}

impl<'id, F: for <'x>GhostProject<'x>, T> GhostSea<'id, F, T> {
    /// The structure.
    pub closed spec fn value(&self) -> T {
        self.value
    }

    /// The token.
    pub closed spec fn token(&self) -> GhostToken<'id, F> {
        self.token
    }

    /// Puts a structure together with its token.
    pub fn new(value: T, token: GhostToken<'id, F>) -> (sea: Self)
        ensures
            sea.value() == value,
            sea.token() == token,
    {
        GhostSea { token, value }
    }

    /// Returns the structure and drops the token, and with it what the
    /// cells of the structure held.
    pub fn into_inner(self) -> (value: T)
        ensures
            value == self.value(),
    {
        self.value
    }

    /// Applies `fun` to the structure and the token, both shared.
    pub fn apply_ref<'a, G: GhostApplyRef<'a, 'id, F, T>>(&'a self, fun: G) -> (out: G::Output)
        requires
            fun.call_pre(&self.value(), &self.token()),
        ensures
            fun.call_post(&self.value(), &self.token(), out),
    {
        fun.call(&self.value, &self.token)
    }

    /// Applies `fun` to the structure and the token, both exclusive.
    pub fn apply_mut<'a, G: GhostApplyMut<'a, 'id, F, T>>(&'a mut self, fun: G) -> (out:
        G::Output)
        requires
            fun.call_pre(old(self).value(), old(self).token()),
        ensures
            fun.call_post(
                old(self).value(),
                old(self).token(),
                final(self).value(),
                final(self).token(),
                out,
            ),
    {
        fun.call(&mut self.value, &mut self.token)
    }

    /// Applies `fun` to the structure and the token, both owned.
    pub fn apply_once<R, C>(self, fun: C) -> (out: R) where
        C: FnOnce(T, GhostToken<'id, F>) -> R,

        requires
            fun.requires((self.value(), self.token())),
        ensures
            fun.ensures((self.value(), self.token()), out),
    {
        fun(self.value, self.token)
    }

    /// Applies `fun` to the structure and the token, both shared, and to
    /// another sea, which it takes over.
    pub fn combine_ref<'other, R, E: for <'x>GhostProject<'x>, O, C>(
        &self,
        other: GhostSea<'other, E, O>,
        fun: C,
    ) -> (out: R) where
        C: FnOnce(&T, GhostSea<'other, E, O>, &GhostToken<'id, F>) -> R,

        requires
            fun.requires((&self.value(), other, &self.token())),
        ensures
            fun.ensures((&self.value(), other, &self.token()), out),
    {
        fun(&self.value, other, &self.token)
    }

    /// Applies `fun` to the structure and the token, both exclusive, and to
    /// another sea, which it takes over.
    pub fn combine_mut<'other, R, E: for <'x>GhostProject<'x>, O, C>(
        &mut self,
        other: GhostSea<'other, E, O>,
        fun: C,
    ) -> (out: R) where
        C: FnOnce(&mut T, GhostSea<'other, E, O>, &mut GhostToken<'id, F>) -> R,

        requires
            forall|ghost: &mut T, token: &mut GhostToken<'id, F>|
                *ghost == old(self).value() && *token == old(self).token() ==> fun.requires(
                    (ghost, other, token),
                ),
        ensures
            exists|ghost: &mut T, token: &mut GhostToken<'id, F>|
                {
                    &&& *ghost == old(self).value()
                    &&& *token == old(self).token()
                    &&& *final(ghost) == final(self).value()
                    &&& *final(token) == final(self).token()
                    &&& fun.ensures((ghost, other, token), out)
                },
    {
        fun(&mut self.value, other, &mut self.token)
    }

    /// Applies `fun` to the structure and the token, both owned, and to
    /// another sea, which it takes over.
    pub fn combine_once<'other, R, E: for <'x>GhostProject<'x>, O, C>(
        self,
        other: GhostSea<'other, E, O>,
        fun: C,
    ) -> (out: R) where
        C: FnOnce(T, GhostSea<'other, E, O>, GhostToken<'id, F>) -> R,

        requires
            fun.requires((self.value(), other, self.token())),
        ensures
            fun.ensures((self.value(), other, self.token()), out),
    {
        fun(self.value, other, self.token)
    }
}

} // verus!
