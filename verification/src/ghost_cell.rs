//! The token and the cells it unlocks.

use core::marker::PhantomData;
use vstd::prelude::*;

verus! {

/// A family of types: one type for each brand.
///
/// A cell is typed by the family of what it holds, so that what it holds
/// can itself carry the brand, as a node that holds shares of other nodes
/// does.
pub trait GhostProject<'id> {
    /// The type of the family that carries the brand `'id`.
    type Branded;
}

/// The family of a type that carries no brand: `T` under every brand.
pub struct Plain<T>(PhantomData<T>);

impl<'id, T> GhostProject<'id> for Plain<T> {
    type Branded = T;
}

/// The capability over the cells of one brand.
///
/// The token owns the contents of every live cell of its family. Its view
/// maps the address of each live cell to the value the cell holds.
///
/// The arena is a vector of slots, and the address of a cell is the index
/// of its slot. The slot of a cell that ended is vacant, and is listed to be
/// taken again by a later cell, which takes it only if it finds it vacant.
pub struct GhostToken<'id, F: for <'x>GhostProject<'x>> {
    slots: Vec<Option<<F as GhostProject<'id>>::Branded>>,
    vacant: Vec<usize>,
    _marker: InvariantLifetime<'id>,
}

/// A cell of a token's family: the address of one slot of the token's arena.
///
/// A cell can be neither copied nor cloned, so that it stands for the
/// ownership of its slot.
pub struct GhostCell<'id, F> {
    slot: usize,
    _marker: InvariantLifetime<'id>,
    _family: PhantomData<F>,
}

/// A marker that ties a type to the brand `'id` and lets `'id` neither
/// shrink nor grow.
type InvariantLifetime<'id> = PhantomData<&'id mut &'id ()>;

impl<'id, F: for <'x>GhostProject<'x>> View for GhostToken<'id, F> {
    type V = Map<usize, <F as GhostProject<'id>>::Branded>;

    closed spec fn view(&self) -> Map<usize, <F as GhostProject<'id>>::Branded> {
        Map::new(
            |a: usize| a < self.slots@.len() && self.slots@[a as int].is_some(),
            |a: usize| self.slots@[a as int].unwrap(),
        )
    }
}

/// The addresses under `n`.
spec fn below(n: nat) -> Set<usize> {
    Set::new(|a: usize| a < n)
}

/// There are `n` addresses under `n`, as far as addresses go.
proof fn lemma_below(n: nat)
    requires
        n <= usize::MAX,
    ensures
        below(n).finite(),
        below(n).len() == n,
    decreases n,
{
    if n == 0 {
        assert(below(n) =~= Set::<usize>::empty());
    } else {
        lemma_below((n - 1) as nat);
        assert(below(n) =~= below((n - 1) as nat).insert((n - 1) as usize));
    }
}

impl<'id, F: for <'x>GhostProject<'x>> GhostToken<'id, F> {
    /// Whether `cell` is live under this token.
    pub open spec fn unlocks(&self, cell: &GhostCell<'id, F>) -> bool {
        self@.dom().contains(cell.addr())
    }

    /// Mints a token of a brand of its own, with no live cell, hands it to
    /// `fun` and returns what `fun` returns. The brand is a lifetime that
    /// `fun` must take whatever it is, so that the token fits no cell of
    /// another minting and cannot leave `fun`.
    pub fn new<R, C>(fun: C) -> (r: R) where
        for <'new_id>C: FnOnce(GhostToken<'new_id, F>) -> R,

        requires
            forall|token: GhostToken<'_, F>|
                token@.dom() =~= Set::<usize>::empty() ==> fun.requires((token,)),
        ensures
            exists|token: GhostToken<'_, F>|
                token@.dom() =~= Set::<usize>::empty() && fun.ensures((token,), r),
    {
        let token = GhostToken { slots: Vec::new(), vacant: Vec::new(), _marker: PhantomData };
        assert(token@.dom() =~= Set::<usize>::empty());
        fun(token)
    }

    /// The live cells are finitely many, and their number fits a `usize`.
    pub proof fn lemma_live_fits(&self)
        ensures
            self@.dom().finite(),
            self@.dom().len() <= usize::MAX,
    {
        assert(self.slots@.len() == self.slots.len());
        lemma_below(self.slots@.len());
        vstd::set_lib::lemma_len_subset(self@.dom(), below(self.slots@.len()));
    }

    /// The number of live cells.
    pub fn live(&self) -> (n: usize)
        ensures
            n == self@.dom().len(),
    {
        let mut n: usize = 0;
        let mut i: usize = 0;
        proof {
            assert(self@.dom().filter(|a: usize| a < i) =~= Set::<usize>::empty());
        }
        while i < self.slots.len()
            invariant
                i <= self.slots@.len(),
                n <= i,
                n == self@.dom().filter(|a: usize| a < i).len(),
                self@.dom().filter(|a: usize| a < i).finite(),
            decreases self.slots@.len() - i,
        {
            let ghost before = self@.dom().filter(|a: usize| a < i);
            let ghost after = self@.dom().filter(|a: usize| a < i + 1);
            if self.slots[i].is_some() {
                proof {
                    assert(after =~= before.insert(i));
                }
                n = n + 1;
            } else {
                proof {
                    assert(after =~= before);
                }
            }
            i = i + 1;
        }
        proof {
            assert(self@.dom().filter(|a: usize| a < i) =~= self@.dom());
        }
        n
    }
}

impl<'id, F: for <'x>GhostProject<'x>> GhostCell<'id, F> {
    /// The address of the cell: its identity within its family.
    pub closed spec fn addr(&self) -> usize {
        self.slot
    }

    /// A second handle to the same slot, for the shares of one cell.
    pub(crate) fn alias(&self) -> (cell: GhostCell<'id, F>)
        ensures
            cell == *self,
    {
        GhostCell { slot: self.slot, _marker: PhantomData, _family: PhantomData }
    }

    /// The address of the cell, as a number.
    pub fn as_ptr(&self) -> (a: usize)
        ensures
            a == self.addr(),
    {
        self.slot
    }

    /// Makes a cell that holds `value`, live under `token`, at an address
    /// at which no cell was live.
    pub fn new(
        value: <F as GhostProject<'id>>::Branded,
        token: &mut GhostToken<'id, F>,
    ) -> (cell: GhostCell<'id, F>)
        ensures
            !old(token).unlocks(&cell),
            final(token)@ == old(token)@.insert(cell.addr(), value),
    {
        let listed: usize = match token.vacant.pop() {
            Some(slot) => slot,
            None => token.slots.len(),
        };
        let slot: usize = if listed < token.slots.len() && token.slots[listed].is_none() {
            token.slots[listed] = Some(value);
            listed
        } else {
            token.slots.push(Some(value));
            token.slots.len() - 1
        };
        let cell = GhostCell { slot, _marker: PhantomData, _family: PhantomData };
        cell
    }

    /// Ends the cell and hands out what it held.
    pub fn into_inner(self, token: &mut GhostToken<'id, F>) -> (value: <F as GhostProject<
        'id,
    >>::Branded)
        requires
            old(token).unlocks(&self),
        ensures
            value == old(token)@[self.addr()],
            final(token)@ == old(token)@.remove(self.addr()),
    {
        let value = token.slots[self.slot].take().unwrap();
        token.vacant.push(self.slot);
        value
    }

    /// Reads the cell through a shared token.
    pub fn borrow<'a>(&'a self, token: &'a GhostToken<'id, F>) -> (value: &'a <F as GhostProject<
        'id,
    >>::Branded)
        requires
            token.unlocks(self),
        ensures
            *value == token@[self.addr()],
    {
        token.slots[self.slot].as_ref().unwrap()
    }

    /// Opens the cell for writing through an exclusive token.
    pub fn borrow_mut<'a>(&'a self, token: &'a mut GhostToken<'id, F>) -> (value: &'a mut <
        F as GhostProject<'id>
    >::Branded)
        requires
            old(token).unlocks(self),
        ensures
            *value == old(token)@[self.addr()],
            final(token)@ == old(token)@.insert(self.addr(), *final(value)),
    {
        token.slots[self.slot].as_mut().unwrap()
    }
}

} // verus!
