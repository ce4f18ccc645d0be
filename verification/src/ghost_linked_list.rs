//! A doubly linked list whose nodes are cells of one token, linked by half
//! shares.

use crate::deque::{
    answer, back_of, front_of, peek, popped_back, popped_front, pushed_back, pushed_front, step,
    End, Op,
};
use crate::ghost_cell::{GhostCell, GhostProject, GhostToken};
use crate::ghost_sea::{GhostApplyMut, GhostApplyRef};
use crate::static_rc::StaticRc;
use core::marker::PhantomData;
use vstd::prelude::*;

verus! {

/// A node of a list: an element and the two edges to its neighbours.
pub struct Node<'brand, T> {
    data: T,
    prev: Option<HalfNodePtr<'brand, T>>,
    next: Option<HalfNodePtr<'brand, T>>,
}

/// The family of the nodes of lists of `T`: `Node<'brand, T>` under the
/// brand `'brand`.
pub struct NodeFamily<T>(PhantomData<T>);

impl<'brand, T> GhostProject<'brand> for NodeFamily<T> {
    type Branded = Node<'brand, T>;
}

/// The token of the lists of `T` of one brand.
pub type ListToken<'brand, T> = GhostToken<'brand, NodeFamily<T>>;

/// A cell that holds a node.
type GhostNode<'brand, T> = GhostCell<'brand, NodeFamily<T>>;

/// Half of the ownership of a node: an edge of the list.
type HalfNodePtr<'brand, T> = StaticRc<'brand, NodeFamily<T>, 1, 2>;

/// The whole ownership of a node.
type FullNodePtr<'brand, T> = StaticRc<'brand, NodeFamily<T>, 2, 2>;

/// A doubly linked list. Its nodes live under a token, which every
/// operation that reads or writes them takes.
///
/// Each node is owned by two half shares: one held by the node before it,
/// or by the list where it is the first, and one held by the node after it,
/// or by the list where it is the last.
pub struct GhostLinkedList<'brand, T> {
    head_tail: Option<(HalfNodePtr<'brand, T>, HalfNodePtr<'brand, T>)>,
    nodes: Ghost<Seq<usize>>,
}

impl<'brand, T> Node<'brand, T> {
    /// The element of the node.
    pub closed spec fn data(&self) -> T {
        self.data
    }

    /// The address that the edge to the node before holds, if there is one.
    pub closed spec fn prev_addr(&self) -> Option<usize> {
        match self.prev {
            Some(p) => Some(p.addr()),
            None => None,
        }
    }

    /// The address that the edge to the node after holds, if there is one.
    pub closed spec fn next_addr(&self) -> Option<usize> {
        match self.next {
            Some(n) => Some(n.addr()),
            None => None,
        }
    }
}

/// Whether every cell of `before` at an address that is not in `nodes` is a
/// cell of `after` too, and holds the same.
pub open spec fn kept_outside<T>(before: Map<usize, T>, after: Map<usize, T>, nodes: Seq<
    usize,
>) -> bool {
    forall|a: usize|
        #![trigger before.dom().contains(a)]
        #![trigger after[a]]
        before.dom().contains(a) && !nodes.contains(a) ==> after.dom().contains(a) && after[a]
            == before[a]
}

/// The address at index `i` of `nodes`, if `i` is an index of it.
pub open spec fn addr_at(nodes: Seq<usize>, i: int) -> Option<usize> {
    if 0 <= i < nodes.len() {
        Some(nodes[i])
    } else {
        None
    }
}

/// What is in `s` from index `k` on is the item at `k` and what is in `s`
/// after it.
proof fn lemma_skip_contains(s: Seq<usize>, k: int, a: usize)
    requires
        0 <= k < s.len(),
    ensures
        s.skip(k).contains(a) <==> a == s[k] || s.skip(k + 1).contains(a),
{
    let from = s.skip(k);
    let after = s.skip(k + 1);
    if from.contains(a) {
        let j = choose|j: int| 0 <= j < from.len() && from[j] == a;
        if j > 0 {
            assert(after[j - 1] == a);
        }
    }
    if after.contains(a) {
        let j = choose|j: int| 0 <= j < after.len() && after[j] == a;
        assert(from[j + 1] == a);
    }
    if a == s[k] {
        assert(s.skip(k)[0] == a);
    }
}

impl<'brand, T> GhostLinkedList<'brand, T> {
    /// The addresses of the nodes, from the front to the back.
    pub closed spec fn nodes(&self) -> Seq<usize> {
        self.nodes@
    }

    /// The addresses that the list's own two half shares hold: those of the
    /// first and of the last node.
    pub closed spec fn anchors(&self) -> Option<(usize, usize)> {
        match self.head_tail {
            Some((head, tail)) => Some((head.addr(), tail.addr())),
            None => None,
        }
    }

    /// The list is well formed under `token`: its nodes are distinct live
    /// cells of the token, the list's two half shares are of the first and
    /// of the last node, and the two edges of each node are half shares of
    /// its two neighbours, absent where there is no neighbour.
    pub open spec fn wf(&self, token: &ListToken<'brand, T>) -> bool {
        &&& self.nodes().no_duplicates()
        &&& self.anchors() == (if self.nodes().len() == 0 {
            None
        } else {
            Some((self.nodes().first(), self.nodes().last()))
        })
        &&& forall|i: int|
            0 <= i < self.nodes().len() ==> {
                &&& token@.dom().contains(#[trigger] self.nodes()[i])
                &&& token@[self.nodes()[i]].prev_addr() == addr_at(self.nodes(), i - 1)
                &&& token@[self.nodes()[i]].next_addr() == addr_at(self.nodes(), i + 1)
            }
    }

    /// The elements of the list under `token`, from the front to the back.
    pub open spec fn items(&self, token: &ListToken<'brand, T>) -> Seq<T> {
        Seq::new(self.nodes().len(), |i: int| token@[self.nodes()[i]].data())
    }

    /// The empty list. It is well formed under every token.
    pub fn new() -> (list: Self)
        ensures
            list.nodes() == Seq::<usize>::empty(),
            list.anchors() is None,
            forall|token: ListToken<'brand, T>| #[trigger] list.wf(&token),
    {
        GhostLinkedList { head_tail: None, nodes: Ghost(Seq::empty()) }
    }

    /// Whether the list has no element.
    pub fn is_empty(&self) -> (empty: bool)
        ensures
            empty == (self.anchors() is None),
            forall|token: ListToken<'brand, T>| #[trigger]
                self.wf(&token) ==> empty == (self.items(&token).len() == 0),
    {
        self.head_tail.is_none()
    }

    /// A cursor over the elements, which can be taken from both ends.
    pub fn iter<'a>(&'a self, token: &'a ListToken<'brand, T>) -> (iter: GhostLinkedListIterator<
        'a,
        'brand,
        T,
    >)
        requires
            self.wf(token),
        ensures
            iter.wf(),
            iter.token() == token,
            iter.nodes() == self.nodes(),
            iter.items() == self.items(token),
    {
        let head_tail = match &self.head_tail {
            Some((head, tail)) => Some((head.get(), tail.get())),
            None => None,
        };
        GhostLinkedListIterator { token, head_tail, nodes: Ghost(self.nodes@) }
    }

    /// The number of elements, counted by walking the list from the front
    /// to the back.
    pub fn len(&self, token: &ListToken<'brand, T>) -> (n: usize)
        requires
            self.wf(token),
        ensures
            n == self.items(token).len(),
    {
        proof {
            self.lemma_len_fits(token);
        }
        match &self.head_tail {
            None => 0,
            Some((head, _)) => {
                let mut cur: &GhostNode<'brand, T> = head.get();
                let mut n: usize = 1;
                loop
                    invariant
                        self.wf(token),
                        self.nodes().len() <= usize::MAX,
                        1 <= n <= self.nodes().len(),
                        cur.addr() == self.nodes()[n - 1],
                    ensures
                        n == self.nodes().len(),
                    decreases self.nodes().len() - n,
                {
                    match &cur.borrow(token).next {
                        Some(next) => {
                            cur = next.get();
                            n = n + 1;
                        },
                        None => {
                            break ;
                        },
                    }
                }
                n
            },
        }
    }

    /// Takes every element out of the list and ends every node of it. No
    /// other cell changes.
    pub fn clear(&mut self, token: &mut ListToken<'brand, T>)
        requires
            old(self).wf(old(token)),
        ensures
            final(self).wf(final(token)),
            final(self).nodes() == Seq::<usize>::empty(),
            final(self).anchors() is None,
            final(self).items(final(token)) == Seq::<T>::empty(),
            final(token)@.dom() == old(token)@.dom().difference(old(self).nodes().to_set()),
            kept_outside(old(token)@, final(token)@, old(self).nodes()),
    {
        loop
            invariant
                self.wf(token),
                self.nodes().len() <= old(self).nodes().len(),
                self.nodes() == old(self).nodes().take(self.nodes().len() as int),
                token@.dom() == old(token)@.dom().difference(
                    old(self).nodes().skip(self.nodes().len() as int).to_set(),
                ),
                kept_outside(old(token)@, token@, old(self).nodes()),
            ensures
                self.wf(token),
                self.nodes().len() == 0,
                token@.dom() == old(token)@.dom().difference(old(self).nodes().to_set()),
                kept_outside(old(token)@, token@, old(self).nodes()),
            decreases self.nodes().len(),
        {
            match self.pop_back(token) {
                Some(_) => {
                    proof {
                        let k = self.nodes().len() as int;
                        let all = old(self).nodes();
                        assert forall|a: usize|
                            all.skip(k).to_set().contains(a) <==> a == all[k] || all.skip(
                                k + 1,
                            ).to_set().contains(a) by {
                            lemma_skip_contains(all, k, a);
                        }
                    }
                },
                None => {
                    proof {
                        assert(old(self).nodes().skip(0) =~= old(self).nodes());
                    }
                    break ;
                },
            }
        }
    }

    /// The element at the front, if there is one.
    pub fn front<'a>(&'a self, token: &'a ListToken<'brand, T>) -> (front: Option<&'a T>)
        requires
            self.wf(token),
        ensures
            match front {
                Some(x) => front_of(self.items(token)) == Some(*x),
                None => front_of(self.items(token)) is None,
            },
    {
        match &self.head_tail {
            Some((head, _)) => {
                Some(&head.get().borrow(token).data)
            },
            None => None,
        }
    }

    /// The element at the back, if there is one.
    pub fn back<'a>(&'a self, token: &'a ListToken<'brand, T>) -> (back: Option<&'a T>)
        requires
            self.wf(token),
        ensures
            match back {
                Some(x) => back_of(self.items(token)) == Some(*x),
                None => back_of(self.items(token)) is None,
            },
    {
        match &self.head_tail {
            Some((_, tail)) => {
                Some(&tail.get().borrow(token).data)
            },
            None => None,
        }
    }

    /// The element at the front, if there is one, to be written. The list
    /// itself stays as it is, and of the token's cells only the element of
    /// the first node changes, to what is written.
    pub fn front_mut<'a>(&'a mut self, token: &'a mut ListToken<'brand, T>) -> (front: Option<
        &'a mut T,
    >)
        requires
            old(self).wf(old(token)),
        ensures
            *final(self) == *old(self),
            final(self).wf(final(token)),
            final(token)@.dom() == old(token)@.dom(),
            kept_outside(old(token)@, final(token)@, old(self).nodes()),
            match front {
                Some(x) => {
                    &&& front_of(old(self).items(old(token))) == Some(*x)
                    &&& final(self).items(final(token)) =~= old(self).items(old(token)).update(
                        0,
                        *final(x),
                    )
                },
                None => {
                    &&& old(self).nodes().len() == 0
                    &&& final(token)@ == old(token)@
                },
            },
    {
        match &self.head_tail {
            Some((head, _)) => {
                let node = head.get().borrow_mut(token);
                let data = &mut node.data;
                Some(data)
            },
            None => None,
        }
    }

    /// The element at the back, if there is one, to be written. The list
    /// itself stays as it is, and of the token's cells only the element of
    /// the last node changes, to what is written.
    pub fn back_mut<'a>(&'a mut self, token: &'a mut ListToken<'brand, T>) -> (back: Option<
        &'a mut T,
    >)
        requires
            old(self).wf(old(token)),
        ensures
            *final(self) == *old(self),
            final(self).wf(final(token)),
            final(token)@.dom() == old(token)@.dom(),
            kept_outside(old(token)@, final(token)@, old(self).nodes()),
            match back {
                Some(x) => {
                    &&& back_of(old(self).items(old(token))) == Some(*x)
                    &&& final(self).items(final(token)) =~= old(self).items(old(token)).update(
                        old(self).nodes().len() - 1,
                        *final(x),
                    )
                },
                None => {
                    &&& old(self).nodes().len() == 0
                    &&& final(token)@ == old(token)@
                },
            },
    {
        match &self.head_tail {
            Some((_, tail)) => {
                let node = tail.get().borrow_mut(token);
                let data = &mut node.data;
                Some(data)
            },
            None => None,
        }
    }

    /// Puts `data` at the front of the list, in a node at an address at
    /// which no cell was live. No other cell but the node that was first
    /// changes.
    pub fn push_front(&mut self, data: T, token: &mut ListToken<'brand, T>)
        requires
            old(self).wf(old(token)),
        ensures
            final(self).wf(final(token)),
            final(self).items(final(token)) == pushed_front(old(self).items(old(token)), data),
            final(self).nodes().len() == old(self).nodes().len() + 1,
            final(self).nodes().drop_first() == old(self).nodes(),
            !old(token)@.dom().contains(final(self).nodes().first()),
            final(token)@.dom() == old(token)@.dom().insert(final(self).nodes().first()),
            kept_outside(old(token)@, final(token)@, old(self).nodes()),
    {
        let ghost old_nodes = self.nodes@;
        let (one, two) = Self::new_halves(data, token);
        let ghost fresh = one.addr();
        match self.head_tail.take() {
            Some((head, tail)) => {
                let first = head.get().borrow_mut(token);
                first.prev = Some(one);
                let node = two.get().borrow_mut(token);
                node.next = Some(head);
                self.head_tail = Some((two, tail));
            },
            None => {
                self.head_tail = Some((one, two));
            },
        }
        self.nodes = Ghost(seq![fresh] + old_nodes);
    }

    /// Takes the element at the front out of the list and ends its node.
    /// On an empty list nothing changes. No other cell but the node that
    /// becomes first changes.
    pub fn pop_front(&mut self, token: &mut ListToken<'brand, T>) -> (popped: Option<T>)
        requires
            old(self).wf(old(token)),
        ensures
            final(self).wf(final(token)),
            popped == front_of(old(self).items(old(token))),
            final(self).items(final(token)) == popped_front(old(self).items(old(token))),
            final(self).nodes() == popped_front(old(self).nodes()),
            final(token)@.dom() == (if old(self).nodes().len() == 0 {
                old(token)@.dom()
            } else {
                old(token)@.dom().remove(old(self).nodes().first())
            }),
            kept_outside(old(token)@, final(token)@, old(self).nodes()),
    {
        let ghost old_nodes = self.nodes@;
        match self.head_tail.take() {
            None => None,
            Some((head, tail)) => {
                if StaticRc::as_ptr(&head) == StaticRc::as_ptr(&tail) {
                    self.nodes = Ghost(Seq::empty());
                    let data = Self::into_inner(head, tail, token);
                    Some(data)
                } else {
                    let first = head.get().borrow_mut(token);
                    let next = first.next.take().unwrap();
                    let second = next.get().borrow_mut(token);
                    let other_head = second.prev.take().unwrap();
                    self.head_tail = Some((next, tail));
                    self.nodes = Ghost(old_nodes.drop_first());
                    let data = Self::into_inner(head, other_head, token);
                    Some(data)
                }
            },
        }
    }

    /// Puts `data` at the back of the list, in a node at an address at
    /// which no cell was live. No other cell but the node that was last
    /// changes.
    pub fn push_back(&mut self, data: T, token: &mut ListToken<'brand, T>)
        requires
            old(self).wf(old(token)),
        ensures
            final(self).wf(final(token)),
            final(self).items(final(token)) == pushed_back(old(self).items(old(token)), data),
            final(self).nodes().len() == old(self).nodes().len() + 1,
            final(self).nodes().drop_last() == old(self).nodes(),
            !old(token)@.dom().contains(final(self).nodes().last()),
            final(token)@.dom() == old(token)@.dom().insert(final(self).nodes().last()),
            kept_outside(old(token)@, final(token)@, old(self).nodes()),
    {
        let ghost old_nodes = self.nodes@;
        let (one, two) = Self::new_halves(data, token);
        let ghost fresh = one.addr();
        match self.head_tail.take() {
            Some((head, tail)) => {
                let last = tail.get().borrow_mut(token);
                last.next = Some(one);
                let node = two.get().borrow_mut(token);
                node.prev = Some(tail);
                self.head_tail = Some((head, two));
            },
            None => {
                self.head_tail = Some((one, two));
            },
        }
        self.nodes = Ghost(old_nodes.push(fresh));
    }

    /// Takes the element at the back out of the list and ends its node. On
    /// an empty list nothing changes. No other cell but the node that
    /// becomes last changes.
    pub fn pop_back(&mut self, token: &mut ListToken<'brand, T>) -> (popped: Option<T>)
        requires
            old(self).wf(old(token)),
        ensures
            final(self).wf(final(token)),
            popped == back_of(old(self).items(old(token))),
            final(self).items(final(token)) == popped_back(old(self).items(old(token))),
            final(self).nodes() == popped_back(old(self).nodes()),
            final(token)@.dom() == (if old(self).nodes().len() == 0 {
                old(token)@.dom()
            } else {
                old(token)@.dom().remove(old(self).nodes().last())
            }),
            kept_outside(old(token)@, final(token)@, old(self).nodes()),
    {
        let ghost old_nodes = self.nodes@;
        match self.head_tail.take() {
            None => None,
            Some((head, tail)) => {
                if StaticRc::as_ptr(&head) == StaticRc::as_ptr(&tail) {
                    self.nodes = Ghost(Seq::empty());
                    let data = Self::into_inner(head, tail, token);
                    Some(data)
                } else {
                    let last = tail.get().borrow_mut(token);
                    let prev = last.prev.take().unwrap();
                    let second = prev.get().borrow_mut(token);
                    let other_tail = second.next.take().unwrap();
                    self.head_tail = Some((head, prev));
                    self.nodes = Ghost(old_nodes.drop_last());
                    let data = Self::into_inner(tail, other_tail, token);
                    Some(data)
                }
            },
        }
    }

    /// Joins the two half shares of one node, ends the node and hands out
    /// its element. The node holds no edge any more, so that no share of
    /// another node is lost with it.
    fn into_inner(
        left: HalfNodePtr<'brand, T>,
        right: HalfNodePtr<'brand, T>,
        token: &mut ListToken<'brand, T>,
    ) -> (data: T)
        requires
            left.addr() == right.addr(),
            old(token)@.dom().contains(left.addr()),
            old(token)@[left.addr()].prev_addr() is None,
            old(token)@[left.addr()].next_addr() is None,
        ensures
            data == old(token)@[left.addr()].data(),
            final(token)@ == old(token)@.remove(left.addr()),
    {
        let full = FullNodePtr::<'brand, T>::join(left, right);
        let cell = StaticRc::into_inner(full);
        let node = cell.into_inner(token);
        node.data
    }

    /// A node that holds `data` and no edge, in a fresh cell, as its two
    /// half shares.
    fn new_halves(data: T, token: &mut ListToken<'brand, T>) -> (halves: (
        HalfNodePtr<'brand, T>,
        HalfNodePtr<'brand, T>,
    ))
        ensures
            halves.0.addr() == halves.1.addr(),
            !old(token)@.dom().contains(halves.0.addr()),
            final(token)@.dom() == old(token)@.dom().insert(halves.0.addr()),
            forall|a: usize| old(token)@.dom().contains(a) ==> final(token)@[a] == old(token)@[a],
            final(token)@[halves.0.addr()].data() == data,
            final(token)@[halves.0.addr()].prev_addr() is None,
            final(token)@[halves.0.addr()].next_addr() is None,
    {
        let node = Node { data, prev: None, next: None };
        let full = FullNodePtr::<'brand, T>::new(GhostCell::new(node, token));
        StaticRc::split::<1, 1>(full)
    }
}

impl<'brand, T> GhostLinkedList<'brand, T> {
    /// The list's two half shares are of one node exactly where the list
    /// has one node.
    pub proof fn lemma_single_node(&self, token: &ListToken<'brand, T>)
        requires
            self.wf(token),
        ensures
            self.nodes().len() == 1 <==> (self.anchors() is Some && self.anchors().unwrap().0
                == self.anchors().unwrap().1),
    {
        if self.nodes().len() > 0 {
        }
    }

    /// The two half shares of the node at index `i` are held, one by the
    /// node before it, or by the list where it is the first, and one by the
    /// node after it, or by the list where it is the last; no other edge of
    /// the list holds a share of it.
    pub proof fn lemma_two_halves(&self, token: &ListToken<'brand, T>, i: int)
        requires
            self.wf(token),
            0 <= i < self.nodes().len(),
        ensures
            i == 0 ==> self.anchors().unwrap().0 == self.nodes()[i],
            i > 0 ==> token@[self.nodes()[i - 1]].next_addr() == Some(self.nodes()[i]),
            i == self.nodes().len() - 1 ==> self.anchors().unwrap().1 == self.nodes()[i],
            i < self.nodes().len() - 1 ==> token@[self.nodes()[i + 1]].prev_addr() == Some(
                self.nodes()[i],
            ),
            self.anchors().unwrap().0 == self.nodes()[i] ==> i == 0,
            self.anchors().unwrap().1 == self.nodes()[i] ==> i == self.nodes().len() - 1,
            forall|j: int|
                0 <= j < self.nodes().len() && token@[#[trigger] self.nodes()[j]].next_addr()
                    == Some(self.nodes()[i]) ==> j == i - 1,
            forall|j: int|
                0 <= j < self.nodes().len() && token@[#[trigger] self.nodes()[j]].prev_addr()
                    == Some(self.nodes()[i]) ==> j == i + 1,
    {
        if i > 0 {
        }
        if i < self.nodes().len() - 1 {
        }
    }

    /// Every node of a well-formed list is one live cell of the token, and
    /// no cell is the node of two places.
    pub proof fn lemma_nodes_live(&self, token: &ListToken<'brand, T>)
        requires
            self.wf(token),
        ensures
            self.nodes().to_set().subset_of(token@.dom()),
            self.nodes().to_set().len() == self.nodes().len(),
            self.items(token).len() == self.nodes().len(),
    {
        self.nodes().unique_seq_to_set();
    }

    /// A list stays well formed, with the same elements, under every token
    /// that holds the same in the cells of its nodes.
    pub proof fn lemma_frame(&self, token: &ListToken<'brand, T>, other: &ListToken<'brand, T>)
        requires
            self.wf(token),
            forall|i: int|
                0 <= i < self.nodes().len() ==> other@.dom().contains(#[trigger] self.nodes()[i])
                    && other@[self.nodes()[i]] == token@[self.nodes()[i]],
        ensures
            self.wf(other),
            self.items(other) == self.items(token),
    {
    }

    /// A list stays well formed, with the same elements, through whatever
    /// another structure does to the token, as long as that keeps every cell
    /// outside its own nodes, and none of its nodes is a node of the list.
    pub proof fn lemma_kept(
        &self,
        token: &ListToken<'brand, T>,
        other: &ListToken<'brand, T>,
        nodes: Seq<usize>,
    )
        requires
            self.wf(token),
            kept_outside(token@, other@, nodes),
            forall|i: int|
                0 <= i < self.nodes().len() ==> !nodes.contains(#[trigger] self.nodes()[i]),
        ensures
            self.wf(other),
            self.items(other) == self.items(token),
    {
        self.lemma_frame(token, other);
    }

    /// A well-formed list has no more nodes than its token has live cells.
    pub proof fn lemma_len_fits(&self, token: &ListToken<'brand, T>)
        requires
            self.wf(token),
        ensures
            self.nodes().len() <= token@.dom().len() <= usize::MAX,
    {
        token.lemma_live_fits();
        self.lemma_nodes_live(token);
        vstd::set_lib::lemma_len_subset(self.nodes().to_set(), token@.dom());
    }
}

impl<'brand, T> Default for GhostLinkedList<'brand, T> {
    /// The empty list.
    fn default() -> (list: Self)
        ensures
            list.nodes() == Seq::<usize>::empty(),
            list.anchors() is None,
            forall|token: ListToken<'brand, T>| #[trigger] list.wf(&token),
    {
        GhostLinkedList::new()
    }
}

/// An end of a queue is a reader of a list: applied to a well-formed list
/// it returns the element at that end, if the list has one.
impl<'a, 'brand, T: 'a> GhostApplyRef<
    'a,
    'brand,
    NodeFamily<T>,
    GhostLinkedList<'brand, T>,
> for End {
    type Output = Option<&'a T>;

    open spec fn call_pre(
        &self,
        ghost: &GhostLinkedList<'brand, T>,
        token: &ListToken<'brand, T>,
    ) -> bool {
        ghost.wf(token)
    }

    open spec fn call_post(
        &self,
        ghost: &GhostLinkedList<'brand, T>,
        token: &ListToken<'brand, T>,
        out: Option<&'a T>,
    ) -> bool {
        match out {
            Some(x) => peek(ghost.items(token), *self) == Some(*x),
            None => peek(ghost.items(token), *self) is None,
        }
    }

    fn call(self, ghost: &'a GhostLinkedList<'brand, T>, token: &'a ListToken<'brand, T>) -> (out:
        Option<&'a T>) {
        match self {
            End::Front => ghost.front(token),
            End::Back => ghost.back(token),
        }
    }
}

/// An operation of a queue is a writer of a list: applied to a well-formed
/// list it does to the elements what the operation does to a queue, and
/// returns what the operation returns.
impl<'a, 'brand, T> GhostApplyMut<
    'a,
    'brand,
    NodeFamily<T>,
    GhostLinkedList<'brand, T>,
> for Op<T> {
    type Output = Option<T>;

    open spec fn call_pre(
        &self,
        ghost: GhostLinkedList<'brand, T>,
        token: ListToken<'brand, T>,
    ) -> bool {
        ghost.wf(&token)
    }

    open spec fn call_post(
        &self,
        ghost: GhostLinkedList<'brand, T>,
        token: ListToken<'brand, T>,
        ghost_after: GhostLinkedList<'brand, T>,
        token_after: ListToken<'brand, T>,
        out: Option<T>,
    ) -> bool {
        &&& ghost_after.wf(&token_after)
        &&& ghost_after.items(&token_after) == step(ghost.items(&token), *self)
        &&& out == answer(ghost.items(&token), *self)
        &&& kept_outside(token@, token_after@, ghost.nodes())
    }

    fn call(
        self,
        ghost: &'a mut GhostLinkedList<'brand, T>,
        token: &'a mut ListToken<'brand, T>,
    ) -> (out: Option<T>) {
        match self {
            Op::PushFront(data) => {
                ghost.push_front(data, token);
                None
            },
            Op::PushBack(data) => {
                ghost.push_back(data, token);
                None
            },
            Op::PopFront => ghost.pop_front(token),
            Op::PopBack => ghost.pop_back(token),
        }
    }
}

/// A cursor over the elements of a list that have not been taken yet. It
/// reads through the token it was made with and changes no share.
pub struct GhostLinkedListIterator<'a, 'brand, T> {
    token: &'a ListToken<'brand, T>,
    head_tail: Option<(&'a GhostNode<'brand, T>, &'a GhostNode<'brand, T>)>,
    nodes: Ghost<Seq<usize>>,
}

impl<'a, 'brand, T> GhostLinkedListIterator<'a, 'brand, T> {
    /// The token that the cursor reads through.
    pub closed spec fn token(&self) -> &ListToken<'brand, T> {
        self.token
    }

    /// The addresses of the nodes that are left, from the front to the back.
    pub closed spec fn nodes(&self) -> Seq<usize> {
        self.nodes@
    }

    /// The addresses of the first and of the last node that are left.
    pub closed spec fn anchors(&self) -> Option<(usize, usize)> {
        match self.head_tail {
            Some((head, tail)) => Some((head.addr(), tail.addr())),
            None => None,
        }
    }

    /// The cursor is well formed: the nodes that are left are distinct live
    /// cells of its token, each linked to the next and to the one before,
    /// and the cursor stands at the first and at the last of them.
    pub open spec fn wf(&self) -> bool {
        &&& self.nodes().no_duplicates()
        &&& self.anchors() == (if self.nodes().len() == 0 {
            None
        } else {
            Some((self.nodes().first(), self.nodes().last()))
        })
        &&& forall|i: int|
            0 <= i < self.nodes().len() ==> {
                &&& self.token()@.dom().contains(#[trigger] self.nodes()[i])
                &&& i > 0 ==> self.token()@[self.nodes()[i]].prev_addr() == Some(
                    self.nodes()[i - 1],
                )
                &&& i + 1 < self.nodes().len() ==> self.token()@[self.nodes()[i]].next_addr()
                    == Some(self.nodes()[i + 1])
            }
    }

    /// The elements that are left, from the front to the back.
    pub open spec fn items(&self) -> Seq<T> {
        Seq::new(self.nodes().len(), |i: int| self.token()@[self.nodes()[i]].data())
    }

    /// Takes the element at the front of what is left.
    pub fn next(&mut self) -> (item: Option<&'a T>)
        requires
            old(self).wf(),
        ensures
            final(self).wf(),
            final(self).token() == old(self).token(),
            final(self).nodes() == popped_front(old(self).nodes()),
            final(self).items() == popped_front(old(self).items()),
            match item {
                Some(x) => front_of(old(self).items()) == Some(*x),
                None => front_of(old(self).items()) is None,
            },
    {
        let ghost old_nodes = self.nodes@;
        match self.head_tail.take() {
            Some((head, tail)) => {
                let token: &'a ListToken<'brand, T> = self.token;
                let node: &'a Node<'brand, T> = head.borrow(token);
                if head.as_ptr() != tail.as_ptr() {
                    match &node.next {
                        Some(next) => {
                            self.head_tail = Some((next.get(), tail));
                        },
                        None => {},
                    }
                }
                self.nodes = Ghost(old_nodes.drop_first());
                Some(&node.data)
            },
            None => None,
        }
    }

    /// Takes the element at the back of what is left.
    pub fn next_back(&mut self) -> (item: Option<&'a T>)
        requires
            old(self).wf(),
        ensures
            final(self).wf(),
            final(self).token() == old(self).token(),
            final(self).nodes() == popped_back(old(self).nodes()),
            final(self).items() == popped_back(old(self).items()),
            match item {
                Some(x) => back_of(old(self).items()) == Some(*x),
                None => back_of(old(self).items()) is None,
            },
    {
        let ghost old_nodes = self.nodes@;
        match self.head_tail.take() {
            Some((head, tail)) => {
                let token: &'a ListToken<'brand, T> = self.token;
                let node: &'a Node<'brand, T> = tail.borrow(token);
                if head.as_ptr() != tail.as_ptr() {
                    match &node.prev {
                        Some(prev) => {
                            self.head_tail = Some((head, prev.get()));
                        },
                        None => {},
                    }
                }
                self.nodes = Ghost(old_nodes.drop_last());
                Some(&node.data)
            },
            None => None,
        }
    }
}

} // verus!
