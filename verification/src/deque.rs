//! The double-ended queue that a list stands for: a sequence, its front at
//! index 0.

use vstd::prelude::*;

verus! {

/// The queue after `x` is pushed at the front of `s`.
pub open spec fn pushed_front<T>(s: Seq<T>, x: T) -> Seq<T> {
    seq![x] + s
}

/// The queue after `x` is pushed at the back of `s`.
pub open spec fn pushed_back<T>(s: Seq<T>, x: T) -> Seq<T> {
    s.push(x)
}

/// What a pop at the front of `s` returns.
pub open spec fn front_of<T>(s: Seq<T>) -> Option<T> {
    if s.len() == 0 {
        None
    } else {
        Some(s.first())
    }
}

/// What a pop at the back of `s` returns.
pub open spec fn back_of<T>(s: Seq<T>) -> Option<T> {
    if s.len() == 0 {
        None
    } else {
        Some(s.last())
    }
}

/// The queue after a pop at the front of `s`.
pub open spec fn popped_front<T>(s: Seq<T>) -> Seq<T> {
    if s.len() == 0 {
        s
    } else {
        s.drop_first()
    }
}

/// The queue after a pop at the back of `s`.
pub open spec fn popped_back<T>(s: Seq<T>) -> Seq<T> {
    if s.len() == 0 {
        s
    } else {
        s.drop_last()
    }
}

/// One end of a queue.
pub enum End {
    /// The front.
    Front,
    /// The back.
    Back,
}

/// The element at `end` of `s`, if `s` has one.
pub open spec fn peek<T>(s: Seq<T>, end: End) -> Option<T> {
    match end {
        End::Front => front_of(s),
        End::Back => back_of(s),
    }
}

/// One operation on a queue.
pub enum Op<T> {
    /// Push an element at the front.
    PushFront(T),
    /// Push an element at the back.
    PushBack(T),
    /// Pop at the front.
    PopFront,
    /// Pop at the back.
    PopBack,
}

/// The queue after `op` on `s`.
pub open spec fn step<T>(s: Seq<T>, op: Op<T>) -> Seq<T> {
    match op {
        Op::PushFront(x) => pushed_front(s, x),
        Op::PushBack(x) => pushed_back(s, x),
        Op::PopFront => popped_front(s),
        Op::PopBack => popped_back(s),
    }
}

/// What `op` on `s` returns: an element where a pop finds one.
pub open spec fn answer<T>(s: Seq<T>, op: Op<T>) -> Option<T> {
    match op {
        Op::PushFront(_) => None,
        Op::PushBack(_) => None,
        Op::PopFront => front_of(s),
        Op::PopBack => back_of(s),
    }
}

/// The queue after the operations `ops`, in their order, on `s`.
pub open spec fn run<T>(s: Seq<T>, ops: Seq<Op<T>>) -> Seq<T>
    decreases ops.len(),
{
    if ops.len() == 0 {
        s
    } else {
        step(run(s, ops.drop_last()), ops.last())
    }
}

/// How many of `ops` are pushes.
pub open spec fn pushes<T>(ops: Seq<Op<T>>) -> nat
    decreases ops.len(),
{
    if ops.len() == 0 {
        0
    } else {
        pushes(ops.drop_last()) + match ops.last() {
            Op::PushFront(_) => 1nat,
            Op::PushBack(_) => 1nat,
            _ => 0nat,
        }
    }
}

/// How many of `ops`, run on `s`, are pops that return an element.
pub open spec fn pops<T>(s: Seq<T>, ops: Seq<Op<T>>) -> nat
    decreases ops.len(),
{
    if ops.len() == 0 {
        0
    } else {
        pops(s, ops.drop_last()) + if answer(run(s, ops.drop_last()), ops.last()) is Some {
            1nat
        } else {
            0nat
        }
    }
}

/// The queue after each of `xs`, in their order, is pushed at the back of `s`.
pub open spec fn pushed_back_all<T>(s: Seq<T>, xs: Seq<T>) -> Seq<T>
    decreases xs.len(),
{
    if xs.len() == 0 {
        s
    } else {
        pushed_back(pushed_back_all(s, xs.drop_last()), xs.last())
    }
}

/// The queue after each of `xs`, in their order, is pushed at the front of
/// `s`.
pub open spec fn pushed_front_all<T>(s: Seq<T>, xs: Seq<T>) -> Seq<T>
    decreases xs.len(),
{
    if xs.len() == 0 {
        s
    } else {
        pushed_front(pushed_front_all(s, xs.drop_last()), xs.last())
    }
}

/// What pops at the front return, one after the other, until `s` is empty.
pub open spec fn drained_front<T>(s: Seq<T>) -> Seq<T>
    decreases s.len(),
{
    if s.len() == 0 {
        Seq::empty()
    } else {
        seq![front_of(s).unwrap()] + drained_front(popped_front(s))
    }
}

/// What pops at the back return, one after the other, until `s` is empty.
pub open spec fn drained_back<T>(s: Seq<T>) -> Seq<T>
    decreases s.len(),
{
    if s.len() == 0 {
        Seq::empty()
    } else {
        seq![back_of(s).unwrap()] + drained_back(popped_back(s))
    }
}

/// After any operations on a queue, the length has grown by the number of
/// pushes less the number of pops that returned an element. On a queue
/// that was empty, it is that number.
pub proof fn lemma_length_is_net_pushes<T>(s: Seq<T>, ops: Seq<Op<T>>)
    ensures
        run(s, ops).len() == s.len() + pushes(ops) - pops(s, ops),
        s.len() == 0 ==> run(s, ops).len() == pushes(ops) - pops(s, ops),
    decreases ops.len(),
{
    if ops.len() > 0 {
        lemma_length_is_net_pushes(s, ops.drop_last());
    }
}

/// Pops at the front return the elements from the front to the back.
pub proof fn lemma_drained_front<T>(s: Seq<T>)
    ensures
        drained_front(s) == s,
    decreases s.len(),
{
    if s.len() > 0 {
        lemma_drained_front(popped_front(s));
    }
}

/// Pops at the back return the elements from the back to the front.
pub proof fn lemma_drained_back<T>(s: Seq<T>)
    ensures
        drained_back(s) == s.reverse(),
    decreases s.len(),
{
    if s.len() > 0 {
        lemma_drained_back(popped_back(s));
    }
}

/// What is taken from the back, end to end, is the reverse of what is taken
/// from the front.
pub proof fn lemma_back_reverses_front<T>(s: Seq<T>)
    ensures
        drained_back(s) == drained_front(s).reverse(),
        drained_front(s) == drained_back(s).reverse(),
{
    lemma_drained_front(s);
    lemma_drained_back(s);
}

/// Pushing `xs` at the back of an empty queue and popping at the front as
/// many times returns `xs` in its order, and leaves the queue empty.
pub proof fn lemma_push_back_pop_front<T>(xs: Seq<T>)
    ensures
        pushed_back_all(Seq::<T>::empty(), xs) == xs,
        drained_front(pushed_back_all(Seq::<T>::empty(), xs)) == xs,
    decreases xs.len(),
{
    if xs.len() > 0 {
        lemma_push_back_pop_front(xs.drop_last());
    }
    lemma_drained_front(xs);
}

/// Pushing `xs` at the front of an empty queue and popping at the front as
/// many times returns `xs` in the reverse of its order, and leaves the
/// queue empty.
pub proof fn lemma_push_front_pop_front<T>(xs: Seq<T>)
    ensures
        pushed_front_all(Seq::<T>::empty(), xs) == xs.reverse(),
        drained_front(pushed_front_all(Seq::<T>::empty(), xs)) == xs.reverse(),
    decreases xs.len(),
{
    if xs.len() > 0 {
        lemma_push_front_pop_front(xs.drop_last());
    }
    lemma_drained_front(xs.reverse());
}

/// An empty queue stays empty under pops, and they return nothing.
pub proof fn lemma_empty_stays_empty<T>(s: Seq<T>)
    requires
        s.len() == 0,
    ensures
        front_of(s) is None,
        back_of(s) is None,
        popped_front(s) == s,
        popped_back(s) == s,
{
}

/// In a queue of one element the front and the back are that element, and
/// a pop at either end leaves the queue empty.
pub proof fn lemma_single<T>(s: Seq<T>)
    requires
        s.len() == 1,
    ensures
        front_of(s) == Some(s[0]),
        back_of(s) == Some(s[0]),
        popped_front(s).len() == 0,
        popped_back(s).len() == 0,
{
}

} // verus!
