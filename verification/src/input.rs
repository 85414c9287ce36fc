//! The queue of typed characters waiting for the kernel shell.
use vstd::prelude::*;
use std::collections::VecDeque;

verus! {

/// Room reserved in a new input queue.
pub const INPUT_QUEUE_CAPACITY: usize = 256;

/// A new, empty input queue.
pub fn init_input() -> (q: VecDeque<char>)
    ensures
        q@ == Seq::<char>::empty(),
{
    VecDeque::with_capacity(INPUT_QUEUE_CAPACITY)
}

/// What taking a character from a queue gives, and the queue it leaves:
/// the oldest character, or nothing from an empty queue.
pub open spec fn popped(q: Seq<char>) -> (Option<char>, Seq<char>) {
    if q.len() == 0 {
        (None, q)
    } else {
        (Some(q[0]), q.drop_first())
    }
}

/// The queue after `keys` were queued one after another.
pub open spec fn pushed_keys(q: Seq<char>, keys: Seq<char>) -> Seq<char>
    decreases keys.len(),
{
    if keys.len() == 0 {
        q
    } else {
        pushed_keys(q, keys.drop_last()).push(keys.last())
    }
}

/// What `k` takes in a row give.
pub open spec fn pops(q: Seq<char>, k: nat) -> Seq<Option<char>>
    decreases k,
{
    if k == 0 {
        Seq::empty()
    } else {
        seq![popped(q).0] + pops(popped(q).1, (k - 1) as nat)
    }
}

/// The queue is first in, first out: after a new queue took `keys`, one
/// after another, the next `keys.len()` takes give them back in the order
/// they were typed, nothing lost or repeated, and the take after them gives
/// nothing.
pub proof fn keys_come_out_in_typing_order(keys: Seq<char>)
    ensures
        pushed_keys(Seq::empty(), keys) == keys,
        pops(pushed_keys(Seq::empty(), keys), keys.len() + 1) == keys.map_values(|c: char| Some(c)).push(None),
{
    lemma_pushed_keys_from_empty(keys);
    lemma_pops_all(keys);
}

proof fn lemma_pushed_keys_from_empty(keys: Seq<char>)
    ensures
        pushed_keys(Seq::empty(), keys) == keys,
    decreases keys.len(),
{
    if keys.len() > 0 {
        lemma_pushed_keys_from_empty(keys.drop_last());
        assert(keys.drop_last().push(keys.last()) =~= keys);
    }
}

proof fn lemma_pops_all(q: Seq<char>)
    ensures
        pops(q, q.len() + 1) == q.map_values(|c: char| Some(c)).push(None),
    decreases q.len(),
{
    if q.len() == 0 {
        assert(pops(q, 0) == Seq::<Option<char>>::empty());
        assert(pops(q, 1) =~= seq![None::<char>]);
        assert(q.map_values(|c: char| Some(c)).push(None) =~= seq![None::<char>]);
    } else {
        lemma_pops_all(q.drop_first());
        assert(popped(q) == (Some(q[0]), q.drop_first()));
        assert(seq![Some(q[0])] + q.drop_first().map_values(|c: char| Some(c)).push(None) =~= q.map_values(
            |c: char| Some(c),
        ).push(None));
    }
}

/// Takes the oldest queued character, if any.
pub fn pop_key(queue: &mut VecDeque<char>) -> (c: Option<char>)
    ensures
        (c, final(queue)@) == popped(old(queue)@),
        old(queue)@.len() == 0 ==> c is None && final(queue)@ == old(queue)@,
        old(queue)@.len() > 0 ==> c == Some(old(queue)@[0]) && final(queue)@ == old(queue)@.drop_first(),
{
    queue.pop_front()
}

/// Queues a typed character.
pub fn push_key(queue: &mut VecDeque<char>, c: char)
    ensures
        final(queue)@ == old(queue)@.push(c),
{
    queue.push_back(c);
}

} // verus!
