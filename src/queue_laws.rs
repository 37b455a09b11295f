use vstd::prelude::*;

use crate::reference_queue::pop_step;

verus! {

/// The contents after pushing `values`, first to last, onto a queue holding `q`.
pub open spec fn push_all(q: Seq<i32>, values: Seq<i32>) -> Seq<i32>
    decreases values.len(),
{
    if values.len() == 0 {
        q
    } else {
        push_all(q.push(values[0]), values.drop_first())
    }
}

/// What `k` pops in a row return, and the contents they leave, starting from
/// contents `q`.
pub open spec fn pop_n(q: Seq<i32>, k: nat) -> (Seq<Option<i32>>, Seq<i32>)
    decreases k,
{
    if k == 0 {
        (Seq::empty(), q)
    } else {
        let (r, rest) = pop_step(q);
        let (rs, last) = pop_n(rest, (k - 1) as nat);
        (seq![r] + rs, last)
    }
}

/// Pushing appends: the contents after a run of pushes are the old contents
/// followed by the pushed values.
pub proof fn lemma_push_all_appends(q: Seq<i32>, values: Seq<i32>)
    ensures
        push_all(q, values) == q + values,
    decreases values.len(),
{
    if values.len() > 0 {
        lemma_push_all_appends(q.push(values[0]), values.drop_first());
        assert(q.push(values[0]) + values.drop_first() =~= q + values);
    }
}

/// Popping takes from the front: `k` pops, no more than the queue holds,
/// return its first `k` values in order and leave the rest.
pub proof fn lemma_pop_n_takes_front(q: Seq<i32>, k: nat)
    requires
        k <= q.len(),
    ensures
        pop_n(q, k).0 == q.take(k as int).map_values(|v: i32| Some(v)),
        pop_n(q, k).1 == q.skip(k as int),
    decreases k,
{
    if k > 0 {
        lemma_pop_n_takes_front(q.drop_first(), (k - 1) as nat);
        assert(seq![Some(q[0])] + q.drop_first().take(k - 1).map_values(|v: i32| Some(v))
            =~= q.take(k as int).map_values(|v: i32| Some(v)));
        assert(q.drop_first().skip(k - 1) =~= q.skip(k as int));
    }
}

/// First in, first out: `values.len()` pushes onto an empty queue followed by
/// as many pops return exactly `values`, in push order, and leave the queue
/// empty.
pub proof fn lemma_fifo_order(values: Seq<i32>)
    ensures
        pop_n(push_all(Seq::empty(), values), values.len()) == (
            values.map_values(|v: i32| Some(v)),
            Seq::<i32>::empty(),
        ),
{
    lemma_push_all_appends(Seq::empty(), values);
    assert(Seq::<i32>::empty() + values =~= values);
    lemma_pop_n_takes_front(values, values.len());
    assert(values.take(values.len() as int) =~= values);
    assert(values.skip(values.len() as int) =~= Seq::<i32>::empty());
}

/// A drained queue stays drained: any number of pops on an empty queue all
/// return `None` and leave it empty.
pub proof fn lemma_drained_stays_empty(k: nat)
    ensures
        pop_n(Seq::empty(), k) == (Seq::new(k, |i: int| None::<i32>), Seq::<i32>::empty()),
    decreases k,
{
    if k > 0 {
        lemma_drained_stays_empty((k - 1) as nat);
        assert(seq![None::<i32>] + Seq::new((k - 1) as nat, |i: int| None::<i32>) =~= Seq::new(
            k,
            |i: int| None::<i32>,
        ));
    }
}

} // verus!
