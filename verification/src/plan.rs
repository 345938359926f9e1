//! Plans: steps that are carried out one after the other, each changing a state.
use vstd::prelude::*;

verus! {

/// The parts of all items, one after the other.
pub open spec fn joined<T, A>(items: Seq<T>, part: spec_fn(T) -> Seq<A>) -> Seq<A>
    decreases items.len(),
{
    if items.len() == 0 {
        Seq::empty()
    } else {
        joined(items.drop_last(), part) + part(items.last())
    }
}

/// A plan in two parts is carried out one part after the other.
pub proof fn lemma_two_parts<S, A>(st: S, a: Seq<A>, b: Seq<A>, step: spec_fn(S, A) -> S)
    ensures
        (a + b).fold_left(st, step) == b.fold_left(a.fold_left(st, step), step),
{
    let mid = a.len() as int;
    (a + b).lemma_fold_left_split(st, step, mid);
    assert((a + b).subrange(0, mid) == a);
    assert((a + b).subrange(mid, (a + b).len() as int) == b);
}

/// What a plan of one step does.
pub proof fn lemma_one_step<S, A>(st: S, plan: Seq<A>, step: spec_fn(S, A) -> S)
    requires
        plan.len() == 1,
    ensures
        plan.fold_left(st, step) == step(st, plan[0]),
{
    reveal_with_fuel(Seq::fold_left, 2);
}

/// What a plan of two steps does.
pub proof fn lemma_two_steps<S, A>(st: S, plan: Seq<A>, step: spec_fn(S, A) -> S)
    requires
        plan.len() == 2,
    ensures
        plan.fold_left(st, step) == step(step(st, plan[0]), plan[1]),
{
    reveal_with_fuel(Seq::fold_left, 3);
}

/// Where each part leads from what the items before it reached to what is reached with it, all
/// parts lead to what all items reach.
pub proof fn lemma_after_joined<S, T, A>(
    items: Seq<T>,
    part: spec_fn(T) -> Seq<A>,
    step: spec_fn(S, A) -> S,
    reached: spec_fn(Seq<T>) -> S,
)
    requires
        forall|done: Seq<T>|
            done.len() > 0 ==> part(done.last()).fold_left(reached(done.drop_last()), step)
                == #[trigger] reached(done),
    ensures
        joined(items, part).fold_left(reached(Seq::empty()), step) == reached(items),
    decreases items.len(),
{
    if items.len() == 0 {
        assert(items == Seq::<T>::empty());
    } else {
        lemma_after_joined(items.drop_last(), part, step, reached);
        let before = joined(items.drop_last(), part);
        lemma_two_parts(reached(Seq::empty()), before, part(items.last()), step);
    }
}

/// A step is in the plan of all items exactly if it is in the part of one.
pub proof fn lemma_joined_contains<T, A>(items: Seq<T>, part: spec_fn(T) -> Seq<A>, e: A)
    ensures
        joined(items, part).contains(e) <==> exists|t: T| #[trigger]
            items.contains(t) && part(t).contains(e),
    decreases items.len(),
{
    if items.len() > 0 {
        let front = items.drop_last();
        let before = joined(front, part);
        let own = part(items.last());
        lemma_joined_contains(front, part, e);
        vstd::seq_lib::lemma_seq_concat_contains_all_elements(before, own, e);
        if before.contains(e) {
            let t = choose|t: T| #[trigger] front.contains(t) && part(t).contains(e);
            let i = choose|i: int| 0 <= i < front.len() && front[i] == t;
            assert(items[i] == t);
            assert(items.contains(t));
        }
        if own.contains(e) {
            assert(items[items.len() - 1] == items.last());
            assert(items.contains(items.last()));
        }
        if exists|t: T| #[trigger] items.contains(t) && part(t).contains(e) {
            let t = choose|t: T| #[trigger] items.contains(t) && part(t).contains(e);
            let i = choose|i: int| 0 <= i < items.len() && items[i] == t;
            if i < front.len() {
                assert(front[i] == t);
                assert(front.contains(t));
            }
        }
    }
}

} // verus!
