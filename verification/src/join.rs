//! The join itself: plan the exact length, allocate once, fill.

use vstd::prelude::*;
use crate::engine::fill;
use crate::model::{
    concatenated,
    joined,
    lemma_joined_empty_separator,
    lemma_joined_len,
    planned_length,
    total_units,
};
use crate::planner::{plan_length, CapacityOverflow};
use crate::units::{runs_of, UnitRun};

verus! {

/// Joins the runs of `slice` with `sep` between each two neighbours, into one
/// buffer allocated at its final length.
///
/// Fails, before anything is allocated, exactly when the output would be
/// longer than `usize::MAX` units.
pub fn join_generic<T: Copy, S: UnitRun<T>>(slice: &[S], sep: &[T]) -> (out: Result<
    Vec<T>,
    CapacityOverflow,
>)
    ensures
        out is Ok <==> planned_length(runs_of(slice@), sep@.len()) <= usize::MAX,
        out matches Ok(buffer) ==> {
            &&& buffer@ == joined(runs_of(slice@), sep@)
            &&& buffer@.len() == planned_length(runs_of(slice@), sep@.len())
        },
{
    let len = match plan_length(slice, sep.len()) {
        Ok(len) => len,
        Err(overflow) => {
            return Err(overflow);
        },
    };
    let mut result = Vec::with_capacity(len);
    fill(&mut result, slice, sep);
    proof {
        lemma_joined_len(runs_of(slice@), sep@);
        assert(result@ =~= joined(runs_of(slice@), sep@));
    }
    Ok(result)
}

/// Joins the runs of `slice` with the single unit `sep` between each two
/// neighbours.
pub fn join_new_vec<T: Copy, S: UnitRun<T>>(slice: &[S], sep: &T) -> (out: Result<
    Vec<T>,
    CapacityOverflow,
>)
    ensures
        out is Ok <==> planned_length(runs_of(slice@), 1) <= usize::MAX,
        out matches Ok(buffer) ==> buffer@ == joined(runs_of(slice@), seq![*sep]),
{
    let separator = [*sep];
    assert(separator@ =~= seq![*sep]);
    join_generic(slice, separator.as_slice())
}

/// Concatenates the runs of `slice`: the join with an empty separator.
pub fn concat_new_vec<T: Copy, S: UnitRun<T>>(slice: &[S]) -> (out: Result<
    Vec<T>,
    CapacityOverflow,
>)
    ensures
        out is Ok <==> total_units(runs_of(slice@)) <= usize::MAX,
        out matches Ok(buffer) ==> buffer@ == concatenated(runs_of(slice@)),
{
    let separator: [T; 0] = [];
    assert(separator@ =~= Seq::empty());
    proof {
        lemma_joined_empty_separator(runs_of(slice@));
    }
    join_generic(slice, separator.as_slice())
}

/// Joining with an empty separator is concatenating: the two calls fail
/// together or give the same units.
pub proof fn lemma_join_with_empty_separator_is_concat<T: Copy, S: UnitRun<T>>(
    slice: &[S],
    sep: &[T],
    joined_out: Result<Vec<T>, CapacityOverflow>,
    concat_out: Result<Vec<T>, CapacityOverflow>,
)
    requires
        sep@.len() == 0,
        call_ensures(join_generic::<T, S>, (slice, sep), joined_out),
        call_ensures(concat_new_vec::<T, S>, (slice,), concat_out),
    ensures
        joined_out is Ok <==> concat_out is Ok,
        joined_out is Ok ==> joined_out->Ok_0@ == concat_out->Ok_0@,
{
    assert(sep@ =~= Seq::empty());
    lemma_joined_empty_separator(runs_of(slice@));
}

/// Joining no elements succeeds and gives the empty run, whatever the
/// separator.
pub proof fn lemma_join_of_nothing_is_empty<T: Copy, S: UnitRun<T>>(
    slice: &[S],
    sep: &[T],
    out: Result<Vec<T>, CapacityOverflow>,
)
    requires
        slice@.len() == 0,
        call_ensures(join_generic::<T, S>, (slice, sep), out),
    ensures
        out is Ok,
        out->Ok_0@ == Seq::<T>::empty(),
{
}

/// A join is a function of the runs and the separator: two calls on inputs
/// that hold the same units fail together or give the same units.
pub proof fn lemma_join_generic_deterministic<T: Copy, S: UnitRun<T>>(
    slice: &[S],
    sep: &[T],
    out: Result<Vec<T>, CapacityOverflow>,
    slice_again: &[S],
    sep_again: &[T],
    out_again: Result<Vec<T>, CapacityOverflow>,
)
    requires
        runs_of(slice@) == runs_of(slice_again@),
        sep@ == sep_again@,
        call_ensures(join_generic::<T, S>, (slice, sep), out),
        call_ensures(join_generic::<T, S>, (slice_again, sep_again), out_again),
    ensures
        out is Ok <==> out_again is Ok,
        out is Err ==> out == out_again,
        out is Ok ==> out->Ok_0@ == out_again->Ok_0@,
{
    if out is Err {
        assert(out->Err_0 == out_again->Err_0);
    }
}

} // verus!
