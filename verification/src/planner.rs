//! The capacity planner: the exact output length, or the one failure of a join.

use vstd::prelude::*;
use crate::model::{lemma_total_units_prefix, lemma_total_units_step, planned_length, total_units};
use crate::units::{runs_of, UnitRun};

verus! {

/// The output would be longer than `usize::MAX` units.
#[derive(Debug, Clone, Copy, PartialEq, Eq, Structural)]
pub struct CapacityOverflow;

impl CapacityOverflow {
    /// The failure in words.
    pub fn message(&self) -> (text: String)
        ensures
            text@ == "attempt to join into collection with len > usize::MAX"@,
    {
        "attempt to join into collection with len > usize::MAX".to_owned()
    }
}

/// Computes the exact length of the join of `elements` with a separator of
/// `sep_len` units, with every step checked for overflow.
///
/// Fails exactly when that length does not fit in `usize`.
pub fn plan_length<T, S: UnitRun<T>>(elements: &[S], sep_len: usize) -> (plan: Result<
    usize,
    CapacityOverflow,
>)
    ensures
        plan is Ok <==> planned_length(runs_of(elements@), sep_len as nat) <= usize::MAX,
        plan matches Ok(len) ==> len == planned_length(runs_of(elements@), sep_len as nat),
{
    let ghost runs = runs_of(elements@);
    let count = elements.len();
    if count == 0 {
        return Ok(0);
    }
    let separators = match sep_len.checked_mul(count - 1) {
        Some(n) => n,
        None => {
            return Err(CapacityOverflow);
        },
    };
    let mut len = separators;
    let mut i: usize = 0;
    while i < count
        invariant
            0 <= i <= count,
            count == elements.len(),
            count > 0,
            runs == runs_of(elements@),
            separators == sep_len * (count - 1),
            len == separators + total_units(runs.take(i as int)),
        decreases count - i,
    {
        let run_len = elements[i].as_units().len();
        proof {
            lemma_total_units_step(runs, i as int);
            lemma_total_units_prefix(runs, i + 1);
        }
        len = match len.checked_add(run_len) {
            Some(n) => n,
            None => {
                return Err(CapacityOverflow);
            },
        };
        i += 1;
    }
    proof {
        assert(runs.take(count as int) =~= runs);
    }
    Ok(len)
}

} // verus!
