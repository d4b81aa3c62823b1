//! Single-allocation joining of unit runs: the elements of a sequence are
//! copied into one freshly sized buffer with a separator between neighbours.
//!
//! [`join_generic`] plans the exact length with checked arithmetic, allocates
//! once and fills the buffer; [`join_new`] does the same for text. The two
//! functions defined here are the plain way to join, kept to compare against:
//! they reserve generously and append run after run, cloning each unit.

use vstd::prelude::*;

pub mod engine;
pub mod join;
pub mod model;
pub mod planner;
pub mod text;
pub mod units;

pub use engine::{copy_slice_and_advance, fill};
pub use join::{concat_new_vec, join_generic, join_new_vec};
pub use planner::{plan_length, CapacityOverflow};
pub use text::join_new;
pub use units::{TextRun, UnitRun};

use model::{
    concatenated,
    joined,
    lemma_joined_empty_separator,
    lemma_separated_tail_step,
    separated_tail,
    total_units,
};
use units::runs_of;

verus! {

/// `copy` holds, position by position, a clone of each unit of `source`.
pub open spec fn clones_of<T: Clone>(source: Seq<T>, copy: Seq<T>) -> bool {
    &&& copy.len() == source.len()
    &&& forall|i: int| 0 <= i < source.len() ==> cloned(#[trigger] source[i], copy[i])
}

/// The capacity that the plain joins ask for: every unit, and one more for
/// each element.
fn generous_capacity<T, V: UnitRun<T>>(slice: &[V]) -> (capacity: Result<usize, CapacityOverflow>)
    ensures
        capacity is Ok <==> total_units(runs_of(slice@)) + slice.len() <= usize::MAX,
        capacity matches Ok(n) ==> n == total_units(runs_of(slice@)) + slice.len(),
{
    proof {
        lemma_joined_empty_separator(runs_of(slice@));
    }
    let size = match plan_length(slice, 0) {
        Ok(size) => size,
        Err(overflow) => {
            return Err(overflow);
        },
    };
    match size.checked_add(slice.len()) {
        Some(n) => Ok(n),
        None => Err(CapacityOverflow),
    }
}

/// Joins the runs of `slice` with a clone of `sep` between each two
/// neighbours, appending to a buffer reserved for every unit and one more for
/// each element.
///
/// Fails exactly when that reservation would be larger than `usize::MAX`.
pub fn trivial_join_new_vec<T: Clone, V: UnitRun<T>>(slice: &[V], sep: &T) -> (out: Result<
    Vec<T>,
    CapacityOverflow,
>)
    ensures
        out is Ok <==> total_units(runs_of(slice@)) + slice.len() <= usize::MAX,
        out matches Ok(buffer) ==> clones_of(joined(runs_of(slice@), seq![*sep]), buffer@),
{
    let ghost runs = runs_of(slice@);
    let ghost separator = seq![*sep];
    let n = slice.len();
    if n == 0 {
        return Ok(Vec::new());
    }
    let capacity = match generous_capacity(slice) {
        Ok(capacity) => capacity,
        Err(overflow) => {
            return Err(overflow);
        },
    };
    let mut result = Vec::with_capacity(capacity);
    result.extend_from_slice(slice[0].as_units());
    assert(runs.take(1).first() == runs[0]);
    let mut i: usize = 1;
    while i < n
        invariant
            1 <= i <= n,
            n == slice.len(),
            runs == runs_of(slice@),
            separator == seq![*sep],
            clones_of(runs[0] + separated_tail(runs.take(i as int), separator), result@),
        decreases n - i,
    {
        let ghost before = result@;
        let ghost written = runs[0] + separated_tail(runs.take(i as int), separator);
        result.push(sep.clone());
        result.extend_from_slice(slice[i].as_units());
        proof {
            lemma_separated_tail_step(runs, separator, i as int);
            let longer = runs[0] + separated_tail(runs.take(i + 1), separator);
            assert(longer =~= written + separator + runs[i as int]);
            assert forall|k: int| 0 <= k < longer.len() implies cloned(
                #[trigger] longer[k],
                result@[k],
            ) by {
                if k < written.len() {
                    assert(longer[k] == written[k]);
                    assert(result@[k] == before[k]);
                } else if k == written.len() {
                    assert(longer[k] == *sep);
                } else {
                    assert(longer[k] == runs[i as int][k - written.len() - 1]);
                }
            }
        }
        i += 1;
    }
    assert(runs.take(n as int) =~= runs);
    Ok(result)
}

/// Concatenates the runs of `slice`, cloning each unit, into a buffer
/// reserved for every unit and one more for each element.
///
/// Fails exactly when that reservation would be larger than `usize::MAX`.
pub fn concat<T: Clone, V: UnitRun<T>>(slice: &[V]) -> (out: Result<Vec<T>, CapacityOverflow>)
    ensures
        out is Ok <==> total_units(runs_of(slice@)) + slice.len() <= usize::MAX,
        out matches Ok(buffer) ==> clones_of(concatenated(runs_of(slice@)), buffer@),
{
    let ghost runs = runs_of(slice@);
    let n = slice.len();
    let capacity = match generous_capacity(slice) {
        Ok(capacity) => capacity,
        Err(overflow) => {
            return Err(overflow);
        },
    };
    let mut result = Vec::with_capacity(capacity);
    let mut i: usize = 0;
    while i < n
        invariant
            0 <= i <= n,
            n == slice.len(),
            runs == runs_of(slice@),
            clones_of(concatenated(runs.take(i as int)), result@),
        decreases n - i,
    {
        let ghost before = result@;
        let ghost written = concatenated(runs.take(i as int));
        result.extend_from_slice(slice[i].as_units());
        proof {
            assert(runs.take(i + 1).drop_last() =~= runs.take(i as int));
            let longer = concatenated(runs.take(i + 1));
            assert(longer =~= written + runs[i as int]);
            assert forall|k: int| 0 <= k < longer.len() implies cloned(
                #[trigger] longer[k],
                result@[k],
            ) by {
                if k < written.len() {
                    assert(longer[k] == written[k]);
                    assert(result@[k] == before[k]);
                } else {
                    assert(longer[k] == runs[i as int][k - written.len()]);
                }
            }
        }
        i += 1;
    }
    assert(runs.take(n as int) =~= runs);
    Ok(result)
}

} // verus!
