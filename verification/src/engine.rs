//! The copy engine: fills a buffer with the first run and then, for each
//! later run, the separator and the run. The routine that does the copying is
//! chosen by the separator's length; all of them write the same units.

use vstd::prelude::*;
use crate::model::{
    joined,
    lemma_joined_len,
    lemma_separated_tail_step,
    planned_length,
    separated_tail,
};
use crate::units::{runs_of, UnitRun};

verus! {

/// Appends `units` to `target`, unit by unit.
pub fn copy_slice_and_advance<T: Copy>(target: &mut Vec<T>, units: &[T])
    ensures
        final(target)@ == old(target)@ + units@,
{
    let n = units.len();
    let mut i: usize = 0;
    while i < n
        invariant
            i <= n,
            n == units@.len(),
            target@ == old(target)@ + units@.take(i as int),
        decreases n - i,
    {
        target.push(units[i]);
        assert(units@.take(i + 1) =~= units@.take(i as int).push(units@[i as int]));
        i += 1;
    }
    assert(units@.take(n as int) =~= units@);
}

/// The later runs with no separator: plain concatenation.
fn append_unseparated<T: Copy, S: UnitRun<T>>(target: &mut Vec<T>, elements: &[S])
    requires
        elements.len() >= 1,
    ensures
        final(target)@ == old(target)@ + separated_tail(runs_of(elements@), Seq::empty()),
{
    let ghost runs = runs_of(elements@);
    let ghost sep = Seq::<T>::empty();
    let n = elements.len();
    let mut i: usize = 1;
    while i < n
        invariant
            1 <= i <= n,
            n == elements.len(),
            runs == runs_of(elements@),
            sep == Seq::<T>::empty(),
            target@ == old(target)@ + separated_tail(runs.take(i as int), sep),
        decreases n - i,
    {
        copy_slice_and_advance(target, elements[i].as_units());
        proof {
            lemma_separated_tail_step(runs, sep, i as int);
            assert(target@ =~= old(target)@ + separated_tail(runs.take(i + 1), sep));
        }
        i += 1;
    }
    assert(runs.take(n as int) =~= runs);
}

/// The later runs behind a separator of one unit.
fn append_separated_1<T: Copy, S: UnitRun<T>>(target: &mut Vec<T>, elements: &[S], a: T)
    requires
        elements.len() >= 1,
    ensures
        final(target)@ == old(target)@ + separated_tail(runs_of(elements@), seq![a]),
{
    let ghost runs = runs_of(elements@);
    let ghost sep = seq![a];
    let n = elements.len();
    let mut i: usize = 1;
    while i < n
        invariant
            1 <= i <= n,
            n == elements.len(),
            runs == runs_of(elements@),
            sep == seq![a],
            target@ == old(target)@ + separated_tail(runs.take(i as int), sep),
        decreases n - i,
    {
        target.push(a);
        copy_slice_and_advance(target, elements[i].as_units());
        proof {
            lemma_separated_tail_step(runs, sep, i as int);
            assert(target@ =~= old(target)@ + separated_tail(runs.take(i + 1), sep));
        }
        i += 1;
    }
    assert(runs.take(n as int) =~= runs);
}

/// The later runs behind a separator of two units.
fn append_separated_2<T: Copy, S: UnitRun<T>>(target: &mut Vec<T>, elements: &[S], a: T, b: T)
    requires
        elements.len() >= 1,
    ensures
        final(target)@ == old(target)@ + separated_tail(runs_of(elements@), seq![a, b]),
{
    let ghost runs = runs_of(elements@);
    let ghost sep = seq![a, b];
    let n = elements.len();
    let mut i: usize = 1;
    while i < n
        invariant
            1 <= i <= n,
            n == elements.len(),
            runs == runs_of(elements@),
            sep == seq![a, b],
            target@ == old(target)@ + separated_tail(runs.take(i as int), sep),
        decreases n - i,
    {
        target.push(a);
        target.push(b);
        copy_slice_and_advance(target, elements[i].as_units());
        proof {
            lemma_separated_tail_step(runs, sep, i as int);
            assert(target@ =~= old(target)@ + separated_tail(runs.take(i + 1), sep));
        }
        i += 1;
    }
    assert(runs.take(n as int) =~= runs);
}

/// The later runs behind a separator of three units.
fn append_separated_3<T: Copy, S: UnitRun<T>>(
    target: &mut Vec<T>,
    elements: &[S],
    a: T,
    b: T,
    c: T,
)
    requires
        elements.len() >= 1,
    ensures
        final(target)@ == old(target)@ + separated_tail(runs_of(elements@), seq![a, b, c]),
{
    let ghost runs = runs_of(elements@);
    let ghost sep = seq![a, b, c];
    let n = elements.len();
    let mut i: usize = 1;
    while i < n
        invariant
            1 <= i <= n,
            n == elements.len(),
            runs == runs_of(elements@),
            sep == seq![a, b, c],
            target@ == old(target)@ + separated_tail(runs.take(i as int), sep),
        decreases n - i,
    {
        target.push(a);
        target.push(b);
        target.push(c);
        copy_slice_and_advance(target, elements[i].as_units());
        proof {
            lemma_separated_tail_step(runs, sep, i as int);
            assert(target@ =~= old(target)@ + separated_tail(runs.take(i + 1), sep));
        }
        i += 1;
    }
    assert(runs.take(n as int) =~= runs);
}

/// The later runs behind a separator of four units.
fn append_separated_4<T: Copy, S: UnitRun<T>>(
    target: &mut Vec<T>,
    elements: &[S],
    a: T,
    b: T,
    c: T,
    d: T,
)
    requires
        elements.len() >= 1,
    ensures
        final(target)@ == old(target)@ + separated_tail(runs_of(elements@), seq![a, b, c, d]),
{
    let ghost runs = runs_of(elements@);
    let ghost sep = seq![a, b, c, d];
    let n = elements.len();
    let mut i: usize = 1;
    while i < n
        invariant
            1 <= i <= n,
            n == elements.len(),
            runs == runs_of(elements@),
            sep == seq![a, b, c, d],
            target@ == old(target)@ + separated_tail(runs.take(i as int), sep),
        decreases n - i,
    {
        target.push(a);
        target.push(b);
        target.push(c);
        target.push(d);
        copy_slice_and_advance(target, elements[i].as_units());
        proof {
            lemma_separated_tail_step(runs, sep, i as int);
            assert(target@ =~= old(target)@ + separated_tail(runs.take(i + 1), sep));
        }
        i += 1;
    }
    assert(runs.take(n as int) =~= runs);
}

/// The later runs behind a separator of any length.
fn append_separated<T: Copy, S: UnitRun<T>>(target: &mut Vec<T>, elements: &[S], sep: &[T])
    requires
        elements.len() >= 1,
    ensures
        final(target)@ == old(target)@ + separated_tail(runs_of(elements@), sep@),
{
    let ghost runs = runs_of(elements@);
    let n = elements.len();
    let mut i: usize = 1;
    while i < n
        invariant
            1 <= i <= n,
            n == elements.len(),
            runs == runs_of(elements@),
            target@ == old(target)@ + separated_tail(runs.take(i as int), sep@),
        decreases n - i,
    {
        copy_slice_and_advance(target, sep);
        copy_slice_and_advance(target, elements[i].as_units());
        proof {
            lemma_separated_tail_step(runs, sep@, i as int);
            assert(target@ =~= old(target)@ + separated_tail(runs.take(i + 1), sep@));
        }
        i += 1;
    }
    assert(runs.take(n as int) =~= runs);
}

/// Appends the join of `elements` with `sep` to `buffer`: the first run, then
/// for each later run the separator and the run.
///
/// Separators of up to four units go through a routine of their own width;
/// whichever routine runs, the units written are the same, and there are as
/// many of them as were planned: a buffer reserved for the planned length
/// never has to grow.
pub fn fill<T: Copy, S: UnitRun<T>>(buffer: &mut Vec<T>, elements: &[S], sep: &[T])
    ensures
        final(buffer)@ == old(buffer)@ + joined(runs_of(elements@), sep@),
        final(buffer)@.len() == old(buffer)@.len() + planned_length(
            runs_of(elements@),
            sep@.len(),
        ),
{
    proof {
        lemma_joined_len(runs_of(elements@), sep@);
    }
    if elements.len() == 0 {
        assert(buffer@ =~= old(buffer)@ + joined(runs_of(elements@), sep@));
        return ;
    }
    copy_slice_and_advance(buffer, elements[0].as_units());
    match sep.len() {
        0 => {
            assert(sep@ =~= Seq::empty());
            append_unseparated(buffer, elements);
        },
        1 => {
            assert(sep@ =~= seq![sep@[0]]);
            append_separated_1(buffer, elements, sep[0]);
        },
        2 => {
            assert(sep@ =~= seq![sep@[0], sep@[1]]);
            append_separated_2(buffer, elements, sep[0], sep[1]);
        },
        3 => {
            assert(sep@ =~= seq![sep@[0], sep@[1], sep@[2]]);
            append_separated_3(buffer, elements, sep[0], sep[1], sep[2]);
        },
        4 => {
            assert(sep@ =~= seq![sep@[0], sep@[1], sep@[2], sep@[3]]);
            append_separated_4(buffer, elements, sep[0], sep[1], sep[2], sep[3]);
        },
        _ => {
            append_separated(buffer, elements, sep);
        },
    }
    assert(buffer@ =~= old(buffer)@ + joined(runs_of(elements@), sep@));
}

} // verus!
