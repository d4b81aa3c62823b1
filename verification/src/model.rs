//! The mathematical model of a join: what the output holds and how long it is.

use vstd::prelude::*;

verus! {

/// The number of units in all the runs together.
pub open spec fn total_units<T>(runs: Seq<Seq<T>>) -> nat
    decreases runs.len(),
{
    if runs.len() == 0 {
        0
    } else {
        total_units(runs.drop_last()) + runs.last().len()
    }
}

/// The exact length of the output for the given runs and a separator of
/// `sep_len` units: every run, and one separator between each two neighbours.
pub open spec fn planned_length<T>(runs: Seq<Seq<T>>, sep_len: nat) -> nat {
    if runs.len() == 0 {
        0
    } else {
        sep_len * ((runs.len() - 1) as nat) + total_units(runs)
    }
}

/// The runs one after another, with nothing between them.
pub open spec fn concatenated<T>(runs: Seq<Seq<T>>) -> Seq<T>
    decreases runs.len(),
{
    if runs.len() == 0 {
        Seq::empty()
    } else {
        concatenated(runs.drop_last()) + runs.last()
    }
}

/// What follows the first run in a join: for each later run, in order, the
/// separator and then the run.
pub open spec fn separated_tail<T>(runs: Seq<Seq<T>>, sep: Seq<T>) -> Seq<T>
    decreases runs.len(),
{
    if runs.len() <= 1 {
        Seq::empty()
    } else {
        separated_tail(runs.drop_last(), sep) + sep + runs.last()
    }
}

/// The runs in order with `sep` between each two neighbours.
pub open spec fn joined<T>(runs: Seq<Seq<T>>, sep: Seq<T>) -> Seq<T> {
    if runs.len() == 0 {
        Seq::empty()
    } else {
        runs.first() + separated_tail(runs, sep)
    }
}

/// The position in the output at which run `k` starts: after the `k` runs
/// before it and the `k` separators that follow them.
pub open spec fn run_start<T>(runs: Seq<Seq<T>>, sep_len: nat, k: int) -> nat {
    total_units(runs.take(k)) + k as nat * sep_len
}

/// Taking one more run adds that run's units to the total.
pub proof fn lemma_total_units_step<T>(runs: Seq<Seq<T>>, i: int)
    requires
        0 <= i < runs.len(),
    ensures
        total_units(runs.take(i + 1)) == total_units(runs.take(i)) + runs[i].len(),
{
    assert(runs.take(i + 1).drop_last() =~= runs.take(i));
}

/// A prefix of the runs holds no more units than all of them.
pub proof fn lemma_total_units_prefix<T>(runs: Seq<Seq<T>>, i: int)
    requires
        0 <= i <= runs.len(),
    ensures
        total_units(runs.take(i)) <= total_units(runs),
    decreases runs.len() - i,
{
    if i == runs.len() {
        assert(runs.take(i) =~= runs);
    } else {
        lemma_total_units_step(runs, i);
        lemma_total_units_prefix(runs, i + 1);
    }
}

/// Taking one more run, after the first, adds the separator and that run.
pub proof fn lemma_separated_tail_step<T>(runs: Seq<Seq<T>>, sep: Seq<T>, i: int)
    requires
        1 <= i < runs.len(),
    ensures
        separated_tail(runs.take(i + 1), sep) == separated_tail(runs.take(i), sep) + sep + runs[i],
{
    assert(runs.take(i + 1).drop_last() =~= runs.take(i));
}

/// The first run and what follows it hold as many units as were planned.
proof fn lemma_separated_tail_len<T>(runs: Seq<Seq<T>>, sep: Seq<T>)
    requires
        runs.len() >= 1,
    ensures
        runs.first().len() + separated_tail(runs, sep).len() == planned_length(runs, sep.len()),
    decreases runs.len(),
{
    let front = runs.drop_last();
    if runs.len() == 1 {
        assert(total_units(front) == 0);
    } else {
        lemma_separated_tail_len(front, sep);
        assert(front.first() == runs.first());
        let n = runs.len() as int;
        assert(sep.len() * (n - 2) + sep.len() == sep.len() * (n - 1)) by (nonlinear_arith);
    }
}

/// With nothing between them, the first run and what follows it are the
/// concatenation.
proof fn lemma_separated_tail_unseparated<T>(runs: Seq<Seq<T>>)
    requires
        runs.len() >= 1,
    ensures
        runs.first() + separated_tail(runs, Seq::empty()) =~= concatenated(runs),
    decreases runs.len(),
{
    let front = runs.drop_last();
    if runs.len() == 1 {
        assert(concatenated(front) =~= Seq::<T>::empty());
    } else {
        lemma_separated_tail_unseparated(front);
        assert(front.first() == runs.first());
    }
}

/// The output of a join holds exactly as many units as were planned for it.
pub proof fn lemma_joined_len<T>(runs: Seq<Seq<T>>, sep: Seq<T>)
    ensures
        joined(runs, sep).len() == planned_length(runs, sep.len()),
{
    if runs.len() >= 1 {
        lemma_separated_tail_len(runs, sep);
    }
}

/// Joining with an empty separator is concatenation, and is planned as the
/// total of the runs.
pub proof fn lemma_joined_empty_separator<T>(runs: Seq<Seq<T>>)
    ensures
        joined(runs, Seq::empty()) == concatenated(runs),
        planned_length(runs, 0) == total_units(runs),
{
    if runs.len() >= 1 {
        lemma_separated_tail_unseparated(runs);
    }
}

/// The join of two or more runs is the join of all but the last, then the
/// separator, then the last.
pub proof fn lemma_joined_last<T>(runs: Seq<Seq<T>>, sep: Seq<T>)
    requires
        runs.len() >= 2,
    ensures
        joined(runs, sep) == joined(runs.drop_last(), sep) + sep + runs.last(),
{
    assert(runs.drop_last().first() == runs.first());
    assert(joined(runs, sep) =~= joined(runs.drop_last(), sep) + sep + runs.last());
}

/// Where everything stands in the output. Run `k` is found whole at its
/// start; the first run starts at 0; each later run starts one separator
/// behind the end of the run before it, and that separator is found whole
/// between them; the output ends where the last run ends.
pub proof fn lemma_joined_layout<T>(runs: Seq<Seq<T>>, sep: Seq<T>, k: int)
    requires
        0 <= k < runs.len(),
    ensures
        ({
            let out = joined(runs, sep);
            let start = run_start(runs, sep.len(), k) as int;
            let end = start + runs[k].len();
            &&& end <= out.len()
            &&& out.subrange(start, end) == runs[k]
            &&& k == 0 ==> start == 0
            &&& k + 1 == runs.len() ==> end == out.len()
            &&& k + 1 < runs.len() ==> {
                &&& run_start(runs, sep.len(), k + 1) == end + sep.len()
                &&& end + sep.len() <= out.len()
                &&& out.subrange(end, end + sep.len()) == sep
            }
        }),
    decreases runs.len(),
{
    let out = joined(runs, sep);
    let start = run_start(runs, sep.len(), k) as int;
    let end = start + runs[k].len();
    let n = runs.len() as int;
    let front = runs.drop_last();
    lemma_joined_len(runs, sep);
    lemma_total_units_step(runs, k);
    assert((k + 1) * sep.len() == k * sep.len() + sep.len()) by (nonlinear_arith);
    if k == 0 {
        assert(runs.take(0) =~= Seq::<Seq<T>>::empty());
    }
    if n == 1 {
        assert(out =~= runs[0]);
        assert(out.subrange(start, end) =~= runs[k]);
    } else {
        lemma_joined_last(runs, sep);
        lemma_joined_len(front, sep);
        let head = joined(front, sep);
        if k + 1 < n {
            lemma_joined_layout(front, sep, k);
            assert(front.take(k) =~= runs.take(k));
            assert(front[k] == runs[k]);
            assert(out.subrange(start, end) =~= head.subrange(start, end));
            if k + 2 < n {
                assert(front.take(k + 1) =~= runs.take(k + 1));
                assert(out.subrange(end, end + sep.len()) =~= head.subrange(
                    end,
                    end + sep.len(),
                ));
            } else {
                assert(end == head.len());
                assert(out.subrange(end, end + sep.len()) =~= sep);
            }
        } else {
            assert(runs.take(k) =~= front);
            assert(sep.len() * (n - 2) + sep.len() == sep.len() * (n - 1)) by (nonlinear_arith);
            assert(k * sep.len() == sep.len() * (n - 1)) by (nonlinear_arith)
                requires
                    k == n - 1,
            ;
            assert(start == head.len() + sep.len());
            assert(out.subrange(start, end) =~= runs[k]);
        }
    }
}

/// Joining no runs gives the empty run, whatever the separator.
pub proof fn lemma_joined_no_runs<T>(sep: Seq<T>)
    ensures
        joined(Seq::<Seq<T>>::empty(), sep) == Seq::<T>::empty(),
        planned_length(Seq::<Seq<T>>::empty(), sep.len()) == 0,
{
}

} // verus!
