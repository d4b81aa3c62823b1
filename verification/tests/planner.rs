use join_bench::{
    concat_new_vec, join_generic, join_new_vec, plan_length, trivial_join_new_vec,
    CapacityOverflow,
};

#[test]
fn plans_runs_and_separators() {
    let runs: [&[u8]; 3] = [b"abc", b"def", b"foo"];
    assert_eq!(plan_length(&runs, 4), Ok(17));
    assert_eq!(plan_length(&runs, 0), Ok(9));
    assert_eq!(plan_length(&runs[..1], 1000), Ok(3));
}

#[test]
fn plans_nothing_as_zero() {
    let none: [&[u8]; 0] = [];
    assert_eq!(plan_length(&none, 10), Ok(0));
    assert_eq!(plan_length(&none, usize::MAX), Ok(0));
}

#[test]
fn plans_text_in_bytes() {
    assert_eq!(plan_length(&["gabaäœ吃", "", "", "foo"], "中文".len()), Ok(32));
}

#[test]
fn plans_up_to_the_limit() {
    let runs: [&[u8]; 2] = [b"ab", b"c"];
    assert_eq!(plan_length(&runs, usize::MAX - 3), Ok(usize::MAX));
    assert_eq!(plan_length(&runs, usize::MAX - 2), Err(CapacityOverflow));
}

#[test]
fn separators_alone_overflow() {
    let runs: [&[u8]; 3] = [b"", b"", b""];
    assert_eq!(plan_length(&runs, usize::MAX), Err(CapacityOverflow));
    assert_eq!(plan_length(&runs, usize::MAX / 2), Ok(usize::MAX - 1));
    assert_eq!(plan_length(&runs, usize::MAX / 2 + 1), Err(CapacityOverflow));
}

#[test]
fn runs_alone_overflow() {
    let huge = vec![(); usize::MAX];
    assert_eq!(plan_length(&[&huge], 0), Ok(usize::MAX));
    assert_eq!(plan_length(&[&huge, &huge], 0), Err(CapacityOverflow));
    let one = vec![()];
    assert_eq!(plan_length(&[&huge, &one], 0), Err(CapacityOverflow));
}

#[test]
fn join_fails_on_overflow() {
    let huge = vec![(); usize::MAX];
    let one = vec![()];
    let none: Vec<()> = vec![];
    assert_eq!(join_generic(&[&huge, &one], &[]), Err(CapacityOverflow));
    assert_eq!(join_generic(&[&none, &none, &none], &huge), Err(CapacityOverflow));
    assert_eq!(join_new_vec(&[&huge, &none], &()), Err(CapacityOverflow));
    assert_eq!(concat_new_vec(&[&huge, &huge]), Err(CapacityOverflow));
}

#[test]
fn plain_joins_fail_when_their_reservation_overflows() {
    let huge = vec![(); usize::MAX];
    let none: Vec<()> = vec![];
    assert_eq!(trivial_join_new_vec(&[&huge], &()), Err(CapacityOverflow));
    assert_eq!(join_bench::concat(&[&huge]), Err(CapacityOverflow));
    assert_eq!(trivial_join_new_vec(&[&none, &none], &()), Ok(vec![()]));
    assert_eq!(join_bench::concat(&[&none, &none]), Ok(vec![]));
}

#[test]
fn overflow_in_words() {
    assert_eq!(
        CapacityOverflow.message(),
        "attempt to join into collection with len > usize::MAX"
    );
}
