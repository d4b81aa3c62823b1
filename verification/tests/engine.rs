use join_bench::{copy_slice_and_advance, fill, join_generic, UnitRun};

#[test]
fn copy_appends_units() {
    let mut target = vec![1u8, 2];
    copy_slice_and_advance(&mut target, &[3, 4, 5]);
    assert_eq!(target, vec![1, 2, 3, 4, 5]);
    copy_slice_and_advance(&mut target, &[]);
    assert_eq!(target, vec![1, 2, 3, 4, 5]);
}

#[test]
fn fill_appends_the_join() {
    let runs: [&[u8]; 3] = [b"a", b"bc", b"d"];
    let mut buffer = b">".to_vec();
    fill(&mut buffer, &runs, b", ");
    assert_eq!(buffer, b">a, bc, d".to_vec());
}

#[test]
fn fill_with_no_elements_writes_nothing() {
    let none: [&[u8]; 0] = [];
    let mut buffer = b"kept".to_vec();
    fill(&mut buffer, &none, b"separator");
    assert_eq!(buffer, b"kept".to_vec());
}

#[test]
fn fill_stays_within_the_planned_capacity() {
    let runs: [&[u32]; 4] = [&[1, 2], &[], &[3], &[4, 5, 6]];
    for width in 0..7 {
        let sep: Vec<u32> = (0..width).map(|unit| 100 + unit).collect();
        let planned = join_bench::plan_length(&runs, sep.len()).unwrap();
        let mut buffer = Vec::with_capacity(planned);
        fill(&mut buffer, &runs, &sep);
        assert_eq!(buffer.len(), planned);
        assert_eq!(buffer.capacity(), planned);
        assert_eq!(buffer, join_generic(&runs, &sep).unwrap());
    }
}

#[test]
fn runs_borrow_their_units() {
    assert_eq!(vec![1u8, 2].as_units(), &[1, 2]);
    assert_eq!([7i64; 3].as_units(), &[7, 7, 7]);
    let slice: &[char] = &['a'];
    assert_eq!(slice.as_units(), &['a']);
    assert_eq!(UnitRun::as_units(&"é"), "é".as_bytes());
    assert_eq!(String::from("日本").as_units(), "日本".as_bytes());
    assert_eq!((&&vec![9u8]).as_units(), &[9]);
}
