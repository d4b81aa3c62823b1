use join_bench::{join_new, UnitRun};
use rand::Rng;

const N: usize = 10_000;

fn slice() -> Vec<String> {
    let mut rng = rand::StdRng::new().unwrap();
    let mut strings = vec![];
    for i in 1..4 {
        for _ in 0..N {
            let len = 10usize.pow(i);
            strings.push(rng.gen_ascii_chars().take(len).collect());
        }
    }
    strings
}

fn byte_slice(strings: &[String]) -> Vec<&[u8]> {
    strings.iter().map(|s| s.as_bytes()).collect()
}

#[test]
fn string_new_regular() {
    let slice = slice();
    assert_eq!(slice[..10].join("_"), join_new(&slice[..10], "_").unwrap());
    assert_eq!(slice.join("_"), join_new(&slice, "_").unwrap());
}

#[test]
fn byte_equality() {
    let slice = slice();
    let byte_slice = byte_slice(&slice);
    for (s, &b) in slice.iter().zip(byte_slice.iter()) {
        assert_eq!(s.as_bytes(), b);
    }
}

#[test]
fn text_units_are_its_bytes() {
    let slice = slice();
    let byte_slice = byte_slice(&slice[..100]);
    for (s, &b) in slice.iter().zip(byte_slice.iter()) {
        assert_eq!(s.as_units(), b);
        assert_eq!(b.as_units(), s.as_bytes());
    }
}

#[test]
fn random_bytes_join_like_std() {
    let slice = slice();
    let byte_slice = byte_slice(&slice[..1000]);
    assert_eq!(byte_slice.join(&20u8), join_bench::join_new_vec(&byte_slice, &20u8).unwrap());
    assert_eq!(byte_slice.concat(), join_bench::concat_new_vec(&byte_slice).unwrap());
    assert_eq!(byte_slice.join(&20u8), join_bench::trivial_join_new_vec(&byte_slice, &20u8).unwrap());
    assert_eq!(byte_slice.concat(), join_bench::concat(&byte_slice).unwrap());
}
