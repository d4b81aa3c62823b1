use join_bench::{concat_new_vec, join_generic, join_new, plan_length};

fn samples() -> Vec<Vec<Vec<u8>>> {
    vec![
        vec![],
        vec![vec![]],
        vec![vec![1, 2, 3]],
        vec![vec![], vec![]],
        vec![vec![1], vec![], vec![2, 3], vec![4, 5, 6]],
        vec![vec![0; 100], vec![1; 50], vec![2; 7]],
    ]
}

fn separators() -> Vec<Vec<u8>> {
    vec![vec![], vec![9], vec![9, 8], vec![9, 8, 7], vec![9, 8, 7, 6], vec![9, 8, 7, 6, 5, 4]]
}

#[test]
fn output_is_runs_with_separator_between_neighbours() {
    for runs in samples() {
        for sep in separators() {
            let out = join_generic(&runs, &sep).unwrap();
            let mut at = 0;
            for (k, run) in runs.iter().enumerate() {
                if k > 0 {
                    assert_eq!(&out[at..at + sep.len()], &sep[..]);
                    at += sep.len();
                }
                assert_eq!(&out[at..at + run.len()], &run[..]);
                at += run.len();
            }
            assert_eq!(at, out.len());
        }
    }
}

#[test]
fn output_length_is_the_planned_length() {
    for runs in samples() {
        for sep in separators() {
            let out = join_generic(&runs, &sep).unwrap();
            assert_eq!(Ok(out.len()), plan_length(&runs, sep.len()));
            assert_eq!(out.capacity(), out.len());
        }
    }
}

#[test]
fn empty_separator_is_concatenation() {
    for runs in samples() {
        assert_eq!(join_generic(&runs, &[]), concat_new_vec(&runs));
        assert_eq!(concat_new_vec(&runs).unwrap(), runs.concat());
    }
}

#[test]
fn no_elements_give_the_empty_run() {
    let none: Vec<Vec<u8>> = vec![];
    for sep in separators() {
        assert_eq!(join_generic(&none, &sep), Ok(vec![]));
    }
    let no_text: [&str; 0] = [];
    assert_eq!(join_new(&no_text, "separator"), Ok(String::new()));
}

#[test]
fn same_inputs_same_output() {
    for runs in samples() {
        for sep in separators() {
            let copy = runs.clone();
            assert_eq!(join_generic(&runs, &sep), join_generic(&runs, &sep));
            assert_eq!(join_generic(&runs, &sep), join_generic(&copy, &sep.clone()));
        }
    }
    let words = ["one", "two"];
    let owned = vec![String::from("one"), String::from("two")];
    assert_eq!(join_new(&words, ", "), join_new(&owned, ", "));
}

#[test]
fn encoding_of_joined_text_is_join_of_encodings() {
    let words = ["gabaäœ吃", "", "😀", "foo"];
    for sep in ["", "·", "中文", "-->"] {
        let text = join_new(&words, sep).unwrap();
        let bytes: Vec<&[u8]> = words.iter().map(|word| word.as_bytes()).collect();
        assert_eq!(text.as_bytes(), &join_generic(&bytes, sep.as_bytes()).unwrap()[..]);
        assert_eq!(Ok(text.len()), plan_length(&words, sep.len()));
    }
}
