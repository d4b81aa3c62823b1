//! Joining text: the units of a text are the bytes of its UTF-8 encoding,
//! and the join of texts is again a text.

use vstd::prelude::*;
use vstd::utf8::{encode_utf8, encode_utf8_decode_utf8, encode_utf8_valid_utf8, valid_utf8};
use crate::join::join_generic;
use crate::model::{
    concatenated,
    joined,
    lemma_joined_empty_separator,
    planned_length,
    separated_tail,
    total_units,
};
use crate::planner::CapacityOverflow;
use crate::units::{runs_of, TextRun, UnitRun};

verus! {

/// `std::string::FromUtf8Error`, the error of `String::from_utf8`: carried
/// through as it is, nothing is known of what it holds.
#[verifier::external_type_specification]
#[verifier::external_body]
pub struct ExFromUtf8Error(std::string::FromUtf8Error);

/// The texts of a slice of elements, in order.
pub open spec fn texts_of<S: TextRun>(elements: Seq<S>) -> Seq<Seq<char>> {
    Seq::new(elements.len(), |i: int| elements[i].text())
}

/// Each text, encoded.
pub open spec fn encoded(texts: Seq<Seq<char>>) -> Seq<Seq<u8>> {
    Seq::new(texts.len(), |i: int| encode_utf8(texts[i]))
}

/// The encoding of two texts one after the other is their encodings one
/// after the other.
pub proof fn lemma_encode_concat(a: Seq<char>, b: Seq<char>)
    ensures
        encode_utf8(a + b) == encode_utf8(a) + encode_utf8(b),
    decreases a.len(),
{
    if a.len() == 0 {
        assert(a + b =~= b);
        assert(encode_utf8(a) + encode_utf8(b) =~= encode_utf8(b));
    } else {
        lemma_encode_concat(a.drop_first(), b);
        assert((a + b).drop_first() =~= a.drop_first() + b);
        assert((a + b)[0] == a[0]);
        assert(encode_utf8(a + b) =~= encode_utf8(a) + encode_utf8(b));
    }
}

/// What follows the first text, encoded, is what follows the first of the
/// encoded texts.
proof fn lemma_encode_separated_tail(texts: Seq<Seq<char>>, sep: Seq<char>)
    ensures
        encode_utf8(separated_tail(texts, sep)) == separated_tail(
            encoded(texts),
            encode_utf8(sep),
        ),
    decreases texts.len(),
{
    if texts.len() <= 1 {
        assert(separated_tail(texts, sep) =~= Seq::<char>::empty());
    } else {
        let front = texts.drop_last();
        lemma_encode_separated_tail(front, sep);
        lemma_encode_concat(separated_tail(front, sep), sep);
        lemma_encode_concat(separated_tail(front, sep) + sep, texts.last());
        assert(encoded(texts).drop_last() =~= encoded(front));
    }
}

/// The encoding of a join of texts is the join of their encodings.
pub proof fn lemma_encode_joined(texts: Seq<Seq<char>>, sep: Seq<char>)
    ensures
        encode_utf8(joined(texts, sep)) == joined(encoded(texts), encode_utf8(sep)),
{
    if texts.len() == 0 {
        assert(joined(texts, sep) =~= Seq::<char>::empty());
    } else {
        lemma_encode_separated_tail(texts, sep);
        lemma_encode_concat(texts.first(), separated_tail(texts, sep));
    }
}

/// The runs of text elements are their texts, encoded.
pub proof fn lemma_runs_of_texts<S: TextRun>(elements: Seq<S>)
    ensures
        runs_of(elements) == encoded(texts_of(elements)),
{
    assert forall|i: int| 0 <= i < elements.len() implies #[trigger] runs_of(elements)[i]
        == encoded(texts_of(elements))[i] by {
        elements[i].units_encode_text();
    }
    assert(runs_of(elements) =~= encoded(texts_of(elements)));
}

/// `String::from_utf8`: succeeds exactly on bytes that are valid UTF-8, and
/// the string it then gives has those bytes as its encoding.
#[verifier::external_body]
fn string_from_utf8(bytes: Vec<u8>) -> (text: Result<String, std::string::FromUtf8Error>)
    ensures
        text is Ok <==> valid_utf8(bytes@),
        text matches Ok(s) ==> encode_utf8(s@) == bytes@,
{
    String::from_utf8(bytes)
}

/// Joins the texts of `slice` with `sep` between each two neighbours, into
/// one string allocated at its final length in bytes.
///
/// Fails, before anything is allocated, exactly when the output would be
/// longer than `usize::MAX` bytes.
pub fn join_new<S: TextRun>(slice: &[S], sep: &str) -> (out: Result<String, CapacityOverflow>)
    ensures
        out is Ok <==> planned_length(runs_of(slice@), encode_utf8(sep@).len()) <= usize::MAX,
        out matches Ok(text) ==> {
            &&& text@ == joined(texts_of(slice@), sep@)
            &&& encode_utf8(text@) == joined(runs_of(slice@), encode_utf8(sep@))
            &&& encode_utf8(text@).len() == planned_length(
                runs_of(slice@),
                encode_utf8(sep@).len(),
            )
        },
{
    let bytes = match join_generic(slice, sep.as_bytes()) {
        Ok(bytes) => bytes,
        Err(overflow) => {
            return Err(overflow);
        },
    };
    let ghost chars = joined(texts_of(slice@), sep@);
    proof {
        lemma_runs_of_texts(slice@);
        lemma_encode_joined(texts_of(slice@), sep@);
        encode_utf8_valid_utf8(chars);
    }
    match string_from_utf8(bytes) {
        Ok(text) => {
            proof {
                encode_utf8_decode_utf8(text@);
                encode_utf8_decode_utf8(chars);
            }
            Ok(text)
        },
        Err(_) => vstd::pervasive::unreached(),
    }
}

/// Joining no texts succeeds and gives the empty string, whatever the
/// separator.
pub proof fn lemma_join_new_of_nothing_is_empty<S: TextRun>(
    slice: &[S],
    sep: &str,
    out: Result<String, CapacityOverflow>,
)
    requires
        slice@.len() == 0,
        call_ensures(join_new::<S>, (slice, sep), out),
    ensures
        out is Ok,
        out->Ok_0@ == Seq::<char>::empty(),
{
}

/// Joining texts with an empty separator gives the texts one after another,
/// and fails exactly when their bytes together are more than `usize::MAX`.
pub proof fn lemma_join_new_with_empty_separator<S: TextRun>(
    slice: &[S],
    sep: &str,
    out: Result<String, CapacityOverflow>,
)
    requires
        sep@.len() == 0,
        call_ensures(join_new::<S>, (slice, sep), out),
    ensures
        out is Ok <==> total_units(runs_of(slice@)) <= usize::MAX,
        out is Ok ==> out->Ok_0@ == concatenated(texts_of(slice@)),
{
    assert(sep@ =~= Seq::empty());
    lemma_joined_empty_separator(runs_of(slice@));
    lemma_joined_empty_separator(texts_of(slice@));
}

/// A join of texts is a function of the texts and the separator: two calls
/// on inputs that hold the same characters fail together or give the same
/// string.
pub proof fn lemma_join_new_deterministic<S: TextRun>(
    slice: &[S],
    sep: &str,
    out: Result<String, CapacityOverflow>,
    slice_again: &[S],
    sep_again: &str,
    out_again: Result<String, CapacityOverflow>,
)
    requires
        texts_of(slice@) == texts_of(slice_again@),
        sep@ == sep_again@,
        call_ensures(join_new::<S>, (slice, sep), out),
        call_ensures(join_new::<S>, (slice_again, sep_again), out_again),
    ensures
        out is Ok <==> out_again is Ok,
        out is Err ==> out == out_again,
        out is Ok ==> out->Ok_0@ == out_again->Ok_0@,
{
    lemma_runs_of_texts(slice@);
    lemma_runs_of_texts(slice_again@);
    if out is Err {
        assert(out->Err_0 == out_again->Err_0);
    }
}

} // verus!
