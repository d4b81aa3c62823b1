//! Elements viewed as runs of units.

use vstd::prelude::*;
use vstd::utf8::encode_utf8;

verus! {

/// A contiguous run of units: what an element of a join is.
pub trait UnitRun<T> {
    /// The units of the run, in order.
    spec fn units(&self) -> Seq<T>;

    /// Borrows the run as a slice of its units.
    fn as_units(&self) -> (run: &[T])
        ensures
            run@ == self.units(),
    ;
}

impl<T> UnitRun<T> for Vec<T> {
    open spec fn units(&self) -> Seq<T> {
        self@
    }

    fn as_units(&self) -> (run: &[T]) {
        self.as_slice()
    }
}

impl<'a, T> UnitRun<T> for &'a [T] {
    open spec fn units(&self) -> Seq<T> {
        (*self)@
    }

    fn as_units(&self) -> (run: &[T]) {
        *self
    }
}

impl<T, const N: usize> UnitRun<T> for [T; N] {
    open spec fn units(&self) -> Seq<T> {
        self@
    }

    fn as_units(&self) -> (run: &[T]) {
        self.as_slice()
    }
}

impl<'a, T, R: UnitRun<T>> UnitRun<T> for &'a R {
    open spec fn units(&self) -> Seq<T> {
        (**self).units()
    }

    fn as_units(&self) -> (run: &[T]) {
        (**self).as_units()
    }
}

impl UnitRun<u8> for String {
    open spec fn units(&self) -> Seq<u8> {
        encode_utf8(self@)
    }

    fn as_units(&self) -> (run: &[u8]) {
        self.as_str().as_bytes()
    }
}

impl<'a> UnitRun<u8> for &'a str {
    open spec fn units(&self) -> Seq<u8> {
        encode_utf8((*self)@)
    }

    fn as_units(&self) -> (run: &[u8]) {
        (*self).as_bytes()
    }
}

/// A run of text: its units are the bytes of its UTF-8 encoding.
pub trait TextRun: UnitRun<u8> {
    /// The characters of the text, in order.
    spec fn text(&self) -> Seq<char>;

    /// The units of a text are its characters, encoded.
    proof fn units_encode_text(&self)
        ensures
            self.units() == encode_utf8(self.text()),
    ;
}

impl TextRun for String {
    open spec fn text(&self) -> Seq<char> {
        self@
    }

    proof fn units_encode_text(&self) {
    }
}

impl<'a> TextRun for &'a str {
    open spec fn text(&self) -> Seq<char> {
        (*self)@
    }

    proof fn units_encode_text(&self) {
    }
}

impl<'a, R: TextRun> TextRun for &'a R {
    open spec fn text(&self) -> Seq<char> {
        (**self).text()
    }

    proof fn units_encode_text(&self) {
        (**self).units_encode_text();
    }
}

/// The runs of a slice of elements, in order.
pub open spec fn runs_of<T, S: UnitRun<T>>(elements: Seq<S>) -> Seq<Seq<T>> {
    Seq::new(elements.len(), |i: int| elements[i].units())
}

} // verus!
