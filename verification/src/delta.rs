//! The subtraction capability that the adapter requires of its elements.

use vstd::prelude::*;

verus! {

/// A type whose values can be subtracted from one another, yielding a value
/// of type `Self::Out`, and duplicated (the adapter keeps each element alive
/// across two adjacent differences, once as `next` and once as `prev`).
///
/// `diff_defined` carves out the pairs on which the subtraction is defined
/// (for the machine integers: the pairs whose mathematical difference fits in
/// the result type); on those pairs `diff` returns exactly `diff_spec`.
pub trait Delta: Sized + Copy {
    type Out;

    /// Whether `self - prev` is defined (e.g. does not overflow).
    spec fn diff_defined(self, prev: Self) -> bool;

    /// The mathematical value of `self - prev`.
    spec fn diff_spec(self, prev: Self) -> Self::Out;

    /// Compute `self - prev`.
    fn diff(self, prev: Self) -> (r: Self::Out)
        requires
            self.diff_defined(prev),
        ensures
            r == self.diff_spec(prev),
    ;
}

impl Delta for i64 {
    type Out = i64;

    open spec fn diff_defined(self, prev: i64) -> bool {
        i64::MIN <= self - prev <= i64::MAX
    }

    open spec fn diff_spec(self, prev: i64) -> i64 {
        (self - prev) as i64
    }

    fn diff(self, prev: i64) -> (r: i64)
    {
        self - prev
    }
}

impl Delta for i32 {
    type Out = i32;

    open spec fn diff_defined(self, prev: i32) -> bool {
        i32::MIN <= self - prev <= i32::MAX
    }

    open spec fn diff_spec(self, prev: i32) -> i32 {
        (self - prev) as i32
    }

    fn diff(self, prev: i32) -> (r: i32)
    {
        self - prev
    }
}

} // verus!
