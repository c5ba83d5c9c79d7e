//! Result of a successful scan: the recognized data together with the
//! byte-offset range of the matching substring in the original input.

use vstd::prelude::*;

verus! {

/// Some data parsed out of a string, with the location in the input string
/// of the substring that the data came from. The range is only meaningful
/// against the exact original string it was computed from.
pub struct Parsed<T> {
    pub data: T,
    pub range: core::ops::Range<usize>,
}

impl<T> Parsed<T> {
    /// Transforms the parsed data while keeping the matched range.
    pub fn map<U, F: FnOnce(T) -> U>(self, f: F) -> (r: Parsed<U>)
        requires
            call_requires(f, (self.data,)),
        ensures
            r.range.start == self.range.start,
            r.range.end == self.range.end,
            call_ensures(f, (self.data,), r.data),
    {
        Parsed { data: f(self.data), range: self.range }
    }
}

} // verus!
