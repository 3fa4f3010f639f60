//! Ranges of numbers and lengths.

use vstd::prelude::*;
use vstd::string::StringExecFns;
use crate::config::value::{number_text, Number};
use crate::text::{decimal, decimal_string};

verus! {

/// One end of a range.
#[derive(Clone, Copy, Debug, PartialEq, Eq)]
pub enum Bound<T> {
    Unbounded,
    Included(T),
    Excluded(T),
}

/// A range given by its lower and its upper end.
#[derive(Clone, Copy, Debug, PartialEq, Eq)]
pub struct NumRange<T>(pub Bound<T>, pub Bound<T>);

/// True when `n` lies at or above a lower end at `low`.
pub open spec fn above(low: Bound<int>, n: int) -> bool {
    match low {
        Bound::Unbounded => true,
        Bound::Included(l) => l <= n,
        Bound::Excluded(l) => l < n,
    }
}

/// True when `n` lies at or below an upper end at `high`.
pub open spec fn below(high: Bound<int>, n: int) -> bool {
    match high {
        Bound::Unbounded => true,
        Bound::Included(h) => n <= h,
        Bound::Excluded(h) => n < h,
    }
}

/// The end of a range of lengths, as a mathematical integer.
pub open spec fn len_bound(b: Bound<usize>) -> Bound<int> {
    match b {
        Bound::Unbounded => Bound::Unbounded,
        Bound::Included(x) => Bound::Included(x as int),
        Bound::Excluded(x) => Bound::Excluded(x as int),
    }
}

/// The end of a range of numbers, in millionths.
pub open spec fn num_bound(b: Bound<Number>) -> Bound<int> {
    match b {
        Bound::Unbounded => Bound::Unbounded,
        Bound::Included(x) => Bound::Included(x.micros as int),
        Bound::Excluded(x) => Bound::Excluded(x.micros as int),
    }
}

/// True when the length `n` lies in the range.
pub open spec fn len_in_range(r: NumRange<usize>, n: int) -> bool {
    above(len_bound(r.0), n) && below(len_bound(r.1), n)
}

/// True when the number of `micros` millionths lies in the range.
pub open spec fn num_in_range(r: NumRange<Number>, micros: int) -> bool {
    above(num_bound(r.0), micros) && below(num_bound(r.1), micros)
}

impl NumRange<usize> {
    /// True when the length `n` lies in the range.
    pub fn contains(&self, n: usize) -> (res: bool)
        ensures
            res == len_in_range(*self, n as int),
    {
        let low = match self.0 {
            Bound::Unbounded => true,
            Bound::Included(l) => l <= n,
            Bound::Excluded(l) => l < n,
        };
        let high = match self.1 {
            Bound::Unbounded => true,
            Bound::Included(h) => n <= h,
            Bound::Excluded(h) => n < h,
        };
        low && high
    }
}

impl NumRange<Number> {
    /// True when the number lies in the range.
    pub fn contains(&self, n: Number) -> (res: bool)
        ensures
            res == num_in_range(*self, n.micros as int),
    {
        let low = match self.0 {
            Bound::Unbounded => true,
            Bound::Included(l) => l.micros <= n.micros,
            Bound::Excluded(l) => l.micros < n.micros,
        };
        let high = match self.1 {
            Bound::Unbounded => true,
            Bound::Included(h) => n.micros <= h.micros,
            Bound::Excluded(h) => n.micros < h.micros,
        };
        low && high
    }
}

/// A range as text: the two ends with a comma between them, the lower end
/// behind `[` if it belongs to the range and behind `(` if it does not, the
/// upper end before `]` or `)` likewise, and `*` for an end that is unbounded.
pub open spec fn range_text(low: Bound<Seq<char>>, high: Bound<Seq<char>>) -> Seq<char> {
    (match low {
        Bound::Unbounded => "(*"@,
        Bound::Included(l) => "["@ + l,
        Bound::Excluded(l) => "("@ + l,
    }) + ","@ + (match high {
        Bound::Unbounded => "*)"@,
        Bound::Included(h) => h + "]"@,
        Bound::Excluded(h) => h + ")"@,
    })
}

/// The end of a range of lengths, as text.
pub open spec fn len_bound_text(b: Bound<usize>) -> Bound<Seq<char>> {
    match b {
        Bound::Unbounded => Bound::Unbounded,
        Bound::Included(x) => Bound::Included(decimal(x as int)),
        Bound::Excluded(x) => Bound::Excluded(decimal(x as int)),
    }
}

/// The end of a range of numbers, as text.
pub open spec fn num_bound_text(b: Bound<Number>) -> Bound<Seq<char>> {
    match b {
        Bound::Unbounded => Bound::Unbounded,
        Bound::Included(x) => Bound::Included(number_text(x.micros as int)),
        Bound::Excluded(x) => Bound::Excluded(number_text(x.micros as int)),
    }
}

/// A range of lengths as text.
pub open spec fn len_range_text(r: NumRange<usize>) -> Seq<char> {
    range_text(len_bound_text(r.0), len_bound_text(r.1))
}

/// A range of numbers as text.
pub open spec fn num_range_text(r: NumRange<Number>) -> Seq<char> {
    range_text(num_bound_text(r.0), num_bound_text(r.1))
}

/// The text of a range whose ends are given as text.
fn join_ends(low: Bound<String>, high: Bound<String>) -> (res: String)
    ensures
        res@ == range_text(
            match low {
                Bound::Unbounded => Bound::Unbounded,
                Bound::Included(l) => Bound::Included(l@),
                Bound::Excluded(l) => Bound::Excluded(l@),
            },
            match high {
                Bound::Unbounded => Bound::Unbounded,
                Bound::Included(h) => Bound::Included(h@),
                Bound::Excluded(h) => Bound::Excluded(h@),
            },
        ),
{
    let left = match low {
        Bound::Unbounded => "(*".to_owned(),
        Bound::Included(l) => "[".to_owned().concat(l.as_str()),
        Bound::Excluded(l) => "(".to_owned().concat(l.as_str()),
    };
    let right = match high {
        Bound::Unbounded => "*)".to_owned(),
        Bound::Included(h) => h.concat("]"),
        Bound::Excluded(h) => h.concat(")"),
    };
    left.concat(",").concat(right.as_str())
}

impl NumRange<usize> {
    /// The range as text.
    pub fn to_text(&self) -> (res: String)
        ensures
            res@ == len_range_text(*self),
    {
        let low = match self.0 {
            Bound::Unbounded => Bound::Unbounded,
            Bound::Included(x) => Bound::Included(decimal_string(x as u128)),
            Bound::Excluded(x) => Bound::Excluded(decimal_string(x as u128)),
        };
        let high = match self.1 {
            Bound::Unbounded => Bound::Unbounded,
            Bound::Included(x) => Bound::Included(decimal_string(x as u128)),
            Bound::Excluded(x) => Bound::Excluded(decimal_string(x as u128)),
        };
        join_ends(low, high)
    }
}

impl NumRange<Number> {
    /// The range as text.
    pub fn to_text(&self) -> (res: String)
        ensures
            res@ == num_range_text(*self),
    {
        let low = match self.0 {
            Bound::Unbounded => Bound::Unbounded,
            Bound::Included(x) => Bound::Included(x.to_text()),
            Bound::Excluded(x) => Bound::Excluded(x.to_text()),
        };
        let high = match self.1 {
            Bound::Unbounded => Bound::Unbounded,
            Bound::Included(x) => Bound::Included(x.to_text()),
            Bound::Excluded(x) => Bound::Excluded(x.to_text()),
        };
        join_ends(low, high)
    }
}

} // verus!
