//! Cut values of an image: order statistics and extremes of its pixels.

use vstd::prelude::*;

use std::cmp::Ordering;
use std::ops::Range;

verus! {

/// A pixel value that cuts are taken on, ordered by an integer key.
pub trait CutValue: Copy {
    /// The value's place in the order.
    spec fn key(&self) -> int;

    fn less_eq(&self, other: &Self) -> (r: bool)
        ensures
            r == (self.key() <= other.key());

    /// The type's default value, which is its zero.
    fn default_value() -> (r: Self)
        ensures
            r.key() == 0;
}

impl CutValue for u8 {
    open spec fn key(&self) -> int {
        *self as int
    }

    fn less_eq(&self, other: &Self) -> (r: bool) {
        *self <= *other
    }

    fn default_value() -> (r: Self) {
        u8::default()
    }
}

impl CutValue for i16 {
    open spec fn key(&self) -> int {
        *self as int
    }

    fn less_eq(&self, other: &Self) -> (r: bool) {
        *self <= *other
    }

    fn default_value() -> (r: Self) {
        i16::default()
    }
}

impl CutValue for i32 {
    open spec fn key(&self) -> int {
        *self as int
    }

    fn less_eq(&self, other: &Self) -> (r: bool) {
        *self <= *other
    }

    fn default_value() -> (r: Self) {
        i32::default()
    }
}

impl CutValue for u16 {
    open spec fn key(&self) -> int {
        *self as int
    }

    fn less_eq(&self, other: &Self) -> (r: bool) {
        *self <= *other
    }

    fn default_value() -> (r: Self) {
        u16::default()
    }
}

/// Compares two values by their keys.
pub fn compare_values<T: CutValue>(a: &T, b: &T) -> (r: Ordering)
    ensures
        (r == Ordering::Less) == (a.key() < b.key()),
        (r == Ordering::Equal) == (a.key() == b.key()),
        (r == Ordering::Greater) == (a.key() > b.key()),
{
    if !b.less_eq(a) {
        Ordering::Less
    } else if a.less_eq(b) {
        Ordering::Equal
    } else {
        Ordering::Greater
    }
}

/// `t` is partitioned around index `k`: nothing before it has a greater key,
/// nothing after it a smaller one.
pub open spec fn partitioned_at<T: CutValue>(t: Seq<T>, k: int) -> bool {
    &&& 0 <= k < t.len()
    &&& forall|i: int| 0 <= i < k ==> (#[trigger] t[i]).key() <= t[k].key()
    &&& forall|j: int| k < j < t.len() ==> (#[trigger] t[j]).key() >= t[k].key()
}

/// `v` is the value at index `k` of some reordering of `s` sorted by key.
pub open spec fn is_order_statistic<T: CutValue>(s: Seq<T>, k: int, v: T) -> bool {
    exists|t: Seq<T>| #[trigger] t.to_multiset() == s.to_multiset() && partitioned_at(t, k) && t[k] == v
}

/// Relies on slice::select_nth_unstable_by: it reorders the slice so that the
/// element at `k` is the one a sort would put there, with none before it
/// greater and none after it smaller, given a comparison that is a total order.
#[verifier::external_body]
fn select_nth<T: CutValue>(s: &mut [T], k: usize)
    requires
        k < old(s)@.len(),
    ensures
        final(s)@.to_multiset() == old(s)@.to_multiset(),
        partitioned_at(final(s)@, k as int),
{
    s.select_nth_unstable_by(k, |a, b| compare_values(a, b));
}

/// Index of the value `percent` percent of the way through `n` sorted values
/// (a negative percentage counts as zero).
pub open spec fn percent_index(percent: int, n: int) -> int {
    if percent <= 0 { 0 } else { (percent * n) / 100 }
}

fn percent_index_of(percent: i32, n: usize) -> (r: usize)
    requires
        percent < 100,
        n > 0,
    ensures
        r == percent_index(percent as int, n as int),
        r < n,
{
    if percent <= 0 {
        0
    } else {
        let p = percent as u128;
        let m = n as u128;
        proof {
            assert(p * m < 100 * m) by (nonlinear_arith)
                requires p < 100, m > 0;
            assert(p * m <= 99 * 18446744073709551615) by (nonlinear_arith)
                requires p < 100, m <= 18446744073709551615;
        }
        let r = (p * m) / 100;
        proof {
            assert(r < m) by (nonlinear_arith)
                requires r == (p * m) / 100, p * m < 100 * m;
        }
        r as usize
    }
}

/// The values found `first_percent` and `last_percent` percent of the way
/// through the sorted slice, as the cut range of an image. The slice is
/// reordered along the way.
pub fn first_and_last_percent<T: CutValue>(slice: &mut [T], first_percent: i32, last_percent: i32) -> (r: Range<T>)
    requires
        old(slice)@.len() > 0,
        first_percent < 100,
        last_percent < 100,
    ensures
        final(slice)@.to_multiset() == old(slice)@.to_multiset(),
        is_order_statistic(old(slice)@, percent_index(first_percent as int, old(slice)@.len() as int), r.start),
        is_order_statistic(old(slice)@, percent_index(last_percent as int, old(slice)@.len() as int), r.end),
        partitioned_at(final(slice)@, percent_index(last_percent as int, old(slice)@.len() as int)),
        final(slice)@[percent_index(last_percent as int, old(slice)@.len() as int)] == r.end,
{
    let n = slice.len();
    let first_idx = percent_index_of(first_percent, n);
    let last_idx = percent_index_of(last_percent, n);
    select_nth(slice, first_idx);
    let min_val = slice[first_idx];
    let ghost after_first = slice@;
    proof {
        broadcast use vstd::seq_lib::group_to_multiset_ensures;
        assert(after_first.len() == after_first.to_multiset().len());
        assert(old(slice)@.len() == old(slice)@.to_multiset().len());
    }
    select_nth(slice, last_idx);
    let max_val = slice[last_idx];
    proof {
        assert(after_first.to_multiset() == old(slice)@.to_multiset());
        assert(slice@.to_multiset() == old(slice)@.to_multiset());
    }
    Range { start: min_val, end: max_val }
}

/// The smallest and the largest value of the slice, or twice the default
/// value for an empty slice.
pub fn cut_limits<T: CutValue>(slice: &[T]) -> (r: Range<T>)
    ensures
        slice@.len() == 0 ==> r.start == r.end && r.start.key() == 0,
        slice@.len() > 0 ==> {
            &&& slice@.contains(r.start)
            &&& slice@.contains(r.end)
            &&& forall|i: int| 0 <= i < slice@.len() ==> r.start.key() <= (#[trigger] slice@[i]).key()
            &&& forall|i: int| 0 <= i < slice@.len() ==> (#[trigger] slice@[i]).key() <= r.end.key()
        },
{
    if slice.len() == 0 {
        let d = T::default_value();
        return Range { start: d, end: d };
    }
    let mut lo: usize = 0;
    let mut hi: usize = 0;
    let mut i: usize = 1;
    while i < slice.len()
        invariant
            1 <= i <= slice@.len(),
            lo < i,
            hi < i,
            forall|k: int| 0 <= k < i ==> slice@[lo as int].key() <= (#[trigger] slice@[k]).key(),
            forall|k: int| 0 <= k < i ==> (#[trigger] slice@[k]).key() <= slice@[hi as int].key(),
        decreases slice@.len() - i,
    {
        if !slice[lo].less_eq(&slice[i]) {
            lo = i;
        }
        if slice[hi].less_eq(&slice[i]) {
            hi = i;
        }
        i = i + 1;
    }
    let r = Range { start: slice[lo], end: slice[hi] };
    proof {
        assert(slice@[lo as int] == r.start);
        assert(slice@[hi as int] == r.end);
    }
    r
}

} // verus!
