use vstd::prelude::*;

verus! {

/// A half-open interval `[start, end)` of byte offsets in a source.
///
/// A value with `end <= start` denotes the empty range; operations that
/// produce an empty result normalize it to the canonical empty range `0..0`,
/// so equality between empty results is reliable.
#[derive(Clone, Copy, Debug, PartialEq, Eq, Structural)]
pub struct ByteRange {
    pub start: usize,
    pub end: usize,
}

/// The canonical empty range `0..0`.
pub open spec fn empty_range() -> ByteRange {
    ByteRange { start: 0, end: 0 }
}

/// A range is empty exactly when its lower bound is not below its upper bound.
pub open spec fn range_is_empty(r: ByteRange) -> bool {
    r.start >= r.end
}

/// The number of byte offsets a range covers.
pub open spec fn range_len(r: ByteRange) -> nat {
    if r.start >= r.end {
        0
    } else {
        (r.end - r.start) as nat
    }
}

/// Whether byte offset `i` lies in `r`.
pub open spec fn range_covers(r: ByteRange, i: int) -> bool {
    r.start <= i < r.end
}

/// The overlap of two ranges: `max(starts)..min(ends)` when that interval is
/// non-empty, else the canonical empty range.
pub open spec fn range_intersect(a: ByteRange, b: ByteRange) -> ByteRange {
    let s = if a.start >= b.start {
        a.start
    } else {
        b.start
    };
    let e = if a.end <= b.end {
        a.end
    } else {
        b.end
    };
    if e <= s {
        empty_range()
    } else {
        ByteRange { start: s, end: e }
    }
}

/// `r` translated down by `n`.
pub open spec fn range_shift_left(r: ByteRange, n: usize) -> ByteRange
    recommends
        n <= r.start,
        n <= r.end,
{
    ByteRange { start: (r.start - n) as usize, end: (r.end - n) as usize }
}

/// `r` translated up by `n`.
pub open spec fn range_shift_right(r: ByteRange, n: usize) -> ByteRange
    recommends
        r.start + n <= usize::MAX,
        r.end + n <= usize::MAX,
{
    ByteRange { start: (r.start + n) as usize, end: (r.end + n) as usize }
}

/// Emptiness test, intersection and translation for half-open ranges.
pub trait RangeExt: Sized {
    /// The lower bound, as a mathematical integer.
    spec fn lo(&self) -> int;

    /// The upper bound, as a mathematical integer.
    spec fn hi(&self) -> int;

    /// True exactly when the range covers no offset.
    fn empty(&self) -> (b: bool)
        ensures
            b == (self.lo() >= self.hi()),
    ;

    /// The overlap of `self` and `b`, normalized to `0..0` when empty.
    fn intersect(&self, b: &Self) -> (r: Self)
        ensures
            ({
                let s = if self.lo() >= b.lo() {
                    self.lo()
                } else {
                    b.lo()
                };
                let e = if self.hi() <= b.hi() {
                    self.hi()
                } else {
                    b.hi()
                };
                if e <= s {
                    r.lo() == 0 && r.hi() == 0
                } else {
                    r.lo() == s && r.hi() == e
                }
            }),
    ;

    /// Translates the range down by `n`; both bounds must be at least `n`.
    fn shift_left(&self, n: usize) -> (r: Self)
        requires
            n <= self.lo(),
            n <= self.hi(),
        ensures
            r.lo() == self.lo() - n,
            r.hi() == self.hi() - n,
    ;

    /// Translates the range up by `n`; both bounds must stay representable.
    fn shift_right(&self, n: usize) -> (r: Self)
        requires
            self.lo() + n <= usize::MAX,
            self.hi() + n <= usize::MAX,
        ensures
            r.lo() == self.lo() + n,
            r.hi() == self.hi() + n,
    ;
}

impl RangeExt for ByteRange {
    open spec fn lo(&self) -> int {
        self.start as int
    }

    open spec fn hi(&self) -> int {
        self.end as int
    }

    fn empty(&self) -> (b: bool)
        ensures
            b == range_is_empty(*self),
    {
        self.start >= self.end
    }

    fn intersect(&self, b: &Self) -> (r: Self)
        ensures
            r == range_intersect(*self, *b),
    {
        let s = if self.start >= b.start {
            self.start
        } else {
            b.start
        };
        let e = if self.end <= b.end {
            self.end
        } else {
            b.end
        };
        if e <= s {
            ByteRange { start: 0, end: 0 }
        } else {
            ByteRange { start: s, end: e }
        }
    }

    fn shift_left(&self, n: usize) -> (r: Self)
        ensures
            r == range_shift_left(*self, n),
    {
        ByteRange { start: self.start - n, end: self.end - n }
    }

    fn shift_right(&self, n: usize) -> (r: Self)
        ensures
            r == range_shift_right(*self, n),
    {
        ByteRange { start: self.start + n, end: self.end + n }
    }
}

impl ByteRange {
    /// A range with the given bounds, exactly as given.
    pub fn new(start: usize, end: usize) -> (r: ByteRange)
        ensures
            r == (ByteRange { start, end }),
    {
        ByteRange { start, end }
    }

    /// The number of byte offsets the range covers.
    pub fn len(&self) -> (n: usize)
        ensures
            n == range_len(*self),
    {
        if self.start >= self.end {
            0
        } else {
            self.end - self.start
        }
    }
}

/// Law: intersection is commutative.
pub proof fn lemma_intersect_commutative(a: ByteRange, b: ByteRange)
    ensures
        range_intersect(a, b) == range_intersect(b, a),
{
}

/// Law: intersecting a non-empty range with itself is the identity.
pub proof fn lemma_intersect_self_identity(a: ByteRange)
    requires
        !range_is_empty(a),
    ensures
        range_intersect(a, a) == a,
{
}

/// Law: the intersection of two ranges is empty exactly when no byte offset
/// lies in both.
pub proof fn lemma_intersect_empty_iff_disjoint(a: ByteRange, b: ByteRange)
    ensures
        range_is_empty(range_intersect(a, b)) <==> !(exists|i: int|
            range_covers(a, i) && range_covers(b, i)),
{
    if !range_is_empty(range_intersect(a, b)) {
        let r = range_intersect(a, b);
        let i = r.start as int;
        assert(range_covers(a, i) && range_covers(b, i));
    }
}

/// Law: whenever an operand is empty, in whatever representation, or the two
/// operands share no offset, the intersection is the canonical empty range.
pub proof fn lemma_intersect_normalizes_empty(a: ByteRange, b: ByteRange)
    requires
        range_is_empty(a) || range_is_empty(b) || !(exists|i: int|
            range_covers(a, i) && range_covers(b, i)),
    ensures
        range_intersect(a, b) == empty_range(),
{
    lemma_intersect_empty_iff_disjoint(a, b);
}

/// Law: translating down by `n` and then up by `n` restores the range, for any
/// `n` the downward translation admits.
pub proof fn lemma_shift_round_trip(r: ByteRange, n: usize)
    requires
        n <= r.start,
        n <= r.end,
    ensures
        range_shift_right(range_shift_left(r, n), n) == r,
{
}

/// Law: translating up by `n` and then down by `n` restores the range,
/// whenever the upward translation keeps both bounds representable; the
/// downward translation's own precondition then holds of itself.
pub proof fn lemma_shift_back_round_trip(r: ByteRange, n: usize)
    requires
        r.start + n <= usize::MAX,
        r.end + n <= usize::MAX,
    ensures
        n <= range_shift_right(r, n).start,
        n <= range_shift_right(r, n).end,
        range_shift_left(range_shift_right(r, n), n) == r,
{
}

/// A non-empty range equal to its intersection with `a` lies within `a`.
pub proof fn lemma_contains_bounds(a: ByteRange, b: ByteRange)
    requires
        range_intersect(a, b) == b,
        !range_is_empty(b),
    ensures
        a.start <= b.start,
        b.end <= a.end,
        !range_is_empty(a),
{
}

/// A non-empty range lying within `a` intersects `a` to exactly itself.
pub proof fn lemma_contains_subrange(a: ByteRange, b: ByteRange)
    requires
        a.start <= b.start,
        b.end <= a.end,
        !range_is_empty(b),
    ensures
        range_intersect(a, b) == b,
{
}

} // verus!
