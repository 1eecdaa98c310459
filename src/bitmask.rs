//! Bit masks over a chunk's faces, and the merging of a slice's set bits into
//! disjoint rectangles.

use vstd::prelude::*;
use vstd::std_specs::bits::{axiom_u32_trailing_ones, axiom_u32_trailing_zeros};

verus! {

/// Whether bit `b` of `v` is set.
pub open spec fn bit_set(v: u32, b: u32) -> bool {
    (v >> b) & 1u32 == 1u32
}

/// The mask of `w` consecutive bits starting at bit `s`.
pub open spec fn run_mask(s: u32, w: u32) -> u32 {
    (((1u32 << w) - 1u32) as u32) << s
}

pub proof fn lemma_run_mask(s: u32, w: u32, b: u32)
    requires
        1 <= w <= 31,
        s + w <= 32,
        b < 32,
    ensures
        bit_set(run_mask(s, w), b) <==> (s <= b && b < s + w),
{
    assert(((((1u32 << w) - 1u32) as u32) << s >> b) & 1u32 == 1u32 <==> (s <= b && b < s + w))
        by (bit_vector)
        requires
            1 <= w <= 31,
            s + w <= 32,
            b < 32,
    ;
}

pub proof fn lemma_clear_bit(v: u32, m: u32, b: u32)
    requires
        b < 32,
    ensures
        bit_set(v & !m, b) <==> (bit_set(v, b) && !bit_set(m, b)),
{
    assert(((v & !m) >> b) & 1u32 == 1u32 <==> ((v >> b) & 1u32 == 1u32 && !((m >> b) & 1u32
        == 1u32))) by (bit_vector)
        requires
            b < 32,
    ;
}

pub proof fn lemma_covering_mask(v: u32, m: u32, b: u32)
    requires
        b < 32,
        v & m == m,
        bit_set(m, b),
    ensures
        bit_set(v, b),
{
    assert((v >> b) & 1u32 == 1u32) by (bit_vector)
        requires
            b < 32,
            v & m == m,
            (m >> b) & 1u32 == 1u32,
    ;
}

pub proof fn lemma_clear_decreases(v: u32, m: u32, b: u32)
    requires
        b < 32,
        bit_set(v, b),
        bit_set(m, b),
    ensures
        v & !m < v,
{
    assert(v & !m < v) by (bit_vector)
        requires
            b < 32,
            (v >> b) & 1u32 == 1u32,
            (m >> b) & 1u32 == 1u32,
    ;
}

pub proof fn lemma_zero_bits(b: u32)
    ensures
        !bit_set(0u32, b),
{
    assert(!((0u32 >> b) & 1u32 == 1u32)) by (bit_vector);
}

pub proof fn lemma_set_bit(v: u32, c: u32, b: u32)
    requires
        b < 32,
        c < 32,
    ensures
        bit_set(v | (1u32 << c), b) <==> (bit_set(v, b) || b == c),
{
    assert(((v | (1u32 << c)) >> b) & 1u32 == 1u32 <==> ((v >> b) & 1u32 == 1u32 || b == c))
        by (bit_vector)
        requires
            b < 32,
            c < 32,
    ;
}

pub proof fn lemma_shifted_bit(v: u32, s: u32, j: u32)
    requires
        s + j < 32,
    ensures
        ((v >> s) >> j) & 1u32 == (v >> ((s + j) as u32)) & 1u32,
{
    assert(((v >> s) >> j) & 1u32 == (v >> ((s + j) as u32)) & 1u32) by (bit_vector)
        requires
            s + j < 32,
    ;
}

/// One row of a mask: bit `b` flags the cell in column `b`.
#[derive(Clone, Copy, Debug, PartialEq, Eq, Structural)]
pub struct ChunkBitMaskRow {
    pub data: u32,
}

impl ChunkBitMaskRow {
    /// The lowest run of set bits, as `(start, length)`, cut to at most 31
    /// bits: all of `[start, start + length)` is set, nothing below `start`.
    pub fn first_run(&self) -> (r: (u32, u32))
        requires
            self.data != 0,
        ensures
            r.0 < 32,
            1 <= r.1 <= 31,
            r.0 + r.1 <= 32,
            forall|b: u32| r.0 <= b < r.0 + r.1 ==> #[trigger] bit_set(self.data, b),
            forall|b: u32| b < r.0 ==> !#[trigger] bit_set(self.data, b),
            r.1 < 31 && r.0 + r.1 < 32 ==> !bit_set(self.data, (r.0 + r.1) as u32),
    {
        let v = self.data;
        let s = v.trailing_zeros();
        proof {
            axiom_u32_trailing_zeros(v);
        }
        let shifted = v >> s;
        let run = shifted.trailing_ones();
        proof {
            axiom_u32_trailing_ones(shifted);
            lemma_shifted_bit(v, s, 0);
            assert(shifted >> 0u32 == shifted) by (bit_vector);
        }
        let mut w = run;
        if w > 31 {
            w = 31;
        }
        if w > 32 - s {
            w = 32 - s;
        }
        proof {
            assert forall|b: u32| s <= b < s + w implies #[trigger] bit_set(v, b) by {
                lemma_shifted_bit(v, s, (b - s) as u32);
            }
            if w < 31 && s + w < 32 {
                assert(w == run);
                lemma_shifted_bit(v, s, w);
            }
        }
        (s, w)
    }
}

/// A rectangle of mask cells: rows `[row, row + height)`, columns
/// `[col, col + width)`.
#[derive(Clone, Copy, Debug, PartialEq, Eq, Structural)]
pub struct SliceRect {
    pub row: u32,
    pub col: u32,
    pub width: u32,
    pub height: u32,
}

pub open spec fn rect_covers(q: SliceRect, r: int, b: u32) -> bool {
    q.row <= r < q.row + q.height && q.col <= b < q.col + q.width
}

/// Sizes fit the 5-bit fields and the rectangle lies inside the slice.
pub open spec fn rect_fits(q: SliceRect) -> bool {
    1 <= q.width <= 31 && 1 <= q.height <= 31 && q.row + q.height <= 32 && q.col + q.width <= 32
}

/// `rects` cover exactly the set bits of `rows`, each set bit once.
pub open spec fn is_partition_of(rows: Seq<u32>, rects: Seq<SliceRect>) -> bool {
    &&& forall|i: int| 0 <= i < rects.len() ==> rect_fits(#[trigger] rects[i])
    &&& forall|i: int, r: int, b: u32|
        0 <= i < rects.len() && #[trigger] rect_covers(rects[i], r, b) ==> 0 <= r < 32 && b < 32
            && bit_set(rows[r], b)
    &&& forall|r: int, b: u32|
        0 <= r < 32 && b < 32 && #[trigger] bit_set(rows[r], b) ==> exists|i: int|
            0 <= i < rects.len() && #[trigger] rect_covers(rects[i], r, b)
    &&& forall|i: int, j: int, r: int, b: u32|
        0 <= i < rects.len() && 0 <= j < rects.len() && #[trigger] rect_covers(rects[i], r, b)
            && #[trigger] rect_covers(rects[j], r, b) ==> i == j
}

/// A mask over one slice of a chunk: 32 rows of 32 bits.
#[derive(Clone, Copy, Debug)]
pub struct ChunkBitMaskSlice {
    pub data: [u32; 32],
}

impl ChunkBitMaskSlice {
    /// Greedy merge: take the lowest run of each row (at most 31 wide),
    /// extend it over the following rows while they hold the whole run (at
    /// most 31 high), clear what was taken, and repeat until the slice is
    /// empty. The rectangles cover every set bit exactly once.
    pub fn process(&self) -> (r: Vec<SliceRect>)
        ensures
            is_partition_of(self.data@, r@),
    {
        let ghost orig = self.data@;
        let mut rows: [u32; 32] = self.data;
        let mut out: Vec<SliceRect> = Vec::new();
        let mut r: u32 = 0;
        while r < 32
            invariant
                r <= 32,
                orig == self.data@,
                orig.len() == 32,
                rows@.len() == 32,
                forall|k: int| 0 <= k < r ==> #[trigger] rows@[k] == 0,
                forall|k: int, b: u32|
                    0 <= k < 32 && b < 32 && #[trigger] bit_set(rows@[k], b) ==> bit_set(orig[k], b),
                forall|i: int| 0 <= i < out@.len() ==> rect_fits(#[trigger] out@[i]),
                forall|i: int, k: int, b: u32|
                    0 <= i < out@.len() && #[trigger] rect_covers(out@[i], k, b) ==> 0 <= k < 32
                        && b < 32 && bit_set(orig[k], b) && !bit_set(rows@[k], b),
                forall|k: int, b: u32|
                    0 <= k < 32 && b < 32 && #[trigger] bit_set(orig[k], b) ==> bit_set(rows@[k], b)
                        || exists|i: int| 0 <= i < out@.len() && #[trigger] rect_covers(out@[i], k, b),
                forall|i: int, j: int, k: int, b: u32|
                    0 <= i < out@.len() && 0 <= j < out@.len() && #[trigger] rect_covers(out@[i], k, b)
                        && #[trigger] rect_covers(out@[j], k, b) ==> i == j,
            decreases 32 - r,
        {
            while rows[r as usize] != 0
                invariant
                    r < 32,
                    orig == self.data@,
                    orig.len() == 32,
                    rows@.len() == 32,
                    forall|k: int| 0 <= k < r ==> #[trigger] rows@[k] == 0,
                    forall|k: int, b: u32|
                        0 <= k < 32 && b < 32 && #[trigger] bit_set(rows@[k], b) ==> bit_set(orig[k], b),
                    forall|i: int| 0 <= i < out@.len() ==> rect_fits(#[trigger] out@[i]),
                    forall|i: int, k: int, b: u32|
                        0 <= i < out@.len() && #[trigger] rect_covers(out@[i], k, b) ==> 0 <= k < 32
                            && b < 32 && bit_set(orig[k], b) && !bit_set(rows@[k], b),
                    forall|k: int, b: u32|
                        0 <= k < 32 && b < 32 && #[trigger] bit_set(orig[k], b) ==> bit_set(rows@[k], b)
                            || exists|i: int| 0 <= i < out@.len() && #[trigger] rect_covers(out@[i], k, b),
                    forall|i: int, j: int, k: int, b: u32|
                        0 <= i < out@.len() && 0 <= j < out@.len() && #[trigger] rect_covers(out@[i], k, b)
                            && #[trigger] rect_covers(out@[j], k, b) ==> i == j,
                decreases rows@[r as int],
            {
                let row = ChunkBitMaskRow { data: rows[r as usize] };
                let (s, w) = row.first_run();
                assert(1u32 << w >= 1) by (bit_vector)
                    requires
                        w <= 31,
                ;
                let ones: u32 = (1u32 << w) - 1;
                let m: u32 = ones << s;
                assert(m == run_mask(s, w)) by (bit_vector)
                    requires
                        ones == ((1u32 << w) - 1u32) as u32,
                        m == ones << s,
                        1 <= w <= 31,
                ;
                let ghost before = rows@;
                let mut h: u32 = 1;
                while r + h < 32 && h < 31 && rows[(r + h) as usize] & m == m
                    invariant
                        r < 32,
                        1 <= h <= 31,
                        r + h <= 32,
                        rows@.len() == 32,
                        before.len() == 32,
                        m == run_mask(s, w),
                        forall|k: int|
                            0 <= k < 32 && !(r < k < r + h) ==> #[trigger] rows@[k] == before[k],
                        forall|k: int|
                            r < k < r + h ==> #[trigger] rows@[k] == before[k] & !m,
                        forall|k: int, b: u32|
                            r < k < r + h && b < 32 && bit_set(m, b) ==> #[trigger] bit_set(before[k], b),
                    decreases 31 - h,
                {
                    let k = (r + h) as usize;
                    let v = rows[k];
                    proof {
                        assert forall|b: u32| b < 32 && bit_set(m, b) implies #[trigger] bit_set(before[k as int], b) by {
                            lemma_covering_mask(v, m, b);
                        }
                    }
                    rows[k] = v & !m;
                    h += 1;
                }
                let v0 = rows[r as usize];
                assert(v0 == row.data);
                rows[r as usize] = v0 & !m;
                let rect = SliceRect { row: r, col: s, width: w, height: h };
                let ghost prev = out@;
                out.push(rect);
                proof {
                    // The bits of the rectangle are now clear; every other bit
                    // is unchanged.
                    assert forall|k: int, b: u32| 0 <= k < 32 && b < 32 implies
                        (#[trigger] bit_set(rows@[k], b) <==> (bit_set(before[k], b) && !rect_covers(rect, k, b))) by {
                        lemma_run_mask(s, w, b);
                        if r <= k < r + h {
                            lemma_clear_bit(before[k], m, b);
                        }
                    }
                    // They were all set before.
                    assert forall|k: int, b: u32| #[trigger] rect_covers(rect, k, b) implies bit_set(before[k], b) by {
                        lemma_run_mask(s, w, b);
                        if k == r as int {
                            assert(bit_set(row.data, b));
                        } else {
                            assert(r < k < r + h && b < 32 && bit_set(m, b));
                        }
                    }
                    lemma_run_mask(s, w, s);
                    lemma_clear_decreases(v0, m, s);
                    assert forall|i: int, k: int, b: u32|
                        0 <= i < out@.len() && #[trigger] rect_covers(out@[i], k, b) implies 0 <= k < 32
                            && b < 32 && bit_set(orig[k], b) && !bit_set(rows@[k], b) by {
                        if i < prev.len() {
                            assert(out@[i] == prev[i]);
                            assert(rect_covers(prev[i], k, b));
                            assert(!bit_set(before[k], b));
                        } else {
                            assert(rect_covers(rect, k, b));
                            assert(bit_set(before[k], b));
                        }
                        assert(bit_set(rows@[k], b) <==> (bit_set(before[k], b) && !rect_covers(rect, k, b)));
                    }
                    assert forall|k: int, b: u32|
                        0 <= k < 32 && b < 32 && #[trigger] bit_set(orig[k], b) implies bit_set(rows@[k], b)
                            || exists|i: int| 0 <= i < out@.len() && #[trigger] rect_covers(out@[i], k, b) by {
                        if !bit_set(rows@[k], b) {
                            if rect_covers(rect, k, b) {
                                assert(rect_covers(out@[prev.len() as int], k, b));
                            } else {
                                let i = choose|i: int| 0 <= i < prev.len() && #[trigger] rect_covers(prev[i], k, b);
                                assert(rect_covers(out@[i], k, b));
                            }
                        }
                    }
                    assert forall|i: int, j: int, k: int, b: u32|
                        0 <= i < out@.len() && 0 <= j < out@.len() && #[trigger] rect_covers(out@[i], k, b)
                            && #[trigger] rect_covers(out@[j], k, b) implies i == j by {
                        if i < prev.len() {
                            assert(out@[i] == prev[i]);
                        }
                        if j < prev.len() {
                            assert(out@[j] == prev[j]);
                        }
                    }
                    assert forall|k: int| 0 <= k < r implies #[trigger] rows@[k] == 0 by {
                        assert(rows@[k] == before[k]);
                    }
                }
            }
            r += 1;
        }
        proof {
            assert forall|k: int, b: u32|
                0 <= k < 32 && b < 32 && #[trigger] bit_set(orig[k], b) implies exists|i: int|
                    0 <= i < out@.len() && #[trigger] rect_covers(out@[i], k, b) by {
                assert(rows@[k] == 0);
                lemma_zero_bits(b);
            }
        }
        out
    }
}

} // verus!
