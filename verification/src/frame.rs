//! Dominant-colour extraction from a captured screen frame.
//!
//! A frame is a BGRx pixel buffer. Pixels are sampled every fourth row and
//! every fourth column; each sampled column belongs to one of `n` vertical
//! segments. Per segment, the samples are bucketed by Rec. 601 luma, and the
//! segment colour is the average of the brightest fifth of its samples.

use vstd::prelude::*;

use crate::dreamview::Rgb;

verus! {

/// Distance in pixels between two sampled rows, and between two sampled columns.
pub const SAMPLE_STEP: u32 = 4;

/// Number of luma buckets.
pub const BUCKETS: usize = 256;

/// A captured frame: dimensions in pixels, bytes per row, and the raw pixel
/// bytes in B, G, R, x order (four bytes per pixel).
pub struct CapturedFrame {
    pub width: u32,
    pub height: u32,
    pub stride: u32,
    pub data: Vec<u8>,
}

// ── Specification of the sampling ───────────────────────────────────────────

/// Rec. 601 luma of a pixel, scaled to 0..=255 (weights 77, 150, 29 over 256).
pub open spec fn luma(p: Rgb) -> int {
    (77 * p.0 + 150 * p.1 + 29 * p.2) / 256
}

/// The pixel at (`row`, `col`), if all four of its bytes lie inside `data`.
pub open spec fn pixel_at(stride: int, data: Seq<u8>, row: int, col: int) -> Option<Rgb> {
    let off = row * stride + col * 4;
    if off + 3 < data.len() {
        Some((data[off + 2], data[off + 1], data[off]))
    } else {
        None
    }
}

/// The segment that column `col` belongs to, for segments `seg_w` columns wide,
/// the last segment taking the remainder.
pub open spec fn segment_of(col: int, seg_w: int, last: int) -> int {
    if col / seg_w < last { col / seg_w } else { last }
}

/// Number of sampled positions along a dimension of `len` pixels.
pub open spec fn sampled(len: int) -> int {
    (len + 3) / 4
}

/// The samples of segment `k` taken from row `row`, among its first `j`
/// sampled columns, in column order.
pub open spec fn row_samples(
    stride: int,
    data: Seq<u8>,
    seg_w: int,
    last: int,
    k: int,
    row: int,
    j: nat,
) -> Seq<Rgb>
    decreases j,
{
    if j == 0 {
        Seq::empty()
    } else {
        let prev = row_samples(stride, data, seg_w, last, k, row, (j - 1) as nat);
        let col = 4 * (j - 1);
        match pixel_at(stride, data, row, col) {
            Some(p) => if segment_of(col, seg_w, last) == k { prev.push(p) } else { prev },
            None => prev,
        }
    }
}

/// The samples of segment `k` from the first `i` sampled rows, in row-major
/// order, for a frame `width` pixels wide.
pub open spec fn frame_samples(
    width: int,
    stride: int,
    data: Seq<u8>,
    seg_w: int,
    last: int,
    k: int,
    i: nat,
) -> Seq<Rgb>
    decreases i,
{
    if i == 0 {
        Seq::empty()
    } else {
        frame_samples(width, stride, data, seg_w, last, k, (i - 1) as nat)
            + row_samples(stride, data, seg_w, last, k, 4 * (i - 1), sampled(width) as nat)
    }
}

/// Width in columns of each of `n` segments of the frame.
pub open spec fn segment_width(f: CapturedFrame, n: int) -> int {
    f.width as int / n
}

/// All samples of segment `k` when the frame is split into `n` segments.
pub open spec fn segment_samples(f: CapturedFrame, n: int, k: int) -> Seq<Rgb> {
    frame_samples(
        f.width as int,
        f.stride as int,
        f.data@,
        segment_width(f, n),
        n - 1,
        k,
        sampled(f.height as int) as nat,
    )
}

// ── Luma histogram of a sample sequence ─────────────────────────────────────

/// Number of samples whose luma is `b`.
pub open spec fn count_at(s: Seq<Rgb>, b: int) -> nat
    decreases s.len(),
{
    if s.len() == 0 {
        0
    } else {
        count_at(s.drop_last(), b) + if luma(s.last()) == b { 1nat } else { 0nat }
    }
}

/// Sum of the red components of the samples whose luma is `b`.
pub open spec fn red_at(s: Seq<Rgb>, b: int) -> nat
    decreases s.len(),
{
    if s.len() == 0 {
        0
    } else {
        red_at(s.drop_last(), b) + if luma(s.last()) == b { s.last().0 as nat } else { 0nat }
    }
}

/// Sum of the green components of the samples whose luma is `b`.
pub open spec fn green_at(s: Seq<Rgb>, b: int) -> nat
    decreases s.len(),
{
    if s.len() == 0 {
        0
    } else {
        green_at(s.drop_last(), b) + if luma(s.last()) == b { s.last().1 as nat } else { 0nat }
    }
}

/// Sum of the blue components of the samples whose luma is `b`.
pub open spec fn blue_at(s: Seq<Rgb>, b: int) -> nat
    decreases s.len(),
{
    if s.len() == 0 {
        0
    } else {
        blue_at(s.drop_last(), b) + if luma(s.last()) == b { s.last().2 as nat } else { 0nat }
    }
}

/// Number of samples in luma buckets `c..=255`.
pub open spec fn count_from(s: Seq<Rgb>, c: int) -> nat
    decreases 256 - c,
{
    if c >= 256 { 0 } else { count_at(s, c) + count_from(s, c + 1) }
}

/// Red sum over luma buckets `c..=255`.
pub open spec fn red_from(s: Seq<Rgb>, c: int) -> nat
    decreases 256 - c,
{
    if c >= 256 { 0 } else { red_at(s, c) + red_from(s, c + 1) }
}

/// Green sum over luma buckets `c..=255`.
pub open spec fn green_from(s: Seq<Rgb>, c: int) -> nat
    decreases 256 - c,
{
    if c >= 256 { 0 } else { green_at(s, c) + green_from(s, c + 1) }
}

/// Blue sum over luma buckets `c..=255`.
pub open spec fn blue_from(s: Seq<Rgb>, c: int) -> nat
    decreases 256 - c,
{
    if c >= 256 { 0 } else { blue_at(s, c) + blue_from(s, c + 1) }
}

/// A fifth of `n`, rounded up: how many samples make up the brightest fifth.
pub open spec fn fifth_up(n: int) -> int {
    (n + 4) / 5
}

/// The highest luma bucket `c <= b` such that buckets `c..=255` hold at least
/// `thr` samples (bucket 0 when none above it does).
pub open spec fn cutoff_below(s: Seq<Rgb>, thr: int, b: int) -> int
    decreases b,
{
    if b <= 0 {
        0
    } else if count_from(s, b) >= thr {
        b
    } else {
        cutoff_below(s, thr, b - 1)
    }
}

/// The luma cutoff of the brightest fifth of `s`.
pub open spec fn bright_cutoff(s: Seq<Rgb>) -> int {
    cutoff_below(s, fifth_up(s.len() as int), 255)
}

/// The prominent colour of a sample sequence: the per-channel average (rounded
/// down) of the samples at or above the brightest-fifth cutoff; black when
/// there are no samples.
pub open spec fn prominent(s: Seq<Rgb>) -> Rgb {
    let c = bright_cutoff(s);
    let n = count_from(s, c);
    if s.len() == 0 || n == 0 {
        (0u8, 0u8, 0u8)
    } else {
        (
            (red_from(s, c) / n) as u8,
            (green_from(s, c) / n) as u8,
            (blue_from(s, c) / n) as u8,
        )
    }
}

// ── Lemmas ──────────────────────────────────────────────────────────────────

proof fn lemma_at_bounds(s: Seq<Rgb>, b: int)
    ensures
        count_at(s, b) <= s.len(),
        red_at(s, b) <= 255 * count_at(s, b),
        green_at(s, b) <= 255 * count_at(s, b),
        blue_at(s, b) <= 255 * count_at(s, b),
    decreases s.len(),
{
    if s.len() > 0 {
        lemma_at_bounds(s.drop_last(), b);
    }
}

proof fn lemma_from_push(s: Seq<Rgb>, p: Rgb, c: int)
    requires
        0 <= c <= 256,
    ensures
        count_from(s.push(p), c) == count_from(s, c) + if luma(p) >= c { 1nat } else { 0nat },
    decreases 256 - c,
{
    assert(s.push(p).drop_last() =~= s);
    if c < 256 {
        lemma_from_push(s, p, c + 1);
    }
}

proof fn lemma_luma_range(p: Rgb)
    ensures
        0 <= luma(p) <= 255,
{
    assert(0 <= 77 * p.0 + 150 * p.1 + 29 * p.2 <= 256 * 255) by (nonlinear_arith);
}

proof fn lemma_from_bounds(s: Seq<Rgb>, c: int)
    requires
        0 <= c <= 256,
    ensures
        count_from(s, c) <= s.len(),
        red_from(s, c) <= 255 * count_from(s, c),
        green_from(s, c) <= 255 * count_from(s, c),
        blue_from(s, c) <= 255 * count_from(s, c),
    decreases s.len(), 256 - c,
{
    if c < 256 {
        lemma_at_bounds(s, c);
        lemma_from_bounds(s, c + 1);
    }
    if s.len() > 0 {
        let t = s.drop_last();
        assert(t.push(s.last()) =~= s);
        lemma_from_bounds(t, c);
        lemma_from_push(t, s.last(), c);
    }
}

proof fn lemma_from_push_sums(s: Seq<Rgb>, p: Rgb, c: int)
    requires
        0 <= c <= 256,
    ensures
        count_from(s.push(p), c) == count_from(s, c) + if luma(p) >= c { 1nat } else { 0nat },
        red_from(s.push(p), c) == red_from(s, c) + if luma(p) >= c { p.0 as nat } else { 0nat },
        green_from(s.push(p), c) == green_from(s, c) + if luma(p) >= c { p.1 as nat } else { 0nat },
        blue_from(s.push(p), c) == blue_from(s, c) + if luma(p) >= c { p.2 as nat } else { 0nat },
    decreases 256 - c,
{
    assert(s.push(p).drop_last() =~= s);
    lemma_luma_range(p);
    if c < 256 {
        lemma_from_push_sums(s, p, c + 1);
    }
}

/// Buckets from `c` up hold nothing when every sample is darker than `c`.
proof fn lemma_from_none(s: Seq<Rgb>, c: int)
    requires
        0 <= c <= 256,
        forall|i: int| 0 <= i < s.len() ==> luma(#[trigger] s[i]) < c,
    ensures
        count_from(s, c) == 0,
        red_from(s, c) == 0,
        green_from(s, c) == 0,
        blue_from(s, c) == 0,
    decreases s.len(),
{
    if s.len() == 0 {
        lemma_from_empty(s, c);
    } else {
        let t = s.drop_last();
        assert(t.push(s.last()) =~= s);
        assert forall|i: int| 0 <= i < t.len() implies luma(#[trigger] t[i]) < c by {
            assert(t[i] == s[i]);
        }
        assert(luma(s[s.len() - 1]) < c);
        lemma_from_none(t, c);
        lemma_from_push_sums(t, s.last(), c);
    }
}

proof fn lemma_from_empty(s: Seq<Rgb>, c: int)
    requires
        s.len() == 0,
        0 <= c <= 256,
    ensures
        count_from(s, c) == 0,
        red_from(s, c) == 0,
        green_from(s, c) == 0,
        blue_from(s, c) == 0,
    decreases 256 - c,
{
    if c < 256 {
        lemma_from_empty(s, c + 1);
    }
}

/// Buckets from `c` up hold exactly sample `j` when it is the only one at
/// least as bright as `c`.
proof fn lemma_from_single(s: Seq<Rgb>, j: int, c: int)
    requires
        0 <= c <= 256,
        0 <= j < s.len(),
        luma(s[j]) >= c,
        forall|i: int| 0 <= i < s.len() && i != j ==> luma(#[trigger] s[i]) < c,
    ensures
        count_from(s, c) == 1,
        red_from(s, c) == s[j].0,
        green_from(s, c) == s[j].1,
        blue_from(s, c) == s[j].2,
    decreases s.len(),
{
    let t = s.drop_last();
    assert(t.push(s.last()) =~= s);
    if j == s.len() - 1 {
        assert forall|i: int| 0 <= i < t.len() implies luma(#[trigger] t[i]) < c by {
            assert(t[i] == s[i]);
        }
        lemma_from_none(t, c);
    } else {
        assert forall|i: int| 0 <= i < t.len() && i != j implies luma(#[trigger] t[i]) < c by {
            assert(t[i] == s[i]);
        }
        assert(t[j] == s[j]);
        assert(luma(s[s.len() - 1]) < c);
        lemma_from_single(t, j, c);
    }
    lemma_from_push_sums(t, s.last(), c);
}

/// With one sample brighter than all others, the brightest-fifth cutoff
/// searched from `b` down stops at that sample's luma.
proof fn lemma_cutoff_at_brightest(s: Seq<Rgb>, j: int, b: int)
    requires
        0 <= j < s.len(),
        luma(s[j]) <= b <= 255,
        forall|i: int| 0 <= i < s.len() && i != j ==> luma(#[trigger] s[i]) < luma(s[j]),
    ensures
        cutoff_below(s, 1, b) == luma(s[j]),
    decreases b,
{
    let l = luma(s[j]);
    lemma_luma_range(s[j]);
    if b == l {
        if b > 0 {
            lemma_from_single(s, j, b);
        }
    } else {
        assert forall|i: int| 0 <= i < s.len() implies luma(#[trigger] s[i]) < b by {}
        lemma_from_none(s, b);
        lemma_cutoff_at_brightest(s, j, b - 1);
    }
}

/// Samples are ranked by Rec. 601 luma, `(77 R + 150 G + 29 B) / 256`: among
/// one to five samples (whose brightest fifth is a single sample), a sample
/// strictly brighter by that measure than every other is the prominent
/// colour.
pub proof fn lemma_brightest_sample_wins(s: Seq<Rgb>, j: int)
    requires
        1 <= s.len() <= 5,
        0 <= j < s.len(),
        forall|i: int|
            0 <= i < s.len() && i != j ==> (77 * s[i].0 + 150 * s[i].1 + 29 * s[i].2) / 256 < (77
                * s[j].0 + 150 * s[j].1 + 29 * s[j].2) / 256,
    ensures
        prominent(s) == s[j],
{
    assert forall|i: int| 0 <= i < s.len() && i != j implies luma(#[trigger] s[i]) < luma(s[j]) by {}
    lemma_luma_range(s[j]);
    lemma_cutoff_at_brightest(s, j, 255);
    assert(fifth_up(s.len() as int) == 1);
    lemma_from_single(s, j, luma(s[j]));
}

// ── Accumulator ─────────────────────────────────────────────────────────────

/// Per-segment luma histogram with per-bucket channel sums.
struct SegmentAccum {
    histogram: Vec<u32>,
    r_sum: Vec<u64>,
    g_sum: Vec<u64>,
    b_sum: Vec<u64>,
    total: u32,
}

impl SegmentAccum {
    /// The accumulator holds exactly the histogram of the samples `s`.
    spec fn holds(&self, s: Seq<Rgb>) -> bool {
        &&& self.histogram@.len() == BUCKETS
        &&& self.r_sum@.len() == BUCKETS
        &&& self.g_sum@.len() == BUCKETS
        &&& self.b_sum@.len() == BUCKETS
        &&& self.total == s.len()
        &&& forall|b: int| 0 <= b < 256 ==> #[trigger] self.histogram@[b] == count_at(s, b)
        &&& forall|b: int| 0 <= b < 256 ==> #[trigger] self.r_sum@[b] == red_at(s, b)
        &&& forall|b: int| 0 <= b < 256 ==> #[trigger] self.g_sum@[b] == green_at(s, b)
        &&& forall|b: int| 0 <= b < 256 ==> #[trigger] self.b_sum@[b] == blue_at(s, b)
    }

    /// An empty accumulator.
    fn new() -> (acc: SegmentAccum)
        ensures
            acc.holds(Seq::empty()),
    {
        let mut histogram: Vec<u32> = Vec::new();
        let mut r_sum: Vec<u64> = Vec::new();
        let mut g_sum: Vec<u64> = Vec::new();
        let mut b_sum: Vec<u64> = Vec::new();
        let mut i: usize = 0;
        while i < BUCKETS
            invariant
                i <= BUCKETS,
                histogram@.len() == i,
                r_sum@.len() == i,
                g_sum@.len() == i,
                b_sum@.len() == i,
                forall|b: int|
                    0 <= b < i ==> #[trigger] histogram@[b] == 0,
                forall|b: int| 0 <= b < i ==> #[trigger] r_sum@[b] == 0,
                forall|b: int| 0 <= b < i ==> #[trigger] g_sum@[b] == 0,
                forall|b: int| 0 <= b < i ==> #[trigger] b_sum@[b] == 0,
            decreases BUCKETS - i,
        {
            histogram.push(0);
            r_sum.push(0);
            g_sum.push(0);
            b_sum.push(0);
            i = i + 1;
        }
        SegmentAccum { histogram, r_sum, g_sum, b_sum, total: 0 }
    }

    /// Records one sample.
    fn add(&mut self, p: Rgb, Ghost(s): Ghost<Seq<Rgb>>)
        requires
            old(self).holds(s),
            s.len() < u32::MAX,
        ensures
            final(self).holds(s.push(p)),
    {
        let (r, g, b) = p;
        proof {
            lemma_luma_range(p);
            lemma_at_bounds(s, luma(p));
        }
        let weighted: u32 = 77 * r as u32 + 150 * g as u32 + 29 * b as u32;
        assert(weighted >> 8 == weighted / 256) by (bit_vector);
        let lum = (weighted >> 8) as usize;
        assert(lum == luma(p));
        let ghost t = s.push(p);
        assert(t.drop_last() =~= s);
        assert(count_at(s, lum as int) <= s.len());
        let h = self.histogram[lum];
        self.histogram.set(lum, h + 1);
        let rs = self.r_sum[lum];
        self.r_sum.set(lum, rs + r as u64);
        let gs = self.g_sum[lum];
        self.g_sum.set(lum, gs + g as u64);
        let bs = self.b_sum[lum];
        self.b_sum.set(lum, bs + b as u64);
        self.total = self.total + 1;
        assert forall|c: int| 0 <= c < 256 implies #[trigger] self.histogram@[c] == count_at(t, c) by {
            assert(t.last() == p);
            assert(old(self).histogram@[c] == count_at(s, c));
        }
        assert forall|c: int| 0 <= c < 256 implies #[trigger] self.r_sum@[c] == red_at(t, c) by {
            assert(t.last() == p);
            assert(old(self).r_sum@[c] == red_at(s, c));
        }
        assert forall|c: int| 0 <= c < 256 implies #[trigger] self.g_sum@[c] == green_at(t, c) by {
            assert(t.last() == p);
            assert(old(self).g_sum@[c] == green_at(s, c));
        }
        assert forall|c: int| 0 <= c < 256 implies #[trigger] self.b_sum@[c] == blue_at(t, c) by {
            assert(t.last() == p);
            assert(old(self).b_sum@[c] == blue_at(s, c));
        }
    }

    /// The average colour of the brightest fifth of the recorded samples.
    fn prominent_color(&self, Ghost(s): Ghost<Seq<Rgb>>) -> (c: Rgb)
        requires
            self.holds(s),
        ensures
            c == prominent(s),
    {
        if self.total == 0 {
            return (0, 0, 0);
        }
        let threshold_count: u32 = self.total / 5 + if self.total % 5 != 0 { 1 } else { 0 };
        assert(threshold_count == fifth_up(s.len() as int));
        let mut cumulative: u32 = 0;
        let mut cutoff: usize = 0;
        let mut bucket: usize = BUCKETS;
        while bucket > 0
            invariant_except_break
                0 <= bucket <= 256,
                self.holds(s),
                threshold_count == fifth_up(s.len() as int),
                cumulative == count_from(s, bucket as int),
                cumulative < threshold_count || bucket == 256,
                cutoff == 0,
                cutoff_below(s, threshold_count as int, 255) == cutoff_below(
                    s,
                    threshold_count as int,
                    bucket - 1,
                ),
            ensures
                cutoff == cutoff_below(s, threshold_count as int, 255),
                cutoff < 256,
            decreases bucket,
        {
            bucket = bucket - 1;
            proof {
                lemma_from_bounds(s, bucket as int);
            }
            cumulative = cumulative + self.histogram[bucket];
            if cumulative >= threshold_count {
                cutoff = bucket;
                break;
            }
            if bucket == 0 {
                cutoff = 0;
                break;
            }
        }
        let ghost c = cutoff as int;
        assert(c == bright_cutoff(s));
        let mut r_total: u64 = 0;
        let mut g_total: u64 = 0;
        let mut b_total: u64 = 0;
        let mut count: u64 = 0;
        let mut b = cutoff;
        proof {
            lemma_from_bounds(s, c);
        }
        while b < BUCKETS
            invariant
                c <= b <= 256,
                0 <= c < 256,
                self.holds(s),
                s.len() <= u32::MAX,
                count_from(s, c) <= s.len(),
                red_from(s, c) <= 255 * count_from(s, c),
                green_from(s, c) <= 255 * count_from(s, c),
                blue_from(s, c) <= 255 * count_from(s, c),
                count + count_from(s, b as int) == count_from(s, c),
                r_total + red_from(s, b as int) == red_from(s, c),
                g_total + green_from(s, b as int) == green_from(s, c),
                b_total + blue_from(s, b as int) == blue_from(s, c),
            decreases 256 - b,
        {
            proof {
                lemma_from_bounds(s, b as int + 1);
                assert(count_from(s, b as int) == count_at(s, b as int) + count_from(s, b as int + 1));
                assert(red_from(s, b as int) == red_at(s, b as int) + red_from(s, b as int + 1));
                assert(green_from(s, b as int) == green_at(s, b as int) + green_from(s, b as int + 1));
                assert(blue_from(s, b as int) == blue_at(s, b as int) + blue_from(s, b as int + 1));
            }
            r_total = r_total + self.r_sum[b];
            g_total = g_total + self.g_sum[b];
            b_total = b_total + self.b_sum[b];
            count = count + self.histogram[b] as u64;
            b = b + 1;
        }
        if count == 0 {
            return (0, 0, 0);
        }
        proof {
            let n = count as int;
            assert(r_total as int / n <= 255) by (nonlinear_arith)
                requires
                    r_total <= 255 * n,
                    n > 0,
            ;
            assert(g_total as int / n <= 255) by (nonlinear_arith)
                requires
                    g_total <= 255 * n,
                    n > 0,
            ;
            assert(b_total as int / n <= 255) by (nonlinear_arith)
                requires
                    b_total <= 255 * n,
                    n > 0,
            ;
        }
        ((r_total / count) as u8, (g_total / count) as u8, (b_total / count) as u8)
    }
}


// ── Sampling lemmas ─────────────────────────────────────────────────────────

proof fn lemma_row_len_mono(
    stride: int,
    data: Seq<u8>,
    seg_w: int,
    last: int,
    k: int,
    row: int,
    j1: nat,
    j2: nat,
)
    requires
        j1 <= j2,
    ensures
        row_samples(stride, data, seg_w, last, k, row, j1).len() <= row_samples(
            stride,
            data,
            seg_w,
            last,
            k,
            row,
            j2,
        ).len(),
    decreases j2,
{
    if j1 < j2 {
        lemma_row_len_mono(stride, data, seg_w, last, k, row, j1, (j2 - 1) as nat);
    }
}

proof fn lemma_frame_len_mono(
    width: int,
    stride: int,
    data: Seq<u8>,
    seg_w: int,
    last: int,
    k: int,
    i1: nat,
    i2: nat,
)
    requires
        i1 <= i2,
    ensures
        frame_samples(width, stride, data, seg_w, last, k, i1).len() <= frame_samples(
            width,
            stride,
            data,
            seg_w,
            last,
            k,
            i2,
        ).len(),
    decreases i2,
{
    if i1 < i2 {
        lemma_frame_len_mono(width, stride, data, seg_w, last, k, i1, (i2 - 1) as nat);
    }
}

proof fn lemma_row_len_bound(
    stride: int,
    data: Seq<u8>,
    seg_w: int,
    last: int,
    k: int,
    row: int,
    j: nat,
)
    ensures
        row_samples(stride, data, seg_w, last, k, row, j).len() <= j,
    decreases j,
{
    if j > 0 {
        lemma_row_len_bound(stride, data, seg_w, last, k, row, (j - 1) as nat);
    }
}

proof fn lemma_frame_len_bound(
    width: int,
    stride: int,
    data: Seq<u8>,
    seg_w: int,
    last: int,
    k: int,
    i: nat,
)
    requires
        width >= 0,
    ensures
        frame_samples(width, stride, data, seg_w, last, k, i).len() <= i * sampled(width),
    decreases i,
{
    if i > 0 {
        lemma_frame_len_bound(width, stride, data, seg_w, last, k, (i - 1) as nat);
        lemma_row_len_bound(stride, data, seg_w, last, k, 4 * (i - 1), sampled(width) as nat);
        assert((i - 1) * sampled(width) + sampled(width) == i * sampled(width)) by (nonlinear_arith);
    }
}

/// Last sampled index along a dimension of `len > 0` pixels.
pub open spec fn last_sampled(len: int) -> int {
    4 * ((len - 1) / 4)
}

impl CapturedFrame {
    /// Splitting into `n` segments, every sampled row and column index, every
    /// sampled byte offset, and every segment's sample count fit the integer
    /// types the extraction counts them in.
    pub open spec fn sampling_fits(&self, n: int) -> bool {
        segment_width(*self, n) > 0 ==> {
            &&& last_sampled(self.width as int) + 4 <= u32::MAX
            &&& self.height > 0 ==> {
                &&& last_sampled(self.height as int) + 4 <= u32::MAX
                &&& last_sampled(self.height as int) * self.stride + last_sampled(self.width as int)
                    * 4 <= u32::MAX
                &&& last_sampled(self.height as int) * self.stride + last_sampled(self.width as int)
                    * 4 + 3 <= usize::MAX
            }
            &&& forall|k: int| 0 <= k < n ==> #[trigger] segment_samples(*self, n, k).len() <= u32::MAX
        }
    }

    /// The frame's own size bounds, whatever the number of strips: width
    /// and height leave room for one more sampling step in 32 bits, the
    /// farthest byte offset of any pixel fits in 32 bits, and so does the
    /// number of samples over the whole frame.
    pub open spec fn sampling_bounded(&self) -> bool {
        &&& self.width + 4 <= u32::MAX
        &&& self.height + 4 <= u32::MAX
        &&& self.height * self.stride + self.width * 4 + 3 <= u32::MAX
        &&& sampled(self.width as int) * sampled(self.height as int) <= u32::MAX
    }

    /// Whether a frame is small enough for [`CapturedFrame::extract_segment_colors`]
    /// into `segments` strips: all its sampled offsets and sample counts fit
    /// in 32 bits (a conservative test on the frame's size alone; `true`
    /// guarantees the requirement).
    pub fn sampling_fits_check(&self, segments: usize) -> (ok: bool)
        ensures
            ok == self.sampling_bounded(),
            ok ==> self.sampling_fits(if segments >= 1 { segments as int } else { 1 }),
    {
        let w = self.width as u64;
        let h = self.height as u64;
        let st = self.stride as u64;
        let limit = u32::MAX as u64;
        if w + 4 > limit || h + 4 > limit {
            return false;
        }
        assert(h * st <= 0xffff_ffff * 0xffff_ffff) by (nonlinear_arith)
            requires
                h <= 0xffff_ffff,
                st <= 0xffff_ffff,
        ;
        let far: u128 = h as u128 * st as u128 + w as u128 * 4 + 3;
        if far > limit as u128 {
            return false;
        }
        let sw = (w + 3) / 4;
        let sh = (h + 3) / 4;
        assert(sw * sh <= 0x4000_0000 * 0x4000_0000) by (nonlinear_arith)
            requires
                sw <= 0x4000_0000,
                sh <= 0x4000_0000,
        ;
        if sw * sh > limit {
            return false;
        }
        proof {
            let n = if segments >= 1 { segments as int } else { 1 };
            if segment_width(*self, n) > 0 {
                assert(self.width > 0);
                assert(last_sampled(self.width as int) <= self.width - 1);
                if self.height > 0 {
                    assert(last_sampled(self.height as int) <= self.height - 1);
                    assert(last_sampled(self.height as int) * self.stride <= h * st) by (nonlinear_arith)
                        requires
                            0 <= last_sampled(self.height as int) <= h,
                            st >= 0,
                            st == self.stride,
                    ;
                }
                assert forall|k: int| 0 <= k < n implies #[trigger] segment_samples(*self, n, k).len()
                    <= u32::MAX by {
                    lemma_frame_len_bound(
                        self.width as int,
                        self.stride as int,
                        self.data@,
                        segment_width(*self, n),
                        n - 1,
                        k,
                        sampled(self.height as int) as nat,
                    );
                    assert(sampled(self.height as int) * sampled(self.width as int) <= u32::MAX) by (nonlinear_arith)
                        requires
                            sampled(self.height as int) == sh,
                            sampled(self.width as int) == sw,
                            sw * sh <= u32::MAX,
                    ;
                }
            }
        }
        true
    }

    /// Splits the frame into `segments` (at least one) vertical strips of equal
    /// width, the last taking the remainder, and returns the prominent colour
    /// of each: the average of the brightest fifth (by luma) of its samples,
    /// sampling every fourth row and column. All black when the strips would
    /// be narrower than one pixel.
    pub fn extract_segment_colors(&self, segments: usize) -> (res: Vec<Rgb>)
        requires
            segments <= u32::MAX,
            self.sampling_fits(if segments >= 1 { segments as int } else { 1 }),
        ensures
            ({
                let n = if segments >= 1 { segments as int } else { 1 };
                &&& res@.len() == n
                &&& forall|k: int|
                    0 <= k < n ==> #[trigger] res@[k] == if segment_width(*self, n) == 0 {
                        (0u8, 0u8, 0u8)
                    } else {
                        prominent(segment_samples(*self, n, k))
                    }
            }),
    {
        let segments: usize = if segments >= 1 { segments } else { 1 };
        let ghost n = segments as int;
        let seg_w: u32 = self.width / (segments as u32);
        assert(seg_w == segment_width(*self, n));
        if seg_w == 0 {
            let mut out: Vec<Rgb> = Vec::new();
            let mut k: usize = 0;
            while k < segments
                invariant
                    k <= segments,
                    out@.len() == k,
                    forall|q: int| 0 <= q < k ==> #[trigger] out@[q] == (0u8, 0u8, 0u8),
                decreases segments - k,
            {
                out.push((0, 0, 0));
                k = k + 1;
            }
            return out;
        }
        let last_seg: usize = segments - 1;
        let ghost w = self.width as int;
        let ghost st = self.stride as int;
        let ghost d = self.data@;
        let ghost sw = seg_w as int;
        let ghost last = last_seg as int;
        let ghost cols = sampled(w);
        let ghost rows = sampled(self.height as int);
        let mut accums: Vec<SegmentAccum> = Vec::new();
        let mut k: usize = 0;
        while k < segments
            invariant
                k <= segments,
                accums@.len() == k,
                forall|q: int| 0 <= q < k ==> (#[trigger] accums@[q]).holds(Seq::empty()),
            decreases segments - k,
        {
            accums.push(SegmentAccum::new());
            k = k + 1;
        }
        proof {
            assert forall|q: int| 0 <= q < n implies (#[trigger] accums@[q]).holds(
                frame_samples(w, st, d, sw, last, q, 0),
            ) by {
                assert(frame_samples(w, st, d, sw, last, q, 0) =~= Seq::<Rgb>::empty());
            }
        }
        let mut row: u32 = 0;
        let ghost mut i: int = 0;
        while row < self.height
            invariant
                self.sampling_fits(n),
                n == segments,
                seg_w > 0,
                sw == seg_w,
                sw == segment_width(*self, n),
                last == last_seg,
                last == n - 1,
                w == self.width,
                st == self.stride,
                d == self.data@,
                cols == sampled(w),
                rows == sampled(self.height as int),
                row == 4 * i,
                0 <= i <= rows,
                accums@.len() == n,
                forall|q: int|
                    0 <= q < n ==> (#[trigger] accums@[q]).holds(
                        frame_samples(w, st, d, sw, last, q, i as nat),
                    ),
            decreases rows - i,
        {
            proof {
                assert(row <= last_sampled(self.height as int));
                assert(row * st <= last_sampled(self.height as int) * st) by (nonlinear_arith)
                    requires
                        row <= last_sampled(self.height as int),
                        st >= 0,
                ;
            }
            let row_offset: u32 = row * self.stride;
            let mut col: u32 = 0;
            let ghost mut j: int = 0;
            while col < self.width
                invariant
                    self.sampling_fits(n),
                    n == segments,
                    seg_w > 0,
                    sw == seg_w,
                    sw == segment_width(*self, n),
                    last == last_seg,
                    last == n - 1,
                    w == self.width,
                    st == self.stride,
                    d == self.data@,
                    cols == sampled(w),
                    rows == sampled(self.height as int),
                    row == 4 * i,
                    0 <= i < rows,
                    row < self.height,
                    row_offset == row * st,
                    row * st <= last_sampled(self.height as int) * st,
                    col == 4 * j,
                    0 <= j <= cols,
                    accums@.len() == n,
                    forall|q: int|
                        0 <= q < n ==> (#[trigger] accums@[q]).holds(
                            frame_samples(w, st, d, sw, last, q, i as nat) + row_samples(
                                st,
                                d,
                                sw,
                                last,
                                q,
                                row as int,
                                j as nat,
                            ),
                        ),
                decreases cols - j,
            {
                assert(col <= last_sampled(w));
                let offset: usize = (row_offset + col * 4) as usize;
                let ghost pix = pixel_at(st, d, row as int, col as int);
                if offset + 3 < self.data.len() {
                    let q_raw: usize = (col / seg_w) as usize;
                    let seg_idx: usize = if q_raw < last_seg { q_raw } else { last_seg };
                    let b = self.data[offset];
                    let g = self.data[offset + 1];
                    let r = self.data[offset + 2];
                    let ghost sq = seg_idx as int;
                    assert(sq == segment_of(col as int, sw, last));
                    assert(pix == Some((r, g, b)));
                    let ghost before = frame_samples(w, st, d, sw, last, sq, i as nat)
                        + row_samples(st, d, sw, last, sq, row as int, j as nat);
                    proof {
                        lemma_row_len_mono(st, d, sw, last, sq, row as int, (j + 1) as nat, cols as nat);
                        lemma_frame_len_mono(w, st, d, sw, last, sq, (i + 1) as nat, rows as nat);
                        assert(segment_samples(*self, n, sq).len() <= u32::MAX);
                        assert(row_samples(st, d, sw, last, sq, row as int, (j + 1) as nat)
                            == row_samples(st, d, sw, last, sq, row as int, j as nat).push((r, g, b)));
                        assert(before.len() < u32::MAX);
                    }
                    accums[seg_idx].add((r, g, b), Ghost(before));
                    proof {
                        assert forall|q: int| 0 <= q < n implies (#[trigger] accums@[q]).holds(
                            frame_samples(w, st, d, sw, last, q, i as nat) + row_samples(
                                st,
                                d,
                                sw,
                                last,
                                q,
                                row as int,
                                (j + 1) as nat,
                            ),
                        ) by {
                            let a = frame_samples(w, st, d, sw, last, q, i as nat);
                            let rs = row_samples(st, d, sw, last, q, row as int, j as nat);
                            if q == sq {
                                assert(a + rs.push((r, g, b)) =~= (a + rs).push((r, g, b)));
                            } else {
                                assert(row_samples(st, d, sw, last, q, row as int, (j + 1) as nat)
                                    == rs);
                            }
                        }
                    }
                } else {
                    assert(pix is None);
                    assert forall|q: int| 0 <= q < n implies row_samples(
                        st,
                        d,
                        sw,
                        last,
                        q,
                        row as int,
                        (j + 1) as nat,
                    ) == #[trigger] row_samples(st, d, sw, last, q, row as int, j as nat) by {}
                    assert(forall|q: int|
                        0 <= q < n ==> (#[trigger] accums@[q]).holds(
                            frame_samples(w, st, d, sw, last, q, i as nat) + row_samples(
                                st,
                                d,
                                sw,
                                last,
                                q,
                                row as int,
                                (j + 1) as nat,
                            ),
                        ));
                }
                col = col + 4;
                proof {
                    j = j + 1;
                }
            }
            assert(j == cols);
            row = row + 4;
            proof {
                assert forall|q: int| 0 <= q < n implies (#[trigger] accums@[q]).holds(
                    frame_samples(w, st, d, sw, last, q, (i + 1) as nat),
                ) by {
                    assert(frame_samples(w, st, d, sw, last, q, (i + 1) as nat)
                        == frame_samples(w, st, d, sw, last, q, i as nat) + row_samples(
                        st,
                        d,
                        sw,
                        last,
                        q,
                        4 * i,
                        cols as nat,
                    ));
                }
                i = i + 1;
            }
        }
        assert(i == rows);
        let mut out: Vec<Rgb> = Vec::new();
        let mut k: usize = 0;
        while k < segments
            invariant
                k <= segments,
                n == segments,
                seg_w > 0,
                sw == segment_width(*self, n),
                last == n - 1,
                w == self.width,
                st == self.stride,
                d == self.data@,
                rows == sampled(self.height as int),
                i == rows,
                accums@.len() == n,
                forall|q: int|
                    0 <= q < n ==> (#[trigger] accums@[q]).holds(
                        frame_samples(w, st, d, sw, last, q, i as nat),
                    ),
                out@.len() == k,
                forall|q: int|
                    0 <= q < k ==> #[trigger] out@[q] == prominent(segment_samples(*self, n, q)),
            decreases segments - k,
        {
            let c = accums[k].prominent_color(Ghost(segment_samples(*self, n, k as int)));
            out.push(c);
            k = k + 1;
        }
        out
    }
}

} // verus!
