//! DreamView segment helpers: effective segment count, mirroring for
//! U-shaped strip layouts, merging of oversampled colours, and the commands
//! that start and end a DreamView session.

use vstd::prelude::*;

use crate::protocol::{
    addressed, brightness_json, mode_packet, base64_standard, razer_activate, razer_deactivate,
    razer_json, send_brightness, Command, CommandError,
};

verus! {

/// A colour as sent to the strip: red, green, blue.
pub type Rgb = (u8, u8, u8);

/// The effective number of segments: `segments` (at least one) when DreamView
/// is used, a single segment otherwise.
pub fn segment_count(use_razer: bool, segments: usize) -> (n: usize)
    ensures
        n == (if use_razer { if segments >= 1 { segments } else { 1 } } else { 1 }),
        n >= 1,
{
    if use_razer {
        if segments >= 1 { segments } else { 1 }
    } else {
        1
    }
}

/// The commands that start a session: the brightness, then, when DreamView
/// is used, the switch into DreamView mode (the caller waits a moment after
/// sending it).
pub fn activate(ip: &str, brightness: u8, use_razer: bool) -> (cmds: (
    Result<Command, CommandError>,
    Option<Result<Command, CommandError>>,
))
    ensures
        addressed(ip@, brightness_json(brightness), cmds.0),
        use_razer <==> cmds.1 is Some,
        cmds.1 matches Some(r) ==> addressed(ip@, razer_json(base64_standard(mode_packet(true))), r),
{
    let first = send_brightness(ip, brightness);
    let second = if use_razer {
        Some(razer_activate(ip))
    } else {
        None
    };
    (first, second)
}

/// The command that ends a session: the switch out of DreamView mode when
/// it was used, nothing otherwise.
pub fn shutdown(ip: &str, use_razer: bool) -> (cmd: Option<Result<Command, CommandError>>)
    ensures
        use_razer <==> cmd is Some,
        cmd matches Some(r) ==> addressed(ip@, razer_json(base64_standard(mode_packet(false))), r),
{
    if use_razer {
        Some(razer_deactivate(ip))
    } else {
        None
    }
}

/// The mirrored layout of `s`: `s` followed by `s` reversed.
pub open spec fn mirrored(s: Seq<Rgb>) -> Seq<Rgb> {
    s + s.reverse()
}

/// Doubles the segment list by appending a reversed copy when `mirror` is
/// set; returns the list unchanged otherwise.
pub fn apply_mirror(colors: &[Rgb], mirror: bool) -> (res: Vec<Rgb>)
    requires
        mirror ==> 2 * colors@.len() <= usize::MAX,
    ensures
        res@ == (if mirror { mirrored(colors@) } else { colors@ }),
{
    let n = colors.len();
    let mut out: Vec<Rgb> = Vec::new();
    let mut i: usize = 0;
    while i < n
        invariant
            n == colors@.len(),
            i <= n,
            out@ == colors@.subrange(0, i as int),
        decreases n - i,
    {
        out.push(colors[i]);
        i = i + 1;
    }
    if mirror {
        let mut j: usize = n;
        while j > 0
            invariant
                n == colors@.len(),
                j <= n,
                out@ == colors@ + colors@.reverse().subrange(0, (n - j) as int),
            decreases j,
        {
            j = j - 1;
            out.push(colors[j]);
            assert(colors@.reverse().subrange(0, (n - j) as int) =~= colors@.reverse().subrange(0, (n - j - 1) as int).push(colors@[j as int]));
        }
        assert(colors@.reverse().subrange(0, n as int) =~= colors@.reverse());
    } else {
        assert(colors@.subrange(0, n as int) =~= colors@);
    }
    out
}

/// Sum of the red components of `s`.
pub open spec fn red_sum(s: Seq<Rgb>) -> nat
    decreases s.len(),
{
    if s.len() == 0 { 0 } else { red_sum(s.drop_last()) + s.last().0 as nat }
}

/// Sum of the green components of `s`.
pub open spec fn green_sum(s: Seq<Rgb>) -> nat
    decreases s.len(),
{
    if s.len() == 0 { 0 } else { green_sum(s.drop_last()) + s.last().1 as nat }
}

/// Sum of the blue components of `s`.
pub open spec fn blue_sum(s: Seq<Rgb>) -> nat
    decreases s.len(),
{
    if s.len() == 0 { 0 } else { blue_sum(s.drop_last()) + s.last().2 as nat }
}

/// First index of group `i` when `len` colours are split into `n` groups.
pub open spec fn group_start(len: int, n: int, i: int) -> int {
    len * i / n
}

/// One past the last index of group `i`: the integer-scaled boundary, widened
/// to one element when the scaled group would be empty.
pub open spec fn group_end(len: int, n: int, i: int) -> int {
    let e = len * (i + 1) / n;
    let st = group_start(len, n, i);
    if e <= st {
        if st + 1 < len { st + 1 } else { len }
    } else {
        e
    }
}

/// Group `i` of `s` split into `n` groups.
pub open spec fn group(s: Seq<Rgb>, n: int, i: int) -> Seq<Rgb> {
    s.subrange(group_start(s.len() as int, n, i), group_end(s.len() as int, n, i))
}

/// The per-channel average, rounded down, of a non-empty colour sequence.
pub open spec fn average(s: Seq<Rgb>) -> Rgb {
    (
        (red_sum(s) / s.len()) as u8,
        (green_sum(s) / s.len()) as u8,
        (blue_sum(s) / s.len()) as u8,
    )
}

/// `s` merged down to `n` colours: the average of each group; `n` blacks
/// when `s` is empty.
pub open spec fn merged(s: Seq<Rgb>, n: int) -> Seq<Rgb> {
    if s.len() == 0 {
        Seq::new(n as nat, |i: int| (0u8, 0u8, 0u8))
    } else {
        Seq::new(n as nat, |i: int| average(group(s, n, i)))
    }
}

/// Every group's length and channel sums fit in a `u32`.
pub open spec fn groups_fit(s: Seq<Rgb>, n: int) -> bool {
    forall|i: int|
        0 <= i < n ==> {
            &&& #[trigger] group(s, n, i).len() <= u32::MAX
            &&& red_sum(group(s, n, i)) <= u32::MAX
            &&& green_sum(group(s, n, i)) <= u32::MAX
            &&& blue_sum(group(s, n, i)) <= u32::MAX
        }
}

proof fn lemma_sum_bounds(s: Seq<Rgb>)
    ensures
        red_sum(s) <= 255 * s.len(),
        green_sum(s) <= 255 * s.len(),
        blue_sum(s) <= 255 * s.len(),
    decreases s.len(),
{
    if s.len() > 0 {
        lemma_sum_bounds(s.drop_last());
    }
}

proof fn lemma_group_bounds(len: int, n: int, i: int)
    requires
        len > 0,
        n > 0,
        0 <= i < n,
    ensures
        0 <= group_start(len, n, i) < group_end(len, n, i) <= len,
{
    assert(0 <= len * i / n < len) by (nonlinear_arith)
        requires
            len > 0,
            n > 0,
            0 <= i < n,
    ;
    assert(len * (i + 1) / n <= len) by (nonlinear_arith)
        requires
            len > 0,
            n > 0,
            0 <= i < n,
    ;
}

/// Merges oversampled colours down to `n` colours by averaging contiguous
/// groups. The groups are cut at `len * i / n` so that the remainder is spread
/// over the groups; a group that would be empty takes one colour. With no
/// input colours the result is `n` blacks.
pub fn merge_segments(colors: &[Rgb], n: usize) -> (res: Vec<Rgb>)
    requires
        colors@.len() * n <= usize::MAX,
        groups_fit(colors@, n as int),
    ensures
        res@ == merged(colors@, n as int),
{
    let len = colors.len();
    let mut out: Vec<Rgb> = Vec::new();
    if n == 0 {
        assert(out@ =~= merged(colors@, n as int));
        return out;
    }
    if len == 0 {
        let mut k: usize = 0;
        while k < n
            invariant
                k <= n,
                len == 0,
                len == colors@.len(),
                out@ =~= merged(colors@, n as int).subrange(0, k as int),
            decreases n - k,
        {
            out.push((0, 0, 0));
            k = k + 1;
        }
        assert(out@ =~= merged(colors@, n as int));
        return out;
    }
    let mut i: usize = 0;
    while i < n
        invariant
            i <= n,
            n > 0,
            len > 0,
            len == colors@.len(),
            colors@.len() * n <= usize::MAX,
            groups_fit(colors@, n as int),
            out@ =~= merged(colors@, n as int).subrange(0, i as int),
        decreases n - i,
    {
        proof {
            lemma_group_bounds(len as int, n as int, i as int);
            assert(len * (i + 1) <= len * n) by (nonlinear_arith)
                requires
                    i + 1 <= n,
                    len > 0,
            ;
            assert(len * i <= len * n) by (nonlinear_arith)
                requires
                    i <= n,
                    len > 0,
            ;
            assert(group(colors@, n as int, i as int).len() <= u32::MAX);
            assert(red_sum(group(colors@, n as int, i as int)) <= u32::MAX);
        }
        let start: usize = len * i / n;
        let mut end: usize = len * (i + 1) / n;
        if end <= start {
            end = if start + 1 < len { start + 1 } else { len };
        }
        let ghost g = group(colors@, n as int, i as int);
        assert(start == group_start(len as int, n as int, i as int));
        assert(end == group_end(len as int, n as int, i as int));
        let mut r: u32 = 0;
        let mut gr: u32 = 0;
        let mut b: u32 = 0;
        let mut k: usize = start;
        while k < end
            invariant
                start <= k <= end,
                end <= len,
                len == colors@.len(),
                g == colors@.subrange(start as int, end as int),
                red_sum(g) <= u32::MAX,
                green_sum(g) <= u32::MAX,
                blue_sum(g) <= u32::MAX,
                r == red_sum(colors@.subrange(start as int, k as int)),
                gr == green_sum(colors@.subrange(start as int, k as int)),
                b == blue_sum(colors@.subrange(start as int, k as int)),
            decreases end - k,
        {
            let ghost pre = colors@.subrange(start as int, k as int);
            let ghost nxt = colors@.subrange(start as int, k as int + 1);
            proof {
                assert(nxt.drop_last() =~= pre);
                let rest = colors@.subrange(k as int + 1, end as int);
                assert(g =~= nxt + rest);
                lemma_sum_concat(nxt, rest);
            }
            let (cr, cg, cb) = colors[k];
            r = r + cr as u32;
            gr = gr + cg as u32;
            b = b + cb as u32;
            k = k + 1;
        }
        let clen: u32 = (end - start) as u32;
        proof {
            lemma_sum_bounds(g);
            let m = clen as int;
            assert(r as int / m <= 255) by (nonlinear_arith)
                requires
                    r <= 255 * m,
                    m > 0,
            ;
            assert(gr as int / m <= 255) by (nonlinear_arith)
                requires
                    gr <= 255 * m,
                    m > 0,
            ;
            assert(b as int / m <= 255) by (nonlinear_arith)
                requires
                    b <= 255 * m,
                    m > 0,
            ;
        }
        out.push(((r / clen) as u8, (gr / clen) as u8, (b / clen) as u8));
        i = i + 1;
    }
    assert(out@ =~= merged(colors@, n as int));
    out
}

proof fn lemma_sum_concat(a: Seq<Rgb>, b: Seq<Rgb>)
    ensures
        red_sum(a + b) == red_sum(a) + red_sum(b),
        green_sum(a + b) == green_sum(a) + green_sum(b),
        blue_sum(a + b) == blue_sum(a) + blue_sum(b),
    decreases b.len(),
{
    if b.len() == 0 {
        assert(a + b =~= a);
    } else {
        lemma_sum_concat(a, b.drop_last());
        assert((a + b).drop_last() =~= a + b.drop_last());
    }
}

/// Small inputs never overflow the channel sums: with at most
/// `u32::MAX / 255` colours every group's length and sums fit in a `u32`.
pub proof fn lemma_small_input_fits(s: Seq<Rgb>, n: int)
    requires
        255 * s.len() <= u32::MAX,
        n > 0,
    ensures
        groups_fit(s, n),
{
    assert forall|i: int| 0 <= i < n implies {
        &&& #[trigger] group(s, n, i).len() <= u32::MAX
        &&& red_sum(group(s, n, i)) <= u32::MAX
        &&& green_sum(group(s, n, i)) <= u32::MAX
        &&& blue_sum(group(s, n, i)) <= u32::MAX
    } by {
        let g = group(s, n, i);
        lemma_sum_bounds(g);
        if s.len() > 0 {
            lemma_group_bounds(s.len() as int, n, i);
        } else {
            assert(0 * i / n == 0 && 0 * (i + 1) / n == 0) by (nonlinear_arith)
                requires
                    n > 0,
                    0 <= i,
            ;
        }
        assert(g.len() <= s.len());
    }
}

// ── Laws ────────────────────────────────────────────────────────────────────

/// Every channel of a merged segment is the mean of that channel over the
/// segment's group, rounded down: red, green and blue alike.
pub proof fn lemma_merge_channel_means(s: Seq<Rgb>, n: int, i: int)
    requires
        s.len() > 0,
        0 <= i < n,
    ensures
        group(s, n, i).len() > 0,
        merged(s, n).len() == n,
        merged(s, n)[i].0 == red_sum(group(s, n, i)) / group(s, n, i).len(),
        merged(s, n)[i].1 == green_sum(group(s, n, i)) / group(s, n, i).len(),
        merged(s, n)[i].2 == blue_sum(group(s, n, i)) / group(s, n, i).len(),
{
    lemma_group_bounds(s.len() as int, n, i);
    let g = group(s, n, i);
    let m = g.len();
    lemma_sum_bounds(g);
    assert(red_sum(g) / m <= 255) by (nonlinear_arith)
        requires
            red_sum(g) <= 255 * m,
            m > 0,
    ;
    assert(green_sum(g) / m <= 255) by (nonlinear_arith)
        requires
            green_sum(g) <= 255 * m,
            m > 0,
    ;
    assert(blue_sum(g) / m <= 255) by (nonlinear_arith)
        requires
            blue_sum(g) <= 255 * m,
            m > 0,
    ;
}

/// Merging two colours into one segment gives their per-channel mean,
/// rounded down.
pub proof fn lemma_merge_pair(a: Rgb, b: Rgb)
    ensures
        merged(seq![a, b], 1) == seq![(
            ((a.0 + b.0) / 2) as u8,
            ((a.1 + b.1) / 2) as u8,
            ((a.2 + b.2) / 2) as u8,
        )],
        (a.0 + b.0) / 2 <= 255 && (a.1 + b.1) / 2 <= 255 && (a.2 + b.2) / 2 <= 255,
{
    let s = seq![a, b];
    lemma_merge_channel_means(s, 1, 0);
    assert(group(s, 1, 0) =~= s);
    assert(s.drop_last() =~= seq![a]);
    assert(seq![a].drop_last() =~= Seq::<Rgb>::empty());
    assert(seq![a].last() == a);
    assert(red_sum(Seq::<Rgb>::empty()) == 0);
    assert(green_sum(Seq::<Rgb>::empty()) == 0);
    assert(blue_sum(Seq::<Rgb>::empty()) == 0);
    assert(red_sum(seq![a]) == red_sum(seq![a].drop_last()) + a.0);
    assert(green_sum(seq![a]) == green_sum(seq![a].drop_last()) + a.1);
    assert(blue_sum(seq![a]) == blue_sum(seq![a].drop_last()) + a.2);
    assert(red_sum(s) == a.0 + b.0);
    assert(green_sum(s) == a.1 + b.1);
    assert(blue_sum(s) == a.2 + b.2);
    assert(merged(s, 1) =~= seq![(
        ((a.0 + b.0) / 2) as u8,
        ((a.1 + b.1) / 2) as u8,
        ((a.2 + b.2) / 2) as u8,
    )]);
}

/// A mirrored layout is twice as long and reads the same from both ends.
pub proof fn lemma_mirror_palindrome(s: Seq<Rgb>)
    ensures
        mirrored(s).len() == 2 * s.len(),
        forall|i: int|
            0 <= i < 2 * s.len() ==> #[trigger] mirrored(s)[i] == mirrored(s)[2 * s.len() - 1 - i],
        mirrored(s).subrange(0, s.len() as int) == s,
{
    let m = mirrored(s);
    let n = s.len() as int;
    assert forall|i: int| 0 <= i < 2 * n implies #[trigger] m[i] == m[2 * n - 1 - i] by {
        if i < n {
            assert(m[i] == s[i]);
            assert(m[2 * n - 1 - i] == s.reverse()[n - 1 - i]);
        } else {
            assert(m[i] == s.reverse()[i - n]);
            assert(m[2 * n - 1 - i] == s[2 * n - 1 - i]);
        }
    }
    assert(m.subrange(0, n) =~= s);
}

/// Merging `len` colours into `len` segments leaves them as they are.
pub proof fn lemma_merge_identity(s: Seq<Rgb>)
    requires
        s.len() > 0,
    ensures
        merged(s, s.len() as int) == s,
{
    let n = s.len() as int;
    assert forall|i: int| 0 <= i < n implies #[trigger] merged(s, n)[i] == s[i] by {
        assert(n * i / n == i) by (nonlinear_arith)
            requires
                n > 0,
        ;
        assert(n * (i + 1) / n == i + 1) by (nonlinear_arith)
            requires
                n > 0,
        ;
        let g = group(s, n, i);
        assert(g =~= seq![s[i]]);
        assert(g.drop_last() =~= Seq::<Rgb>::empty());
        assert(red_sum(g.drop_last()) == 0 && green_sum(g.drop_last()) == 0 && blue_sum(
            g.drop_last(),
        ) == 0);
        assert(g.last() == s[i]);
        assert(red_sum(g) == s[i].0 as nat && green_sum(g) == s[i].1 as nat && blue_sum(g)
            == s[i].2 as nat);
        assert(average(g) == s[i]);
    }
    assert(merged(s, n) =~= s);
}

} // verus!
