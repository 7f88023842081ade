use vstd::prelude::*;
use crate::color::{Rgba, rgba_spec, black_spec};

verus! {

/// Why a palette cannot be built from a scheme.
#[derive(Clone, Copy, Debug, PartialEq, Eq, Structural)]
pub enum PaletteError {
    /// The scheme has fewer than two anchors, so there is no segment to blend.
    InvalidScheme,
}

/// Channel value at step `j` of `seg` from `c0` towards `c1`: the exact value
/// `c0 + (c1 - c0) * j / seg`, rounded down.
pub open spec fn lerp_channel_spec(c0: u8, c1: u8, j: int, seg: int) -> int {
    (c0 * (seg - j) + c1 * j) / seg
}

/// Component-wise blend of two anchors; alpha is blended like the other
/// channels, from the alpha of one anchor to the alpha of the next.
pub open spec fn lerp_color_spec(c0: Rgba, c1: Rgba, j: int, seg: int) -> Rgba {
    rgba_spec(
        lerp_channel_spec(c0.r, c1.r, j, seg) as u8,
        lerp_channel_spec(c0.g, c1.g, j, seg) as u8,
        lerp_channel_spec(c0.b, c1.b, j, seg) as u8,
        lerp_channel_spec(c0.a, c1.a, j, seg) as u8,
    )
}

/// Colors blended between each pair of neighbouring anchors.
pub open spec fn segment_len_spec(anchor_count: int, max_iter: int) -> int {
    max_iter / (anchor_count - 1)
}

/// Color for iteration count `k`: the `k % seg`-th blend of segment `k / seg`
/// while the segments last, black after them.
pub open spec fn palette_entry(anchors: Seq<Rgba>, max_iter: int, k: int) -> Rgba {
    let seg = segment_len_spec(anchors.len() as int, max_iter);
    if k < (anchors.len() - 1) * seg {
        lerp_color_spec(anchors[k / seg], anchors[k / seg + 1], k % seg, seg)
    } else {
        black_spec()
    }
}

/// The palette of a scheme for counts `0..=max_iter`, as a sequence.
pub open spec fn palette_spec(anchors: Seq<Rgba>, max_iter: int) -> Seq<Rgba> {
    Seq::new((max_iter + 1) as nat, |k: int| palette_entry(anchors, max_iter, k))
}

fn lerp_channel(c0: u8, c1: u8, j: usize, seg: usize) -> (r: u8)
    requires
        j < seg,
    ensures
        r as int == lerp_channel_spec(c0, c1, j as int, seg as int),
{
    proof {
        let s = seg as int;
        let jj = j as int;
        assert(c0 * (s - jj) <= 255 * s && c1 * jj <= 255 * s && 255 * s + 255 * s
            < 0x1_0000_0000_0000_0000_0000_0000_0000_0000) by (nonlinear_arith)
            requires
                0 <= c0 <= 255,
                0 <= c1 <= 255,
                0 <= jj < s,
                s <= usize::MAX;
    }
    let num: u128 = (c0 as u128) * ((seg - j) as u128) + (c1 as u128) * (j as u128);
    proof {
        let s = seg as int;
        let jj = j as int;
        assert(num <= 255 * s) by (nonlinear_arith)
            requires
                num == c0 * (s - jj) + c1 * jj,
                0 <= c0 <= 255,
                0 <= c1 <= 255,
                0 <= jj < s;
        vstd::arithmetic::div_mod::lemma_div_is_ordered(num as int, 255 * s, s);
        vstd::arithmetic::div_mod::lemma_div_multiples_vanish(255, s);
        assert(255 * s == s * 255) by (nonlinear_arith);
    }
    (num / (seg as u128)) as u8
}

fn lerp_color(c0: Rgba, c1: Rgba, j: usize, seg: usize) -> (r: Rgba)
    requires
        j < seg,
    ensures
        r == lerp_color_spec(c0, c1, j as int, seg as int),
{
    Rgba::new(
        lerp_channel(c0.r, c1.r, j, seg),
        lerp_channel(c0.g, c1.g, j, seg),
        lerp_channel(c0.b, c1.b, j, seg),
        lerp_channel(c0.a, c1.a, j, seg),
    )
}

/// Builds the color lookup table for iteration counts `0..=max_iter` by
/// blending `max_iter / (anchors - 1)` colors between each pair of
/// neighbouring anchors and padding the rest with black.
pub fn build_palette(scheme: &Vec<Rgba>, max_iter: usize) -> (r: Result<Vec<Rgba>, PaletteError>)
    requires
        max_iter < usize::MAX,
    ensures
        scheme@.len() < 2 <==> r == Err::<Vec<Rgba>, PaletteError>(PaletteError::InvalidScheme),
        scheme@.len() >= 2 <==> r is Ok,
        r is Ok ==> r->Ok_0@.len() == max_iter + 1,
        r is Ok ==> r->Ok_0@ == palette_spec(scheme@, max_iter as int),
{
    let n = scheme.len();
    if n < 2 {
        return Err(PaletteError::InvalidScheme);
    }
    let seg = max_iter / (n - 1);
    proof {
        let m = max_iter as int;
        let d = (n - 1) as int;
        vstd::arithmetic::div_mod::lemma_fundamental_div_mod(m, d);
        assert(d * seg <= m) by (nonlinear_arith)
            requires
                m == d * (m / d) + m % d,
                m % d >= 0,
                seg == m / d;
    }
    let ghost entries = palette_spec(scheme@, max_iter as int);
    let mut palette: Vec<Rgba> = Vec::new();
    let mut i: usize = 0;
    while i < n - 1
        invariant
            n == scheme@.len(),
            n >= 2,
            seg == segment_len_spec(n as int, max_iter as int),
            (n - 1) * seg <= max_iter,
            i <= n - 1,
            palette@.len() == i * seg,
            forall|k: int| 0 <= k < palette@.len() ==> #[trigger] palette@[k] == entries[k],
            entries == palette_spec(scheme@, max_iter as int),
        decreases n - 1 - i,
    {
        proof {
            assert((i + 1) * seg <= (n - 1) * seg) by (nonlinear_arith)
                requires i + 1 <= n - 1, seg >= 0;
        }
        let mut j: usize = 0;
        while j < seg
            invariant
                n == scheme@.len(),
                n >= 2,
                seg == segment_len_spec(n as int, max_iter as int),
                (n - 1) * seg <= max_iter,
                i < n - 1,
                (i + 1) * seg <= (n - 1) * seg,
                j <= seg,
                palette@.len() == i * seg + j,
                forall|k: int| 0 <= k < palette@.len() ==> #[trigger] palette@[k] == entries[k],
                entries == palette_spec(scheme@, max_iter as int),
            decreases seg - j,
        {
            let c = lerp_color(scheme[i], scheme[i + 1], j, seg);
            proof {
                let k = i * seg + j;
                assert(i * seg + j < (i + 1) * seg) by (nonlinear_arith)
                    requires j < seg;
                vstd::arithmetic::div_mod::lemma_fundamental_div_mod_converse(
                    k as int,
                    seg as int,
                    i as int,
                    j as int,
                );
                assert(k == seg * i + j) by (nonlinear_arith)
                    requires k == i * seg + j;
                assert(c == entries[k as int]);
            }
            palette.push(c);
            j = j + 1;
        }
        proof {
            assert(i * seg + seg == (i + 1) * seg) by (nonlinear_arith);
        }
        i = i + 1;
    }
    while palette.len() <= max_iter
        invariant
            (n - 1) * seg <= palette@.len() <= max_iter + 1,
            forall|k: int| 0 <= k < palette@.len() ==> #[trigger] palette@[k] == entries[k],
            entries == palette_spec(scheme@, max_iter as int),
            n == scheme@.len(),
            seg == segment_len_spec(n as int, max_iter as int),
        decreases max_iter + 1 - palette@.len(),
    {
        let black = Rgba::black();
        proof {
            assert(entries[palette@.len() as int] == black_spec());
        }
        palette.push(black);
    }
    proof {
        assert(palette@ =~= entries);
    }
    Ok(palette)
}

/// Whether a kept palette must be rebuilt before the next pass: it has no
/// color for some count up to the cap, or another scheme was chosen.
pub fn needs_regeneration(palette_len: usize, max_iter: usize, scheme_changed: bool) -> (r: bool)
    ensures
        r == (palette_len <= max_iter || scheme_changed),
{
    palette_len <= max_iter || scheme_changed
}

/// The scheme after `index` in a table of `count` schemes, wrapping to the
/// first after the last.
pub fn next_scheme(index: usize, count: usize) -> (r: usize)
    ensures
        r == (if index + 1 >= count { 0 } else { index + 1 }),
{
    if index >= count || index + 1 >= count {
        0
    } else {
        index + 1
    }
}

} // verus!
