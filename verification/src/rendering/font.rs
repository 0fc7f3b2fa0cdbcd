//! Anti-aliased glyph compositing.
//!
//! Glyphs are rasterised into coverage bitmaps (0 = background, 255 =
//! foreground); drawing a glyph blends the text colour over the background
//! colour pixel by pixel: `out = fg · α + bg · (1 − α)`.

use vstd::prelude::*;

use crate::rendering::geometry::Rgb666;

verus! {

/// One channel blended at `coverage` out of 255, rounded down.
pub open spec fn blend_value(fg: u8, bg: u8, coverage: u8) -> int {
    (fg * coverage + bg * (255 - coverage)) / 255
}

/// The colour of a glyph pixel with the given coverage.
pub open spec fn blended(fg: Rgb666, bg: Rgb666, coverage: u8) -> Rgb666 {
    Rgb666 {
        r: blend_value(fg.r, bg.r, coverage) as u8,
        g: blend_value(fg.g, bg.g, coverage) as u8,
        b: blend_value(fg.b, bg.b, coverage) as u8,
    }
}

proof fn lemma_blend_bounds(fg: u8, bg: u8, c: u8)
    requires
        fg <= 63,
        bg <= 63,
    ensures
        fg * c + bg * (255 - c) <= 63 * 255,
        0 <= blend_value(fg, bg, c) <= 63,
        (fg <= bg ==> fg <= blend_value(fg, bg, c) <= bg),
        (bg <= fg ==> bg <= blend_value(fg, bg, c) <= fg),
{
    assert(fg * c + bg * (255 - c) <= 63 * 255) by (nonlinear_arith)
        requires
            fg <= 63,
            bg <= 63,
            c <= 255,
    ;
    assert(fg <= bg ==> fg * 255 <= fg * c + bg * (255 - c) <= bg * 255) by (nonlinear_arith)
        requires
            c <= 255,
    ;
    assert(bg <= fg ==> bg * 255 <= fg * c + bg * (255 - c) <= fg * 255) by (nonlinear_arith)
        requires
            c <= 255,
    ;
}

fn blend_channel(fg: u8, bg: u8, coverage: u8) -> (v: u8)
    requires
        fg <= 63,
        bg <= 63,
    ensures
        v == blend_value(fg, bg, coverage),
{
    proof {
        lemma_blend_bounds(fg, bg, coverage);
    }
    let c = coverage as u16;
    let inv = 255 - c;
    ((fg as u16 * c + bg as u16 * inv) / 255) as u8
}

/// Alpha-blend the text colour over the background at `coverage` (0–255).
pub fn blend(fg: Rgb666, bg: Rgb666, coverage: u8) -> (c: Rgb666)
    requires
        fg.wf(),
        bg.wf(),
    ensures
        c == blended(fg, bg, coverage),
        c.wf(),
{
    proof {
        lemma_blend_bounds(fg.r, bg.r, coverage);
        lemma_blend_bounds(fg.g, bg.g, coverage);
        lemma_blend_bounds(fg.b, bg.b, coverage);
    }
    Rgb666 {
        r: blend_channel(fg.r, bg.r, coverage),
        g: blend_channel(fg.g, bg.g, coverage),
        b: blend_channel(fg.b, bg.b, coverage),
    }
}

/// The colours of a glyph's pixels, in bitmap order, for a coverage bitmap.
pub fn glyph_colors(bitmap: &[u8], fg: Rgb666, bg: Rgb666) -> (colors: Vec<Rgb666>)
    requires
        fg.wf(),
        bg.wf(),
    ensures
        colors@.len() == bitmap@.len(),
        forall|i: int| 0 <= i < bitmap@.len() ==> #[trigger] colors@[i] == blended(fg, bg, bitmap@[i]),
{
    let mut colors: Vec<Rgb666> = Vec::new();
    let n = bitmap.len();
    let mut i: usize = 0;
    while i < n
        invariant
            fg.wf(),
            bg.wf(),
            n == bitmap@.len(),
            i <= n,
            colors@.len() == i,
            forall|j: int| 0 <= j < i ==> #[trigger] colors@[j] == blended(fg, bg, bitmap@[j]),
        decreases n - i,
    {
        colors.push(blend(fg, bg, bitmap[i]));
        i = i + 1;
    }
    colors
}

/// Full coverage gives the text colour, zero coverage the background, and
/// every other coverage a channel value between the two.
pub proof fn blend_endpoints(fg: Rgb666, bg: Rgb666, coverage: u8)
    requires
        fg.wf(),
        bg.wf(),
    ensures
        blended(fg, bg, 255) == fg,
        blended(fg, bg, 0) == bg,
        blended(fg, bg, coverage).wf(),
        fg.r <= bg.r ==> fg.r <= blended(fg, bg, coverage).r <= bg.r,
        bg.r <= fg.r ==> bg.r <= blended(fg, bg, coverage).r <= fg.r,
        fg.g <= bg.g ==> fg.g <= blended(fg, bg, coverage).g <= bg.g,
        bg.g <= fg.g ==> bg.g <= blended(fg, bg, coverage).g <= fg.g,
        fg.b <= bg.b ==> fg.b <= blended(fg, bg, coverage).b <= bg.b,
        bg.b <= fg.b ==> bg.b <= blended(fg, bg, coverage).b <= fg.b,
{
    lemma_blend_bounds(fg.r, bg.r, coverage);
    lemma_blend_bounds(fg.g, bg.g, coverage);
    lemma_blend_bounds(fg.b, bg.b, coverage);
    assert(blend_value(fg.r, bg.r, 255) == fg.r) by (nonlinear_arith);
    assert(blend_value(fg.g, bg.g, 255) == fg.g) by (nonlinear_arith);
    assert(blend_value(fg.b, bg.b, 255) == fg.b) by (nonlinear_arith);
    assert(blend_value(fg.r, bg.r, 0) == bg.r) by (nonlinear_arith);
    assert(blend_value(fg.g, bg.g, 0) == bg.g) by (nonlinear_arith);
    assert(blend_value(fg.b, bg.b, 0) == bg.b) by (nonlinear_arith);
}

/// Characters in strictly increasing code point order.
pub open spec fn strictly_increasing(s: Seq<char>) -> bool {
    forall|i: int, j: int| 0 <= i < j < s.len() ==> (s[i] as int) < (s[j] as int)
}

/// Characters in non-decreasing code point order.
pub open spec fn non_decreasing(s: Seq<char>) -> bool {
    forall|i: int, j: int| 0 <= i <= j < s.len() ==> (s[i] as int) <= (s[j] as int)
}

/// `slice::sort_unstable` on characters: as documented, it sorts the slice
/// (characters order by code point) and keeps its elements.
#[verifier::external_body]
fn sort_unstable_chars(v: &mut Vec<char>)
    ensures
        final(v)@.to_multiset() == old(v)@.to_multiset(),
        non_decreasing(final(v)@),
{
    v.sort_unstable();
}

/// The characters of `chars` sorted by code point, each kept once.
pub fn sorted_unique_chars(chars: Vec<char>) -> (r: Vec<char>)
    ensures
        strictly_increasing(r@),
        r@.to_set() == chars@.to_set(),
{
    let ghost input = chars@;
    let mut sorted = chars;
    sort_unstable_chars(&mut sorted);
    proof {
        assert forall|a: char| sorted@.contains(a) <==> input.contains(a) by {
            vstd::seq_lib::to_multiset_contains(sorted@, a);
            vstd::seq_lib::to_multiset_contains(input, a);
        }
    }
    let mut out: Vec<char> = Vec::new();
    let n = sorted.len();
    let mut i: usize = 0;
    while i < n
        invariant
            i <= n,
            n == sorted@.len(),
            non_decreasing(sorted@),
            strictly_increasing(out@),
            i == 0 <==> out@.len() == 0,
            out@.len() > 0 ==> out@.last() == sorted@[i - 1],
            forall|a: char| out@.contains(a) <==> sorted@.subrange(0, i as int).contains(a),
        decreases n - i,
    {
        let c = sorted[i];
        let push = if out.len() == 0 {
            true
        } else {
            out[out.len() - 1] != c
        };
        let ghost before = out@;
        if push {
            out.push(c);
        }
        proof {
            let prefix = sorted@.subrange(0, i as int);
            let next = sorted@.subrange(0, i + 1);
            assert(next == prefix.push(c));
            assert forall|a: char| out@.contains(a) <==> next.contains(a) by {
                if next.contains(a) {
                    let k = choose|k: int| 0 <= k < next.len() && next[k] == a;
                    if k < i {
                        assert(prefix[k] == a);
                        assert(prefix.contains(a));
                        assert(before.contains(a));
                        let j = choose|j: int| 0 <= j < before.len() && before[j] == a;
                        assert(out@[j] == a);
                    } else if !push {
                        assert(before[before.len() - 1] == a);
                        assert(out@[before.len() - 1] == a);
                    } else {
                        assert(out@[out@.len() - 1] == a);
                    }
                    assert(out@.contains(a));
                }
                if out@.contains(a) {
                    let k = choose|k: int| 0 <= k < out@.len() && out@[k] == a;
                    if k < before.len() {
                        assert(before[k] == a);
                        assert(before.contains(a));
                        assert(prefix.contains(a));
                        let m = choose|m: int| 0 <= m < prefix.len() && prefix[m] == a;
                        assert(next[m] == a);
                    } else {
                        assert(next[i as int] == a);
                    }
                    assert(next.contains(a));
                }
            }
            if push && before.len() > 0 {
                assert((sorted@[i - 1] as int) <= (c as int));
            }
        }
        i = i + 1;
    }
    proof {
        assert(sorted@.subrange(0, n as int) == sorted@);
        assert(out@.to_set() =~= input.to_set());
    }
    out
}

} // verus!
