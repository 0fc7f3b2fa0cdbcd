//! Screen layout of the translation display.
//!
//! The translation is shown large in the top section, the transcript small
//! in the bottom section, with a thin separator between them.  Font metrics
//! are measured by the font renderer; once rounded to whole pixels, the
//! placement computed here decides where text goes.

use vstd::prelude::*;

use crate::app_state::ServiceStatus;
use crate::rendering::geometry::{Point, Rectangle, Rgb666, Size};

verus! {

/// Screen width in pixels (landscape).
pub const SCREEN_W: i32 = 480;

/// Screen height in pixels (landscape).
pub const SCREEN_H: i32 = 320;

/// Horizontal padding on each side of the text.
pub const H_PAD: i32 = 8;

/// Top of the translation section.
pub const TRANSLATION_Y: i32 = 4;

/// Row of the separator line between the two sections.
pub const SEPARATOR_Y: i32 = 264;

/// Top of the transcript section, just below the separator.
pub const TRANSCRIPT_Y: i32 = 267;

/// Vertical gap between the status text and the network name under it.
pub const STATUS_LINE_GAP: i32 = 6;

/// Extra vertical space between two wrapped lines of text.
pub const LINE_SPACING: i32 = 2;

/// Duration of one scroll animation frame in ms (about 30 frames a second).
pub const ANIM_FRAME_MS: u64 = 33;

/// Height of the translation section.
pub const TRANSLATION_SECTION_H: i32 = 260;

/// Height of the transcript section.
pub const TRANSCRIPT_SECTION_H: i32 = 53;

/// Light cyan, the colour of the translation text.
pub fn translation_color() -> (c: Rgb666)
    ensures
        c.r == 32 && c.g == 58 && c.b == 63,
{
    Rgb666 { r: 32, g: 58, b: 63 }
}

/// Light grey, the colour of the transcript text.
pub fn transcript_color() -> (c: Rgb666)
    ensures
        c.r == 48 && c.g == 48 && c.b == 48,
{
    Rgb666 { r: 48, g: 48, b: 48 }
}

/// Dark grey, the colour of the separator line.
pub fn separator_color() -> (c: Rgb666)
    ensures
        c.r == 20 && c.g == 20 && c.b == 20,
{
    Rgb666 { r: 20, g: 20, b: 20 }
}

/// The full-width band of a section starting at row `section_y`.
pub fn section_rect(section_y: i32, section_h: u32) -> (r: Rectangle)
    ensures
        r.top_left.x == 0,
        r.top_left.y == section_y,
        r.size.width == SCREEN_W,
        r.size.height == section_h,
{
    Rectangle::new(Point::new(0, section_y), Size::new(480, section_h))
}

/// The one-pixel separator line, inset by the horizontal padding.
pub fn separator_rect() -> (r: Rectangle)
    ensures
        r.top_left.x == H_PAD,
        r.top_left.y == SEPARATOR_Y,
        r.size.width == SCREEN_W - 2 * H_PAD,
        r.size.height == 1,
{
    Rectangle::new(Point::new(H_PAD, SEPARATOR_Y), Size::new(464, 1))
}

/// Half of `v`, rounded toward zero (integer division of a signed value).
pub open spec fn half_toward_zero(v: int) -> int {
    if v >= 0 {
        v / 2
    } else {
        -((-v) / 2)
    }
}

fn half_i64(v: i64) -> (h: i64)
    requires
        v > i64::MIN,
    ensures
        h == half_toward_zero(v as int),
{
    if v >= 0 {
        v / 2
    } else {
        -((-v) / 2)
    }
}

/// `v` fits in an `i32`.
pub open spec fn in_i32(v: int) -> bool {
    i32::MIN <= v <= i32::MAX
}

/// Left edge of a text `text_w` pixels wide centred on a display
/// `display_width` pixels wide.
pub fn centered_x(display_width: i32, text_w: i32) -> (x: i32)
    ensures
        x == half_toward_zero(display_width - text_w),
{
    let h = half_i64(display_width as i64 - text_w as i64);
    h as i32
}

/// Where the primary status text goes in the translation section.
#[derive(Debug, Clone, Copy, PartialEq, Eq, Structural)]
pub enum StatusLayout {
    /// No status: the section is only cleared.
    Hidden,
    /// The status alone, centred vertically at row `y`.
    OneLine(i32),
    /// The status at the first row, the network name at the second.
    TwoLines(i32, i32),
}

/// Place the primary status in a translation section of height
/// `section_h`.
///
/// An empty status is not drawn.  While WiFi is not connected, the network
/// name is shown under the status, the two lines separated by
/// [`STATUS_LINE_GAP`] and centred together; otherwise the status line alone
/// is centred.  `status_line_h` and `subtitle_line_h` are the two fonts'
/// line heights in whole pixels.
pub fn primary_status_layout(
    wifi_status: ServiceStatus,
    status_empty: bool,
    section_h: i32,
    status_line_h: i32,
    subtitle_line_h: i32,
) -> (l: StatusLayout)
    requires
        !status_empty && wifi_status != ServiceStatus::Connected ==> {
            let total_h = status_line_h + STATUS_LINE_GAP + subtitle_line_h;
            let y1 = TRANSLATION_Y + half_toward_zero(section_h - total_h);
            &&& in_i32(status_line_h + STATUS_LINE_GAP)
            &&& in_i32(total_h)
            &&& in_i32(section_h - total_h)
            &&& in_i32(y1 + status_line_h)
            &&& in_i32(y1 + status_line_h + STATUS_LINE_GAP)
        },
        !status_empty && wifi_status == ServiceStatus::Connected ==> in_i32(
            section_h - status_line_h,
        ),
    ensures
        l == if status_empty {
            StatusLayout::Hidden
        } else if wifi_status != ServiceStatus::Connected {
            let total_h = status_line_h + STATUS_LINE_GAP + subtitle_line_h;
            let y1 = TRANSLATION_Y + half_toward_zero(section_h - total_h);
            StatusLayout::TwoLines(y1 as i32, (y1 + status_line_h + STATUS_LINE_GAP) as i32)
        } else {
            StatusLayout::OneLine(
                (TRANSLATION_Y + half_toward_zero(section_h - status_line_h)) as i32,
            )
        },
{
    if status_empty {
        return StatusLayout::Hidden;
    }
    if wifi_status != ServiceStatus::Connected {
        let total_h = status_line_h + STATUS_LINE_GAP + subtitle_line_h;
        let y1 = TRANSLATION_Y + half_i64((section_h - total_h) as i64) as i32;
        let y2 = y1 + status_line_h + STATUS_LINE_GAP;
        StatusLayout::TwoLines(y1, y2)
    } else {
        StatusLayout::OneLine(TRANSLATION_Y + half_i64((section_h - status_line_h) as i64) as i32)
    }
}

/// Row of the top of line `k` when lines are `line_h` apart and the first is
/// at row `first_y`.
pub open spec fn line_top(first_y: int, k: int, line_h: int) -> int {
    first_y + k * line_h
}

/// Whether line `k` of a section is drawn: with lines `line_h` apart and the
/// first at row `first_y`, a line is drawn unless it lies entirely above
/// the section or starts at or below its bottom.
pub open spec fn line_drawn(
    k: int,
    first_y: int,
    line_h: int,
    section_y: int,
    section_h: int,
) -> bool {
    let y = line_top(first_y, k, line_h);
    &&& y + line_h > section_y
    &&& y < section_y + section_h
}

/// The lines of a scrolled section that are drawn: of `n_lines` lines,
/// spaced `line_h` apart with the first at row `first_y` (the section's top
/// minus its scroll offset), those from index `first` up to `end`.
pub fn visible_lines(
    n_lines: usize,
    first_y: i32,
    line_h: i32,
    section_y: i32,
    section_h: i32,
) -> (r: (usize, usize))
    requires
        line_h > 0,
    ensures
        r.0 <= r.1 <= n_lines,
        forall|k: int|
            0 <= k < n_lines ==> ((r.0 <= k < r.1) <==> line_drawn(
                k,
                first_y as int,
                line_h as int,
                section_y as int,
                section_h as int,
            )),
{
    let lh = line_h as i64;
    let top = section_y as i64;
    let bottom = section_y as i64 + section_h as i64;
    let mut y: i64 = first_y as i64;
    let mut i: usize = 0;
    // Skip the lines entirely above the section.
    while i < n_lines && y + lh <= top
        invariant
            i <= n_lines,
            y == first_y + i * line_h,
            first_y <= y,
            y == first_y || y <= top + lh,
            lh == line_h,
            top == section_y,
            line_h > 0,
            forall|k: int| 0 <= k < i ==> #[trigger] line_top(first_y as int, k, line_h as int) + line_h <= section_y,
        decreases n_lines - i,
    {
        proof {
            assert(first_y + i * line_h + line_h == first_y + (i + 1) * line_h) by (nonlinear_arith);
        }
        y = y + lh;
        i = i + 1;
    }
    let first = i;
    // Draw lines until one starts at or below the bottom.
    while i < n_lines && y < bottom
        invariant
            first <= i <= n_lines,
            y == first_y + i * line_h,
            first_y <= y,
            y == first_y || y <= top + lh || y <= bottom + lh,
            lh == line_h,
            top == section_y,
            bottom == section_y + section_h,
            line_h > 0,
            first < n_lines ==> line_top(first_y as int, first as int, line_h as int) + line_h > section_y,
            forall|k: int| first <= k < i ==> #[trigger] line_top(first_y as int, k, line_h as int) < bottom,
        decreases n_lines - i,
    {
        proof {
            assert(first_y + i * line_h + line_h == first_y + (i + 1) * line_h) by (nonlinear_arith);
        }
        y = y + lh;
        i = i + 1;
    }
    proof {
        assert forall|k: int| 0 <= k < n_lines implies ((first <= k < i) <==> line_drawn(
            k,
            first_y as int,
            line_h as int,
            section_y as int,
            section_h as int,
        )) by {
            let yk = line_top(first_y as int, k, line_h as int);
            if k < first {
                assert(yk + line_h <= section_y);
            } else {
                // lines at or after `first` never lie entirely above the section
                assert(yk >= first_y + first * line_h) by (nonlinear_arith)
                    requires
                        k >= first,
                        line_h > 0,
                        yk == first_y + k * line_h,
                ;
                if k >= i {
                    // the loop stopped at a line starting at or below the bottom
                    assert(i < n_lines);
                    assert(first_y + i * line_h >= bottom);
                    assert(yk >= first_y + i * line_h) by (nonlinear_arith)
                        requires
                            k >= i,
                            line_h > 0,
                            yk == first_y + k * line_h,
                    ;
                }
            }
        }
    }
    (first, i)
}

} // verus!
