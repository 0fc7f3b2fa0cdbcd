//! Points, sizes, rectangles and colours as the framebuffer uses them, with
//! the rectangle operations the dirty-region tracking relies on.

use vstd::prelude::*;

use embedded_graphics::geometry::Point as EgPoint;
use embedded_graphics::geometry::Size as EgSize;
use embedded_graphics::primitives::Rectangle as EgRectangle;

verus! {

/// A pixel position; `x` grows rightwards and `y` downwards.
#[derive(Debug, Clone, Copy, PartialEq, Eq, Structural)]
pub struct Point {
    pub x: i32,
    pub y: i32,
}

/// A width and height in pixels.
#[derive(Debug, Clone, Copy, PartialEq, Eq, Structural)]
pub struct Size {
    pub width: u32,
    pub height: u32,
}

/// An axis-aligned rectangle given by its top-left corner and its size.
#[derive(Debug, Clone, Copy, PartialEq, Eq, Structural)]
pub struct Rectangle {
    pub top_left: Point,
    pub size: Size,
}

/// A colour with 6-bit red, green and blue channels.
#[derive(Debug, Clone, Copy, PartialEq, Eq, Structural)]
pub struct Rgb666 {
    pub r: u8,
    pub g: u8,
    pub b: u8,
}

/// A coloured pixel to draw.
#[derive(Debug, Clone, Copy, PartialEq, Eq, Structural)]
pub struct Pixel(pub Point, pub Rgb666);

impl Point {
    pub fn new(x: i32, y: i32) -> (p: Point)
        ensures
            p == (Point { x, y }),
    {
        Point { x, y }
    }
}

impl Size {
    pub fn new(width: u32, height: u32) -> (s: Size)
        ensures
            s == (Size { width, height }),
    {
        Size { width, height }
    }
}

impl Rectangle {
    pub fn new(top_left: Point, size: Size) -> (r: Rectangle)
        ensures
            r == (Rectangle { top_left, size }),
    {
        Rectangle { top_left, size }
    }

    /// The rectangle with no area at the origin.
    pub open spec fn zero() -> Rectangle {
        Rectangle { top_left: Point { x: 0, y: 0 }, size: Size { width: 0, height: 0 } }
    }

    /// The rectangle has no area.
    pub open spec fn is_empty(self) -> bool {
        self.size.width == 0 || self.size.height == 0
    }

    /// The pixel `(x, y)` lies inside the rectangle.
    pub open spec fn contains(self, x: int, y: int) -> bool {
        self.top_left.x <= x < self.top_left.x + self.size.width && self.top_left.y <= y
            < self.top_left.y + self.size.height
    }

    /// The rectangle can be handled with 32-bit signed coordinates: its
    /// extent and its far edges fit in an `i32`.
    pub open spec fn fits_i32(self) -> bool {
        &&& self.size.width <= i32::MAX
        &&& self.size.height <= i32::MAX
        &&& self.top_left.x + self.size.width <= i32::MAX
        &&& self.top_left.y + self.size.height <= i32::MAX
    }

    /// The rectangle lies within `[0, width) x [0, height)`.
    pub open spec fn within(self, width: int, height: int) -> bool {
        &&& 0 <= self.top_left.x
        &&& 0 <= self.top_left.y
        &&& self.top_left.x + self.size.width <= width
        &&& self.top_left.y + self.size.height <= height
    }
}

impl Rgb666 {
    /// A colour from three channel values, each keeping its low 6 bits.
    pub fn new(r: u8, g: u8, b: u8) -> (c: Rgb666)
        ensures
            c == (Rgb666 { r: r & 0x3f, g: g & 0x3f, b: b & 0x3f }),
            c.wf(),
    {
        proof {
            assert(r & 0x3f <= 63) by (bit_vector);
            assert(g & 0x3f <= 63) by (bit_vector);
            assert(b & 0x3f <= 63) by (bit_vector);
        }
        Rgb666 { r: r & 0x3f, g: g & 0x3f, b: b & 0x3f }
    }

    /// Every channel holds a 6-bit value.
    pub open spec fn wf(self) -> bool {
        self.r <= 63 && self.g <= 63 && self.b <= 63
    }

    /// Black: every channel zero.
    pub fn black() -> (c: Rgb666)
        ensures
            c == (Rgb666 { r: 0, g: 0, b: 0 }),
    {
        Rgb666 { r: 0, g: 0, b: 0 }
    }
}

/// The bottom-right pixel of a rectangle, which exists only when it has area.
pub open spec fn bottom_right(r: Rectangle) -> Option<(int, int)> {
    if r.size.width > 0 && r.size.height > 0 {
        Some(((r.top_left.x + r.size.width - 1) as int, (r.top_left.y + r.size.height - 1) as int))
    } else {
        None
    }
}

/// Point containment as `embedded_graphics` decides it: an empty rectangle
/// contains nothing.
pub open spec fn contains_point(r: Rectangle, x: int, y: int) -> bool {
    x >= r.top_left.x && y >= r.top_left.y && match bottom_right(r) {
        Some((bx, by)) => x <= bx && y <= by,
        None => false,
    }
}

/// Whether the closed ranges `[s1, e1]` and `[s2, e2]` overlap, decided the
/// way `embedded_graphics` decides it.
pub open spec fn ranges_overlap(s1: int, e1: int, s2: int, e2: int) -> bool {
    (s2 <= s1 <= e2) || (s2 <= e1 <= e2) || (s1 < s2 && e1 > e2)
}

/// The larger of two integers.
pub open spec fn max_int(a: int, b: int) -> int {
    if a >= b {
        a
    } else {
        b
    }
}

/// The smaller of two integers.
pub open spec fn min_int(a: int, b: int) -> int {
    if a <= b {
        a
    } else {
        b
    }
}

/// The absolute value of an integer.
pub open spec fn abs_int(a: int) -> int {
    if a >= 0 {
        a
    } else {
        -a
    }
}

/// The rectangle spanned by two corner pixels, both included.
pub open spec fn with_corners(x1: int, y1: int, x2: int, y2: int) -> Rectangle {
    Rectangle {
        top_left: Point { x: min_int(x1, x2) as i32, y: min_int(y1, y2) as i32 },
        size: Size { width: (abs_int(x1 - x2) + 1) as u32, height: (abs_int(y1 - y2) + 1) as u32 },
    }
}

/// The intersection of two rectangles (`Rectangle::intersection` of
/// `embedded_graphics`): the overlap of two rectangles with area; an empty
/// rectangle that lies inside the other one; otherwise the zero rectangle.
pub open spec fn intersection(a: Rectangle, b: Rectangle) -> Rectangle {
    match (bottom_right(b), bottom_right(a)) {
        (Some((bx, by)), Some((ax, ay))) => if ranges_overlap(
            a.top_left.x as int,
            ax,
            b.top_left.x as int,
            bx,
        ) && ranges_overlap(a.top_left.y as int, ay, b.top_left.y as int, by) {
            with_corners(
                max_int(a.top_left.x as int, b.top_left.x as int),
                max_int(a.top_left.y as int, b.top_left.y as int),
                min_int(ax, bx),
                min_int(ay, by),
            )
        } else {
            Rectangle::zero()
        },
        (Some(_), None) => if contains_point(b, a.top_left.x as int, a.top_left.y as int) {
            a
        } else {
            Rectangle::zero()
        },
        (None, Some(_)) => if contains_point(a, b.top_left.x as int, b.top_left.y as int) {
            b
        } else {
            Rectangle::zero()
        },
        (None, None) => Rectangle::zero(),
    }
}

/// `Rectangle::intersection` of `embedded_graphics`, on rectangles whose
/// coordinates it can add without overflowing.  The result is what that
/// function's source computes: see [`intersection`].
#[verifier::external_body]
pub(crate) fn rectangle_intersection(a: Rectangle, b: Rectangle) -> (r: Rectangle)
    requires
        a.fits_i32(),
        b.fits_i32(),
    ensures
        r == intersection(a, b),
{
    let ea = EgRectangle::new(EgPoint::new(a.top_left.x, a.top_left.y), EgSize::new(a.size.width, a.size.height));
    let eb = EgRectangle::new(EgPoint::new(b.top_left.x, b.top_left.y), EgSize::new(b.size.width, b.size.height));
    let er = ea.intersection(&eb);
    Rectangle {
        top_left: Point { x: er.top_left.x, y: er.top_left.y },
        size: Size { width: er.size.width, height: er.size.height },
    }
}

/// A non-empty intersection lies inside both rectangles.
pub proof fn lemma_intersection_inside(a: Rectangle, b: Rectangle)
    requires
        a.fits_i32(),
        b.fits_i32(),
        !intersection(a, b).is_empty(),
    ensures
        forall|x: int, y: int| #[trigger]
            intersection(a, b).contains(x, y) ==> a.contains(x, y) && b.contains(x, y),
        intersection(a, b).fits_i32(),
{
}

/// A non-empty intersection contains exactly the pixels both rectangles contain.
pub proof fn lemma_intersection_pixels(a: Rectangle, b: Rectangle)
    requires
        a.fits_i32(),
        b.fits_i32(),
        !a.is_empty(),
        !b.is_empty(),
    ensures
        forall|x: int, y: int| #[trigger]
            intersection(a, b).contains(x, y) <==> a.contains(x, y) && b.contains(x, y),
{
}


/// Intersecting rectangles that fit 32-bit coordinates gives one that does too.
pub proof fn lemma_intersection_fits(a: Rectangle, b: Rectangle)
    requires
        a.fits_i32(),
        b.fits_i32(),
    ensures
        intersection(a, b).fits_i32(),
{
}

/// The bounding box of two rectangles that lie within `[0, w) x [0, h)` lies there too.
pub proof fn lemma_union_within(a: Rectangle, b: Rectangle, w: int, h: int)
    requires
        a.within(w, h),
        b.within(w, h),
        !a.is_empty(),
        !b.is_empty(),
        w <= i32::MAX,
        h <= i32::MAX,
    ensures
        bounding_union(a, b).within(w, h),
        !bounding_union(a, b).is_empty(),
        bounding_union(a, b).fits_i32(),
        forall|x: int, y: int| a.contains(x, y) || b.contains(x, y) ==> #[trigger] bounding_union(
            a,
            b,
        ).contains(x, y),
{
}

/// The smallest rectangle covering two rectangles (both with area).
pub open spec fn bounding_union(a: Rectangle, b: Rectangle) -> Rectangle {
    let min_x = min_int(a.top_left.x as int, b.top_left.x as int);
    let min_y = min_int(a.top_left.y as int, b.top_left.y as int);
    let max_x = max_int(a.top_left.x + a.size.width, b.top_left.x + b.size.width);
    let max_y = max_int(a.top_left.y + a.size.height, b.top_left.y + b.size.height);
    Rectangle {
        top_left: Point { x: min_x as i32, y: min_y as i32 },
        size: Size { width: (max_x - min_x) as u32, height: (max_y - min_y) as u32 },
    }
}

/// Compute the axis-aligned bounding box of two rectangles.
pub fn bounding_box_union(a: Rectangle, b: Rectangle) -> (r: Rectangle)
    requires
        a.fits_i32(),
        b.fits_i32(),
        max_int(a.top_left.x + a.size.width, b.top_left.x + b.size.width) - min_int(
            a.top_left.x as int,
            b.top_left.x as int,
        ) <= i32::MAX,
        max_int(a.top_left.y + a.size.height, b.top_left.y + b.size.height) - min_int(
            a.top_left.y as int,
            b.top_left.y as int,
        ) <= i32::MAX,
    ensures
        r == bounding_union(a, b),
{
    let min_x = if a.top_left.x <= b.top_left.x {
        a.top_left.x
    } else {
        b.top_left.x
    };
    let min_y = if a.top_left.y <= b.top_left.y {
        a.top_left.y
    } else {
        b.top_left.y
    };
    let ax = a.top_left.x + a.size.width as i32;
    let bx = b.top_left.x + b.size.width as i32;
    let ay = a.top_left.y + a.size.height as i32;
    let by = b.top_left.y + b.size.height as i32;
    let max_x = if ax >= bx {
        ax
    } else {
        bx
    };
    let max_y = if ay >= by {
        ay
    } else {
        by
    };
    Rectangle {
        top_left: Point { x: min_x, y: min_y },
        size: Size { width: (max_x - min_x) as u32, height: (max_y - min_y) as u32 },
    }
}

} // verus!
