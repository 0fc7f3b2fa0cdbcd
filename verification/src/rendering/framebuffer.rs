//! Software framebuffer with dirty-region tracking.
//!
//! All drawing goes into an in-memory pixel buffer.  Flushing pushes **only
//! the changed region** to the hardware display.
//!
//! The framebuffer stores 3 bytes per pixel (R6, G6, B6) in row-major order,
//! totalling `width × height × 3` bytes.  For a 480×320 display this is
//! ~461 KB — comfortably in PSRAM.
//!
//! Every drawing operation marks the affected area dirty; a flush sends the
//! bounding box of all dirty regions since the last flush, then resets the
//! tracker.

use vstd::prelude::*;

use crate::rendering::geometry::{self, Pixel, Point, Rectangle, Rgb666, Size};

verus! {

/// The colour of pixel `(x, y)` in a row-major buffer `width` pixels wide.
pub open spec fn pixel_of(bytes: Seq<u8>, width: int, x: int, y: int) -> Rgb666 {
    let i = (y * width + x) * 3;
    Rgb666 { r: bytes[i], g: bytes[i + 1], b: bytes[i + 2] }
}

/// A clip rectangle the pixel tests can work with: it fits 32-bit signed
/// coordinates, and its far edges, measured from its corner reinterpreted as
/// an unsigned coordinate, fit 32-bit unsigned ones.
pub open spec fn clip_ok(c: Rectangle) -> bool {
    &&& c.fits_i32()
    &&& (c.top_left.x as u32) + c.size.width <= u32::MAX
    &&& (c.top_left.y as u32) + c.size.height <= u32::MAX
}

/// Whether the clip rectangle lets a pixel through.  Coordinates of the clip
/// rectangle are reinterpreted as unsigned, as the pixel test does.
pub open spec fn clip_admits(clip: Option<Rectangle>, x: int, y: int) -> bool {
    match clip {
        None => true,
        Some(c) => {
            let cx = c.top_left.x as u32;
            let cy = c.top_left.y as u32;
            x >= cx && x < cx + c.size.width && y >= cy && y < cy + c.size.height
        },
    }
}

/// The dirty region once `rect` is marked dirty: `rect` is clamped to the
/// screen and to the clip rectangle; a clamped rectangle with area is merged
/// into the dirty region by bounding box, an empty one changes nothing.
pub open spec fn marked(
    width: u32,
    height: u32,
    clip: Option<Rectangle>,
    dirty: Option<Rectangle>,
    rect: Rectangle,
) -> Option<Rectangle> {
    let clamped = clamp_to_screen_and_clip(width, height, clip, rect);
    if clamped.is_empty() {
        dirty
    } else {
        match dirty {
            Some(d) => Some(geometry::bounding_union(d, clamped)),
            None => Some(clamped),
        }
    }
}

/// `rect` clamped to the screen `[0, width) x [0, height)` and then to the
/// clip rectangle.
pub open spec fn clamp_to_screen_and_clip(
    width: u32,
    height: u32,
    clip: Option<Rectangle>,
    rect: Rectangle,
) -> Rectangle {
    let screen = Rectangle {
        top_left: Point { x: 0, y: 0 },
        size: Size { width, height },
    };
    let on_screen = geometry::intersection(rect, screen);
    match clip {
        Some(c) => geometry::intersection(on_screen, c),
        None => on_screen,
    }
}


/// Whether filling `area` paints pixel `(x, y)`: the pixel lies in the area
/// once it is clamped to the screen and the clip rectangle.
pub open spec fn filled(fb: Framebuffer, area: Rectangle, x: int, y: int) -> bool {
    let c = clamp_to_screen_and_clip(fb.spec_width(), fb.spec_height(), fb.clip_region(), area);
    !c.is_empty() && c.contains(x, y)
}


/// Whether `fill_contiguous` with `n` colours on `area` paints pixel
/// `(x, y)`: the colours run row by row through the area, `width` per row
/// (rows past the bottom edge included), and the pixel passes the clip test.
pub open spec fn contiguous_covers(fb: Framebuffer, area: Rectangle, n: int, x: int, y: int) -> bool {
    let ax = area.top_left.x as int;
    let ay = area.top_left.y as int;
    &&& ax <= x < ax + area.size.width
    &&& ay <= y
    &&& contiguous_index(area, x, y) < n
    &&& clip_admits(fb.clip_region(), x, y)
}

/// The index of the colour `fill_contiguous` paints at `(x, y)`.
pub open spec fn contiguous_index(area: Rectangle, x: int, y: int) -> int {
    (y - area.top_left.y) * area.size.width + (x - area.top_left.x)
}


/// The colour `(x, y)` ends up with after drawing `pixels` in order over
/// `base`: the colour of the last pixel drawn there.
pub open spec fn drawn_color(pixels: Seq<Pixel>, x: int, y: int, base: Rgb666) -> Rgb666
    decreases pixels.len(),
{
    if pixels.len() == 0 {
        base
    } else if pixels.last().0.x == x && pixels.last().0.y == y {
        pixels.last().1
    } else {
        drawn_color(pixels.drop_last(), x, y, base)
    }
}

/// The bounds `(min_x, min_y, max_x, max_y)` of the pixels among `pixels`
/// that are visible in `fb`, if any is.
pub open spec fn drawn_bounds(fb: Framebuffer, pixels: Seq<Pixel>) -> Option<(int, int, int, int)>
    decreases pixels.len(),
{
    if pixels.len() == 0 {
        None
    } else {
        let p = pixels.last().0;
        let rest = drawn_bounds(fb, pixels.drop_last());
        if fb.visible(p.x as int, p.y as int) {
            match rest {
                None => Some((p.x as int, p.y as int, p.x as int, p.y as int)),
                Some((a, b, c, d)) => Some(
                    (
                        geometry::min_int(a, p.x as int),
                        geometry::min_int(b, p.y as int),
                        geometry::max_int(c, p.x as int),
                        geometry::max_int(d, p.y as int),
                    ),
                ),
            }
        } else {
            rest
        }
    }
}

/// The rectangle spanning bounds `(min_x, min_y, max_x, max_y)`, both ends included.
pub open spec fn bounds_rect(b: (int, int, int, int)) -> Rectangle {
    Rectangle {
        top_left: Point { x: b.0 as i32, y: b.1 as i32 },
        size: Size { width: (b.2 - b.0 + 1) as u32, height: (b.3 - b.1 + 1) as u32 },
    }
}

/// The clip test only lets through pixels of the clip rectangle.
pub proof fn lemma_clip_admits_inside(c: Rectangle, x: int, y: int)
    requires
        clip_ok(c),
        0 <= x <= i32::MAX,
        0 <= y <= i32::MAX,
        clip_admits(Some(c), x, y),
    ensures
        c.contains(x, y),
{
    lemma_i32_as_u32(c.top_left.x);
    lemma_i32_as_u32(c.top_left.y);
}

proof fn lemma_i32_as_u32(v: i32)
    ensures
        (v as u32) as int == if v < 0 {
            v + 0x1_0000_0000
        } else {
            v as int
        },
{
    if v < 0 {
        assert((v as u32) as int == v + 0x1_0000_0000) by (bit_vector)
            requires
                v < 0,
        ;
    } else {
        assert((v as u32) as int == v) by (bit_vector)
            requires
                v >= 0,
        ;
    }
}

/// Marking a rectangle dirty covers each of its on-screen pixels inside the
/// clip rectangle.
pub proof fn lemma_marked_covers(
    width: u32,
    height: u32,
    clip: Option<Rectangle>,
    dirty: Option<Rectangle>,
    rect: Rectangle,
    x: int,
    y: int,
)
    requires
        rect.fits_i32(),
        width <= i32::MAX,
        height <= i32::MAX,
        clip matches Some(c) ==> clip_ok(c),
        dirty matches Some(d) ==> !d.is_empty() && d.within(width as int, height as int),
        rect.contains(x, y),
        0 <= x < width,
        0 <= y < height,
        clip matches Some(c) ==> c.contains(x, y),
    ensures
        marked(width, height, clip, dirty, rect) matches Some(d) && d.contains(x, y),
{
    let screen = Rectangle { top_left: Point { x: 0, y: 0 }, size: Size { width, height } };
    geometry::lemma_intersection_pixels(rect, screen);
    let on_screen = geometry::intersection(rect, screen);
    assert(on_screen.contains(x, y));
    geometry::lemma_intersection_inside(rect, screen);
    let clamped = clamp_to_screen_and_clip(width, height, clip, rect);
    if let Some(c) = clip {
        geometry::lemma_intersection_pixels(on_screen, c);
        geometry::lemma_intersection_inside(on_screen, c);
    }
    assert(clamped.contains(x, y));
    if let Some(d) = dirty {
        geometry::lemma_intersection_fits(rect, screen);
        geometry::lemma_union_within(d, clamped, width as int, height as int);
    }
}

/// Marking a rectangle dirty makes the dirty region the bounding box of the
/// old region and the rectangle clamped to the screen and the clip
/// rectangle (nothing changes when that clamped rectangle is empty), and the
/// dirty region always lies on screen.
pub proof fn marked_is_bounding_box_on_screen(
    width: u32,
    height: u32,
    clip: Option<Rectangle>,
    dirty: Option<Rectangle>,
    rect: Rectangle,
)
    requires
        rect.fits_i32(),
        width <= i32::MAX,
        height <= i32::MAX,
        clip matches Some(c) ==> clip_ok(c),
        dirty matches Some(d) ==> !d.is_empty() && d.within(width as int, height as int),
    ensures
        ({
            let k = clamp_to_screen_and_clip(width, height, clip, rect);
            &&& k.is_empty() ==> marked(width, height, clip, dirty, rect) == dirty
            &&& !k.is_empty() ==> marked(width, height, clip, dirty, rect) == Some(
                match dirty {
                    Some(d) => geometry::bounding_union(d, k),
                    None => k,
                },
            )
            &&& marked(width, height, clip, dirty, rect) matches Some(m) ==> !m.is_empty()
                && m.within(width as int, height as int)
        }),
{
    let screen = Rectangle { top_left: Point { x: 0, y: 0 }, size: Size { width, height } };
    let k = clamp_to_screen_and_clip(width, height, clip, rect);
    if !k.is_empty() {
        geometry::lemma_intersection_fits(rect, screen);
        geometry::lemma_intersection_inside(rect, screen);
        let on_screen = geometry::intersection(rect, screen);
        if let Some(c) = clip {
            geometry::lemma_intersection_inside(on_screen, c);
        }
        if let Some(d) = dirty {
            geometry::lemma_union_within(d, k, width as int, height as int);
        }
    }
}

/// Marking a rectangle dirty never shrinks the dirty region.
pub proof fn lemma_marked_grows(
    width: u32,
    height: u32,
    clip: Option<Rectangle>,
    dirty: Option<Rectangle>,
    rect: Rectangle,
)
    requires
        rect.fits_i32(),
        width <= i32::MAX,
        height <= i32::MAX,
        clip matches Some(c) ==> clip_ok(c),
        dirty matches Some(d) ==> !d.is_empty() && d.within(width as int, height as int),
    ensures
        dirty matches Some(d0) ==> marked(width, height, clip, dirty, rect) matches Some(d)
            && forall|x: int, y: int| #[trigger] d0.contains(x, y) ==> d.contains(x, y),
{
    let screen = Rectangle { top_left: Point { x: 0, y: 0 }, size: Size { width, height } };
    let clamped = clamp_to_screen_and_clip(width, height, clip, rect);
    if let Some(d0) = dirty {
        if !clamped.is_empty() {
            geometry::lemma_intersection_fits(rect, screen);
            geometry::lemma_intersection_inside(rect, screen);
            let on_screen = geometry::intersection(rect, screen);
            if let Some(c) = clip {
                geometry::lemma_intersection_inside(on_screen, c);
            }
            geometry::lemma_union_within(d0, clamped, width as int, height as int);
        }
    }
}

proof fn lemma_pixel_offset_bound(x: int, y: int, w: int, h: int)
    requires
        0 <= x < w,
        0 <= y < h,
    ensures
        (y * w + x) * 3 + 3 <= w * h * 3,
        0 <= (y * w + x) * 3,
{
    assert((y * w + x) * 3 + 3 <= w * h * 3) by (nonlinear_arith)
        requires
            0 <= x < w,
            0 <= y < h,
    ;
    assert(0 <= (y * w + x) * 3) by (nonlinear_arith)
        requires
            0 <= x < w,
            0 <= y,
    ;
}

proof fn lemma_pixel_offset_distinct(x1: int, y1: int, x2: int, y2: int, w: int)
    requires
        0 <= x1 < w,
        0 <= x2 < w,
        0 <= y1,
        0 <= y2,
        x1 != x2 || y1 != y2,
    ensures
        y1 * w + x1 != y2 * w + x2,
{
    if y1 == y2 {
    } else if y1 < y2 {
        assert(y1 * w + x1 < y2 * w + x2) by (nonlinear_arith)
            requires
                0 <= x1 < w,
                0 <= x2,
                y1 < y2,
        ;
    } else {
        assert(y2 * w + x2 < y1 * w + x1) by (nonlinear_arith)
            requires
                0 <= x2 < w,
                0 <= x1,
                y2 < y1,
        ;
    }
}

/// The dirty-tracking guarantee of a drawing operation: every pixel whose
/// colour changed lies in the new dirty region, and the dirty region only
/// grows.
pub open spec fn dirty_covers_changes(before: Framebuffer, after: Framebuffer) -> bool {
    &&& forall|px: int, py: int|
        before.on_screen(px, py) && #[trigger] after.pixel(px, py) != before.pixel(px, py)
            ==> (after.dirty_region() matches Some(d) && d.contains(px, py))
    &&& before.dirty_region() matches Some(d0) ==> (after.dirty_region() matches Some(d)
        && forall|x: int, y: int| #[trigger] d0.contains(x, y) ==> d.contains(x, y))
}

/// A pixel whose colour drawing `pixels` changed, and that is visible, lies
/// in the bounds of the visible pixels drawn.
pub proof fn lemma_drawn_in_bounds(fb: Framebuffer, pixels: Seq<Pixel>, x: int, y: int, base: Rgb666)
    requires
        fb.visible(x, y),
        drawn_color(pixels, x, y, base) != base,
    ensures
        drawn_bounds(fb, pixels) matches Some(b) && b.0 <= x <= b.2 && b.1 <= y <= b.3,
    decreases pixels.len(),
{
    if pixels.len() > 0 {
        let p = pixels.last().0;
        if !(p.x == x && p.y == y) {
            lemma_drawn_in_bounds(fb, pixels.drop_last(), x, y, base);
        }
    }
}

/// The bounds of the visible pixels drawn lie on screen.
pub proof fn lemma_drawn_bounds_on_screen(fb: Framebuffer, pixels: Seq<Pixel>)
    ensures
        drawn_bounds(fb, pixels) matches Some(b) ==> 0 <= b.0 <= b.2 < fb.spec_width() && 0
            <= b.1 <= b.3 < fb.spec_height(),
    decreases pixels.len(),
{
    if pixels.len() > 0 {
        lemma_drawn_bounds_on_screen(fb, pixels.drop_last());
    }
}

/// A dirty region taken from the framebuffer with the colours of its pixels,
/// row by row.
pub struct FlushRegion {
    pub area: Rectangle,
    pub pixels: Vec<Rgb666>,
}

/// What a flush of `fb` hands out: nothing when nothing is dirty, else the
/// dirty region with the colours of its pixels, row by row.
pub open spec fn flush_carries(fb: Framebuffer, r: Option<FlushRegion>) -> bool {
    match fb.dirty_region() {
        None => r is None,
        Some(d) => r matches Some(region) && region.area == d && region.pixels@.len()
            == d.size.width * d.size.height && forall|row: int, col: int|
            0 <= row < d.size.height && 0 <= col < d.size.width ==> #[trigger] region.pixels@[row
                * d.size.width + col] == fb.pixel(d.top_left.x + col, d.top_left.y + row),
    }
}

/// The display shows the framebuffer's colour at every on-screen pixel
/// outside the framebuffer's dirty region.
pub open spec fn display_in_sync(display: spec_fn(int, int) -> Rgb666, fb: Framebuffer) -> bool {
    forall|x: int, y: int|
        fb.on_screen(x, y) && !(fb.dirty_region() matches Some(d) && d.contains(x, y))
            ==> #[trigger] display(x, y) == fb.pixel(x, y)
}

/// The display once a flushed region is written to it: the region's pixels,
/// row by row, take the colours carried; every other pixel keeps its colour.
pub open spec fn uploaded(display: spec_fn(int, int) -> Rgb666, r: Option<FlushRegion>) -> spec_fn(
    int,
    int,
) -> Rgb666 {
    match r {
        None => display,
        Some(region) => |x: int, y: int|
            if region.area.contains(x, y) {
                region.pixels@[(y - region.area.top_left.y) * region.area.size.width + (x
                    - region.area.top_left.x)]
            } else {
                display(x, y)
            },
    }
}

/// Drawing keeps the display in step: a display that showed everything but
/// the dirty region before a drawing operation still does afterwards, since
/// every pixel the operation changed joins the dirty region.
pub proof fn drawing_keeps_display_in_sync(
    display: spec_fn(int, int) -> Rgb666,
    before: Framebuffer,
    after: Framebuffer,
)
    requires
        display_in_sync(display, before),
        dirty_covers_changes(before, after),
        after.spec_width() == before.spec_width(),
        after.spec_height() == before.spec_height(),
    ensures
        display_in_sync(display, after),
{
    assert forall|x: int, y: int|
        after.on_screen(x, y) && !(after.dirty_region() matches Some(d) && d.contains(x, y)) implies
        #[trigger] display(x, y) == after.pixel(x, y) by {
        if let Some(d0) = before.dirty_region() {
            if d0.contains(x, y) {
                assert(after.dirty_region() matches Some(d) && d.contains(x, y));
            }
        }
        assert(before.on_screen(x, y));
        assert(after.pixel(x, y) == before.pixel(x, y));
    }
}

/// A flush brings the display fully up to date: writing what the flush
/// handed out to a display that was in step with the framebuffer makes it
/// show every pixel of the framebuffer.
pub proof fn flush_brings_display_up_to_date(
    display: spec_fn(int, int) -> Rgb666,
    fb: Framebuffer,
    r: Option<FlushRegion>,
)
    requires
        display_in_sync(display, fb),
        flush_carries(fb, r),
    ensures
        forall|x: int, y: int| fb.on_screen(x, y) ==> #[trigger] uploaded(display, r)(x, y) == fb.pixel(x, y),
{
    assert forall|x: int, y: int| fb.on_screen(x, y) implies #[trigger] uploaded(display, r)(x, y)
        == fb.pixel(x, y) by {
        if let Some(d) = fb.dirty_region() {
            let region = r->0;
            if d.contains(x, y) {
                let row = y - d.top_left.y;
                let col = x - d.top_left.x;
                assert(region.pixels@[row * d.size.width + col] == fb.pixel(
                    d.top_left.x + col,
                    d.top_left.y + row,
                ));
            }
        }
    }
}

/// A row-major RGB666 framebuffer with dirty-rectangle tracking and an
/// optional clip rectangle.
pub struct Framebuffer {
    width: u32,
    height: u32,
    /// Pixel storage: 3 bytes per pixel `[r, g, b]`.
    buf: Vec<u8>,
    /// Bounding box of all modifications since the last flush.
    dirty: Option<Rectangle>,
    /// Optional clip rectangle — when set, all drawing operations are
    /// restricted to this region.
    clip: Option<Rectangle>,
}

impl Framebuffer {
    pub closed spec fn spec_width(&self) -> u32 {
        self.width
    }

    pub closed spec fn spec_height(&self) -> u32 {
        self.height
    }

    /// The pixel bytes, row-major, three per pixel.
    pub closed spec fn bytes(&self) -> Seq<u8> {
        self.buf@
    }

    pub closed spec fn dirty_region(&self) -> Option<Rectangle> {
        self.dirty
    }

    pub closed spec fn clip_region(&self) -> Option<Rectangle> {
        self.clip
    }

    /// The colour of pixel `(x, y)`.
    pub open spec fn pixel(&self, x: int, y: int) -> Rgb666 {
        pixel_of(self.bytes(), self.spec_width() as int, x, y)
    }

    /// Pixel `(x, y)` is on screen and inside the clip rectangle.
    pub open spec fn visible(&self, x: int, y: int) -> bool {
        0 <= x < self.spec_width() && 0 <= y < self.spec_height() && clip_admits(
            self.clip_region(),
            x,
            y,
        )
    }

    /// Pixel `(x, y)` is on screen.
    pub open spec fn on_screen(&self, x: int, y: int) -> bool {
        0 <= x < self.spec_width() && 0 <= y < self.spec_height()
    }

    /// The framebuffer's invariant: the buffer holds three bytes per pixel and
    /// its byte offsets fit in 32 bits; the dirty region, when present, has
    /// area and lies on screen; the clip rectangle is usable.
    pub open spec fn wf(&self) -> bool {
        &&& self.bytes().len() == self.spec_width() * self.spec_height() * 3
        &&& self.spec_width() * self.spec_height() * 3 <= u32::MAX
        &&& self.spec_width() <= i32::MAX
        &&& self.spec_height() <= i32::MAX
        &&& self.dirty_region() matches Some(d) ==> !d.is_empty() && d.within(
            self.spec_width() as int,
            self.spec_height() as int,
        )
        &&& self.clip_region() matches Some(c) ==> clip_ok(c)
    }

    /// Create a new black framebuffer of the given dimensions.
    ///
    /// The buffer's byte offsets are 32-bit numbers on the target, which
    /// bounds `width × height × 3`; coordinates are `i32`, which bounds
    /// each dimension.
    pub fn new(width: u32, height: u32) -> (fb: Framebuffer)
        requires
            width * height * 3 <= u32::MAX,
            width <= i32::MAX,
            height <= i32::MAX,
        ensures
            fb.wf(),
            fb.spec_width() == width,
            fb.spec_height() == height,
            fb.dirty_region() is None,
            fb.clip_region() is None,
            forall|i: int| 0 <= i < fb.bytes().len() ==> fb.bytes()[i] == 0,
    {
        let size = (width as usize) * (height as usize) * 3;
        let mut buf: Vec<u8> = Vec::new();
        let mut i: usize = 0;
        while i < size
            invariant
                i <= size,
                buf@.len() == i,
                forall|j: int| 0 <= j < i ==> buf@[j] == 0,
            decreases size - i,
        {
            buf.push(0);
            i = i + 1;
        }
        Framebuffer { width, height, buf, dirty: None, clip: None }
    }

    /// Returns `true` if any region has been modified since the last flush.
    pub fn is_dirty(&self) -> (r: bool)
        ensures
            r == self.dirty_region() is Some,
    {
        self.dirty.is_some()
    }

    /// Returns the current dirty bounding box, if any.
    pub fn dirty_rect(&self) -> (r: Option<Rectangle>)
        ensures
            r == self.dirty_region(),
    {
        self.dirty
    }

    /// The framebuffer's dimensions.
    pub fn size(&self) -> (s: Size)
        ensures
            s == (Size { width: self.spec_width(), height: self.spec_height() }),
    {
        Size { width: self.width, height: self.height }
    }

    /// The raw pixel bytes.
    pub fn pixel_bytes(&self) -> (b: &[u8])
        ensures
            b@ == self.bytes(),
    {
        self.buf.as_slice()
    }

    /// Set (or clear) the clip rectangle.
    ///
    /// When set, all drawing operations are restricted to pixels inside
    /// this rectangle.  Pass `None` to disable clipping.
    pub fn set_clip(&mut self, clip: Option<Rectangle>)
        requires
            old(self).wf(),
            clip matches Some(c) ==> clip_ok(c),
        ensures
            final(self).wf(),
            final(self).clip_region() == clip,
            final(self).bytes() == old(self).bytes(),
            final(self).dirty_region() == old(self).dirty_region(),
            final(self).spec_width() == old(self).spec_width(),
            final(self).spec_height() == old(self).spec_height(),
    {
        self.clip = clip;
    }

    /// Check whether a pixel coordinate falls inside the current clip rect.
    fn clip_contains(&self, x: u32, y: u32) -> (r: bool)
        requires
            self.wf(),
        ensures
            r == clip_admits(self.clip_region(), x as int, y as int),
    {
        match &self.clip {
            None => true,
            Some(c) => {
                let cx = c.top_left.x as u32;
                let cy = c.top_left.y as u32;
                x >= cx && x < cx + c.size.width && y >= cy && y < cy + c.size.height
            },
        }
    }

    /// Union a rectangle into the dirty tracker (clamped to the screen and
    /// the clip rectangle): the dirty region becomes the bounding box of the
    /// old region and the clamped rectangle, and nothing changes when the
    /// clamped rectangle is empty.
    pub fn mark_dirty(&mut self, rect: Rectangle)
        requires
            old(self).wf(),
            rect.fits_i32(),
        ensures
            final(self).wf(),
            final(self).dirty_region() == marked(
                old(self).spec_width(),
                old(self).spec_height(),
                old(self).clip_region(),
                old(self).dirty_region(),
                rect,
            ),
            final(self).bytes() == old(self).bytes(),
            final(self).clip_region() == old(self).clip_region(),
            final(self).spec_width() == old(self).spec_width(),
            final(self).spec_height() == old(self).spec_height(),
    {
        let fb_rect = Rectangle {
            top_left: Point { x: 0, y: 0 },
            size: Size { width: self.width, height: self.height },
        };
        proof {
            geometry::lemma_intersection_fits(rect, fb_rect);
        }
        let mut clamped = geometry::rectangle_intersection(rect, fb_rect);
        let ghost on_screen = clamped;
        match self.clip {
            Some(clip) => {
                proof {
                    geometry::lemma_intersection_fits(on_screen, clip);
                }
                clamped = geometry::rectangle_intersection(clamped, clip);
            },
            None => {},
        }
        if clamped.size.width == 0 || clamped.size.height == 0 {
            return;
        }
        proof {
            geometry::lemma_intersection_inside(rect, fb_rect);
            if let Some(clip) = self.clip {
                geometry::lemma_intersection_inside(on_screen, clip);
                assert(!on_screen.is_empty());
                geometry::lemma_intersection_inside(rect, fb_rect);
            }
            assert(clamped.within(self.width as int, self.height as int));
        }
        self.dirty = Some(
            match self.dirty {
                Some(existing) => {
                    proof {
                        geometry::lemma_union_within(
                            existing,
                            clamped,
                            self.width as int,
                            self.height as int,
                        );
                    }
                    geometry::bounding_box_union(existing, clamped)
                },
                None => clamped,
            },
        );
    }


    /// Write a single pixel; the caller guarantees it is on screen.
    fn set_px(&mut self, x: u32, y: u32, color: Rgb666)
        requires
            old(self).wf(),
            x < old(self).spec_width(),
            y < old(self).spec_height(),
        ensures
            final(self).wf(),
            forall|px: int, py: int|
                final(self).on_screen(px, py) ==> #[trigger] final(self).pixel(px, py) == if px
                    == x && py == y {
                    color
                } else {
                    old(self).pixel(px, py)
                },
            final(self).dirty_region() == old(self).dirty_region(),
            final(self).clip_region() == old(self).clip_region(),
            final(self).spec_width() == old(self).spec_width(),
            final(self).spec_height() == old(self).spec_height(),
    {
        proof {
            lemma_pixel_offset_bound(x as int, y as int, self.width as int, self.height as int);
        }
        let idx = ((y * self.width + x) * 3) as usize;
        self.buf.set(idx, color.r);
        self.buf.set(idx + 1, color.g);
        self.buf.set(idx + 2, color.b);
        proof {
            let w = self.width as int;
            assert forall|px: int, py: int| self.on_screen(px, py) implies #[trigger] self.pixel(
                px,
                py,
            ) == if px == x && py == y {
                color
            } else {
                old(self).pixel(px, py)
            } by {
                lemma_pixel_offset_bound(px, py, w, self.height as int);
                if px != x || py != y {
                    lemma_pixel_offset_distinct(px, py, x as int, y as int, w);
                }
            }
        }
    }


    /// Fill a rectangle with one colour.  The rectangle is clamped to the
    /// screen and to the clip rectangle; what remains is painted and marked
    /// dirty.
    pub fn fill_solid(&mut self, area: Rectangle, color: Rgb666)
        requires
            old(self).wf(),
            area.fits_i32(),
        ensures
            final(self).wf(),
            forall|px: int, py: int|
                old(self).on_screen(px, py) ==> #[trigger] final(self).pixel(px, py) == if filled(
                    *old(self),
                    area,
                    px,
                    py,
                ) {
                    color
                } else {
                    old(self).pixel(px, py)
                },
            final(self).dirty_region() == marked(
                old(self).spec_width(),
                old(self).spec_height(),
                old(self).clip_region(),
                old(self).dirty_region(),
                clamp_to_screen_and_clip(
                    old(self).spec_width(),
                    old(self).spec_height(),
                    old(self).clip_region(),
                    area,
                ),
            ),
            dirty_covers_changes(*old(self), *final(self)),
            final(self).clip_region() == old(self).clip_region(),
            final(self).spec_width() == old(self).spec_width(),
            final(self).spec_height() == old(self).spec_height(),
    {
        let fb_rect = Rectangle {
            top_left: Point { x: 0, y: 0 },
            size: Size { width: self.width, height: self.height },
        };
        proof {
            geometry::lemma_intersection_fits(area, fb_rect);
        }
        let mut clipped = geometry::rectangle_intersection(area, fb_rect);
        let ghost on_screen = clipped;
        match self.clip {
            Some(clip) => {
                proof {
                    geometry::lemma_intersection_fits(on_screen, clip);
                }
                clipped = geometry::rectangle_intersection(clipped, clip);
            },
            None => {},
        }
        if clipped.size.width == 0 || clipped.size.height == 0 {
            return;
        }
        proof {
            geometry::lemma_intersection_inside(area, fb_rect);
            if let Some(clip) = self.clip {
                geometry::lemma_intersection_inside(on_screen, clip);
                assert(!on_screen.is_empty());
            }
            assert(clipped.within(self.width as int, self.height as int));
            geometry::lemma_intersection_fits(area, fb_rect);
        }
        let ghost start = *self;
        self.mark_dirty(clipped);
        let ghost before = *self;
        let x = clipped.top_left.x as u32;
        let y = clipped.top_left.y as u32;
        let w = clipped.size.width;
        let h = clipped.size.height;
        let mut row = y;
        while row < y + h
            invariant
                self.wf(),
                before.wf(),
                clipped.within(self.spec_width() as int, self.spec_height() as int),
                x == clipped.top_left.x,
                y == clipped.top_left.y,
                w == clipped.size.width,
                h == clipped.size.height,
                y <= row <= y + h,
                self.spec_width() == before.spec_width(),
                self.spec_height() == before.spec_height(),
                self.dirty_region() == before.dirty_region(),
                self.clip_region() == before.clip_region(),
                forall|px: int, py: int|
                    before.on_screen(px, py) ==> #[trigger] self.pixel(px, py) == if clipped.contains(
                        px,
                        py,
                    ) && py < row {
                        color
                    } else {
                        before.pixel(px, py)
                    },
            decreases y + h - row,
        {
            let mut c: u32 = 0;
            while c < w
                invariant
                    self.wf(),
                    before.wf(),
                    clipped.within(self.spec_width() as int, self.spec_height() as int),
                    x == clipped.top_left.x,
                    y == clipped.top_left.y,
                    w == clipped.size.width,
                    h == clipped.size.height,
                    y <= row < y + h,
                    c <= w,
                    self.spec_width() == before.spec_width(),
                    self.spec_height() == before.spec_height(),
                    self.dirty_region() == before.dirty_region(),
                    self.clip_region() == before.clip_region(),
                    forall|px: int, py: int|
                        before.on_screen(px, py) ==> #[trigger] self.pixel(px, py) == if clipped.contains(
                            px,
                            py,
                        ) && (py < row || (py == row && px < x + c)) {
                            color
                        } else {
                            before.pixel(px, py)
                        },
                decreases w - c,
            {
                self.set_px(x + c, row, color);
                c = c + 1;
            }
            row = row + 1;
        }
        proof {
            let w0 = start.spec_width();
            let h0 = start.spec_height();
            assert forall|px: int, py: int|
                start.on_screen(px, py) && #[trigger] self.pixel(px, py) != start.pixel(
                    px,
                    py,
                ) implies self.dirty_region() matches Some(d) && d.contains(px, py) by {
                assert(before.pixel(px, py) == start.pixel(px, py));
                if let Some(clip) = start.clip_region() {
                    geometry::lemma_intersection_inside(on_screen, clip);
                }
                lemma_marked_covers(
                    w0,
                    h0,
                    start.clip_region(),
                    start.dirty_region(),
                    clipped,
                    px,
                    py,
                );
            }
            lemma_marked_grows(w0, h0, start.clip_region(), start.dirty_region(), clipped);
        }
    }


    /// Fill `area` row by row with `colors`, `area.size.width` per row.
    ///
    /// The whole area is marked dirty (clamped to the screen and the clip
    /// rectangle); each colour lands on its pixel when that pixel is on
    /// screen and passes the clip test.  Colours beyond the area's height
    /// continue on the rows below it.
    pub fn fill_contiguous(&mut self, area: Rectangle, colors: &[Rgb666])
        requires
            old(self).wf(),
            area.fits_i32(),
            colors@.len() <= i32::MAX,
            area.top_left.y + colors@.len() <= i32::MAX,
        ensures
            final(self).wf(),
            forall|px: int, py: int|
                old(self).on_screen(px, py) ==> #[trigger] final(self).pixel(px, py) == if area.size.width
                    != 0 && contiguous_covers(*old(self), area, colors@.len() as int, px, py) {
                    colors@[contiguous_index(area, px, py)]
                } else {
                    old(self).pixel(px, py)
                },
            final(self).dirty_region() == if area.size.width == 0 {
                old(self).dirty_region()
            } else {
                marked(
                    old(self).spec_width(),
                    old(self).spec_height(),
                    old(self).clip_region(),
                    old(self).dirty_region(),
                    area,
                )
            },
            colors@.len() <= area.size.width * area.size.height ==> dirty_covers_changes(
                *old(self),
                *final(self),
            ),
            final(self).clip_region() == old(self).clip_region(),
            final(self).spec_width() == old(self).spec_width(),
            final(self).spec_height() == old(self).spec_height(),
    {
        let w = area.size.width;
        if w == 0 {
            return;
        }
        let ghost start = *self;
        self.mark_dirty(area);
        let ghost before = *self;
        let n = colors.len();
        let mut col: u32 = 0;
        let mut row: u32 = 0;
        let mut k: usize = 0;
        while k < n
            invariant
                self.wf(),
                before.wf(),
                area.fits_i32(),
                w == area.size.width,
                w > 0,
                n == colors@.len(),
                n <= i32::MAX,
                area.top_left.y + n <= i32::MAX,
                k <= n,
                col < w,
                row <= k,
                k == row * w + col,
                self.spec_width() == before.spec_width(),
                self.spec_height() == before.spec_height(),
                self.dirty_region() == before.dirty_region(),
                self.clip_region() == before.clip_region(),
                forall|px: int, py: int|
                    before.on_screen(px, py) ==> #[trigger] self.pixel(px, py) == if contiguous_covers(
                        before,
                        area,
                        k as int,
                        px,
                        py,
                    ) {
                        colors@[contiguous_index(area, px, py)]
                    } else {
                        before.pixel(px, py)
                    },
            decreases n - k,
        {
            let color = colors[k];
            let px = area.top_left.x + col as i32;
            let py = area.top_left.y + row as i32;
            let ghost prev = *self;
            if px >= 0 && py >= 0 && (px as u32) < self.width && (py as u32) < self.height
                && self.clip_contains(px as u32, py as u32) {
                self.set_px(px as u32, py as u32, color);
            }
            proof {
                assert forall|qx: int, qy: int| before.on_screen(qx, qy) implies #[trigger] self.pixel(
                    qx,
                    qy,
                ) == if contiguous_covers(before, area, k + 1, qx, qy) {
                    colors@[contiguous_index(area, qx, qy)]
                } else {
                    before.pixel(qx, qy)
                } by {
                    let ax = area.top_left.x as int;
                    let ay = area.top_left.y as int;
                    if ax <= qx < ax + w && ay <= qy {
                        if qx == px && qy == py {
                            assert(contiguous_index(area, qx, qy) == k);
                        } else {
                            lemma_pixel_offset_distinct(
                                qx - ax,
                                qy - ay,
                                col as int,
                                row as int,
                                w as int,
                            );
                            assert(contiguous_index(area, qx, qy) != k);
                        }
                    }
                }
            }
            col = col + 1;
            if col >= w {
                proof {
                    assert((row + 1) * w == row * w + w) by (nonlinear_arith);
                }
                col = 0;
                row = row + 1;
            }
            k = k + 1;
        }
        proof {
            if colors@.len() <= area.size.width * area.size.height {
                assert forall|px: int, py: int|
                    start.on_screen(px, py) && #[trigger] self.pixel(px, py) != start.pixel(
                        px,
                        py,
                    ) implies self.dirty_region() matches Some(d) && d.contains(px, py) by {
                    let ax = area.top_left.x as int;
                    let ay = area.top_left.y as int;
                    let wi = area.size.width as int;
                    let hi = area.size.height as int;
                    assert(before.pixel(px, py) == start.pixel(px, py));
                    assert(contiguous_covers(before, area, n as int, px, py));
                    assert(py - ay < hi) by (nonlinear_arith)
                        requires
                            (py - ay) * wi + (px - ax) < n,
                            n <= wi * hi,
                            0 <= px - ax < wi,
                            0 <= py - ay,
                    ;
                    if let Some(c) = start.clip_region() {
                        lemma_clip_admits_inside(c, px, py);
                    }
                    lemma_marked_covers(
                        start.spec_width(),
                        start.spec_height(),
                        start.clip_region(),
                        start.dirty_region(),
                        area,
                        px,
                        py,
                    );
                }
            }
            lemma_marked_grows(
                start.spec_width(),
                start.spec_height(),
                start.clip_region(),
                start.dirty_region(),
                area,
            );
        }
    }


    /// Draw individual pixels in order.  Pixels off screen or outside the clip
    /// rectangle are skipped; the bounding box of the pixels drawn is marked
    /// dirty.
    pub fn draw_iter(&mut self, pixels: &[Pixel])
        requires
            old(self).wf(),
        ensures
            final(self).wf(),
            forall|px: int, py: int|
                old(self).on_screen(px, py) ==> #[trigger] final(self).pixel(px, py) == if old(
                    self,
                ).visible(px, py) {
                    drawn_color(pixels@, px, py, old(self).pixel(px, py))
                } else {
                    old(self).pixel(px, py)
                },
            final(self).dirty_region() == match drawn_bounds(*old(self), pixels@) {
                None => old(self).dirty_region(),
                Some(b) => marked(
                    old(self).spec_width(),
                    old(self).spec_height(),
                    old(self).clip_region(),
                    old(self).dirty_region(),
                    bounds_rect(b),
                ),
            },
            dirty_covers_changes(*old(self), *final(self)),
            final(self).clip_region() == old(self).clip_region(),
            final(self).spec_width() == old(self).spec_width(),
            final(self).spec_height() == old(self).spec_height(),
    {
        let ghost before = *self;
        let mut min_x = i32::MAX;
        let mut min_y = i32::MAX;
        let mut max_x = i32::MIN;
        let mut max_y = i32::MIN;
        let mut any = false;
        let n = pixels.len();
        let mut k: usize = 0;
        while k < n
            invariant
                self.wf(),
                before.wf(),
                n == pixels@.len(),
                k <= n,
                self.spec_width() == before.spec_width(),
                self.spec_height() == before.spec_height(),
                self.dirty_region() == before.dirty_region(),
                self.clip_region() == before.clip_region(),
                forall|px: int, py: int|
                    before.on_screen(px, py) ==> #[trigger] self.pixel(px, py) == if before.visible(
                        px,
                        py,
                    ) {
                        drawn_color(pixels@.take(k as int), px, py, before.pixel(px, py))
                    } else {
                        before.pixel(px, py)
                    },
                any == drawn_bounds(before, pixels@.take(k as int)) is Some,
                any ==> drawn_bounds(before, pixels@.take(k as int)) == Some(
                    (min_x as int, min_y as int, max_x as int, max_y as int),
                ),
                any ==> 0 <= min_x <= max_x < before.spec_width() && 0 <= min_y <= max_y
                    < before.spec_height(),
                !any ==> min_x == i32::MAX && min_y == i32::MAX && max_x == i32::MIN && max_y
                    == i32::MIN,
            decreases n - k,
        {
            let Pixel(point, color) = pixels[k];
            let x = point.x;
            let y = point.y;
            let ghost prev = *self;
            let ghost (pmin_x, pmin_y, pmax_x, pmax_y, pany) = (min_x, min_y, max_x, max_y, any);
            proof {
                assert(pixels@.take(k + 1).drop_last() =~= pixels@.take(k as int));
                assert(pixels@.take(k + 1).last() == pixels@[k as int]);
            }
            let vis = x >= 0 && y >= 0 && (x as u32) < self.width && (y as u32) < self.height
                && self.clip_contains(x as u32, y as u32);
            assert(vis == before.visible(x as int, y as int));
            if vis {
                self.set_px(x as u32, y as u32, color);
                min_x = if min_x <= x {
                    min_x
                } else {
                    x
                };
                min_y = if min_y <= y {
                    min_y
                } else {
                    y
                };
                max_x = if max_x >= x {
                    max_x
                } else {
                    x
                };
                max_y = if max_y >= y {
                    max_y
                } else {
                    y
                };
                any = true;
            }
            proof {
                let pre = pixels@.take(k as int);
                let post = pixels@.take(k + 1);
                assert forall|px: int, py: int| before.on_screen(px, py) implies #[trigger] self.pixel(
                    px,
                    py,
                ) == if before.visible(px, py) {
                    drawn_color(post, px, py, before.pixel(px, py))
                } else {
                    before.pixel(px, py)
                } by {
                    assert(prev.pixel(px, py) == if before.visible(px, py) {
                        drawn_color(pre, px, py, before.pixel(px, py))
                    } else {
                        before.pixel(px, py)
                    });
                }
                assert(post.last().0 == point);
                assert(drawn_bounds(before, post) == if before.visible(point.x as int, point.y as int) {
                    match drawn_bounds(before, pre) {
                        None => Some((point.x as int, point.y as int, point.x as int, point.y as int)),
                        Some((a, b, c, d)) => Some(
                            (
                                geometry::min_int(a, point.x as int),
                                geometry::min_int(b, point.y as int),
                                geometry::max_int(c, point.x as int),
                                geometry::max_int(d, point.y as int),
                            ),
                        ),
                    }
                } else {
                    drawn_bounds(before, pre)
                });
                if vis {
                    if pany {
                        assert(drawn_bounds(before, pre) == Some(
                            (pmin_x as int, pmin_y as int, pmax_x as int, pmax_y as int),
                        ));
                        assert(drawn_bounds(before, post) == Some(
                            (min_x as int, min_y as int, max_x as int, max_y as int),
                        ));
                    } else {
                        assert(drawn_bounds(before, pre) is None);
                        assert(min_x == x && max_x == x && min_y == y && max_y == y);
                        assert(drawn_bounds(before, post) == Some(
                            (x as int, y as int, x as int, y as int),
                        ));
                    }
                } else {
                    assert(drawn_bounds(before, post) == drawn_bounds(before, pre));
                    assert(pany ==> drawn_bounds(before, pre) == Some(
                        (pmin_x as int, pmin_y as int, pmax_x as int, pmax_y as int),
                    ));
                    assert(min_x == pmin_x && any == pany);
                }
                assert(any == drawn_bounds(before, post) is Some);
                assert(any ==> drawn_bounds(before, post) == Some(
                    (min_x as int, min_y as int, max_x as int, max_y as int),
                ));
                assert(any ==> 0 <= min_x);
                assert(any ==> min_x <= max_x);
                assert(any ==> max_x < before.spec_width());
            }
            k = k + 1;
        }
        proof {
            assert(pixels@.take(n as int) =~= pixels@);
        }
        let ghost drawn = *self;
        if any {
            self.mark_dirty(
                Rectangle {
                    top_left: Point { x: min_x, y: min_y },
                    size: Size {
                        width: (max_x - min_x + 1) as u32,
                        height: (max_y - min_y + 1) as u32,
                    },
                },
            );
        }
        proof {
            assert forall|px: int, py: int| before.on_screen(px, py) implies #[trigger] self.pixel(
                px,
                py,
            ) == if before.visible(px, py) {
                drawn_color(pixels@, px, py, before.pixel(px, py))
            } else {
                before.pixel(px, py)
            } by {
                assert(self.pixel(px, py) == drawn.pixel(px, py));
                assert(drawn.pixel(px, py) == if before.visible(px, py) {
                    drawn_color(pixels@.take(n as int), px, py, before.pixel(px, py))
                } else {
                    before.pixel(px, py)
                });
            }
            lemma_drawn_bounds_on_screen(before, pixels@);
            assert forall|px: int, py: int|
                before.on_screen(px, py) && #[trigger] self.pixel(px, py) != before.pixel(
                    px,
                    py,
                ) implies self.dirty_region() matches Some(d) && d.contains(px, py) by {
                lemma_drawn_in_bounds(before, pixels@, px, py, before.pixel(px, py));
                let b = drawn_bounds(before, pixels@)->0;
                if let Some(c) = before.clip_region() {
                    lemma_clip_admits_inside(c, px, py);
                }
                lemma_marked_covers(
                    before.spec_width(),
                    before.spec_height(),
                    before.clip_region(),
                    before.dirty_region(),
                    bounds_rect(b),
                    px,
                    py,
                );
            }
            if let Some(b) = drawn_bounds(before, pixels@) {
                lemma_marked_grows(
                    before.spec_width(),
                    before.spec_height(),
                    before.clip_region(),
                    before.dirty_region(),
                    bounds_rect(b),
                );
            }
        }
    }

    /// Take the dirty region and the colours of its pixels, row by row, for
    /// transfer to the display; the dirty tracker is reset.  Nothing is
    /// returned when nothing changed since the last flush.
    pub fn flush(&mut self) -> (r: Option<FlushRegion>)
        requires
            old(self).wf(),
        ensures
            final(self).wf(),
            final(self).dirty_region() is None,
            final(self).bytes() == old(self).bytes(),
            final(self).clip_region() == old(self).clip_region(),
            final(self).spec_width() == old(self).spec_width(),
            final(self).spec_height() == old(self).spec_height(),
            flush_carries(*old(self), r),
    {
        let dirty = match self.dirty.take() {
            Some(d) => d,
            None => {
                return None;
            },
        };
        let sx = dirty.top_left.x as u32;
        let sy = dirty.top_left.y as u32;
        let w = dirty.size.width;
        let h = dirty.size.height;
        let mut pixels: Vec<Rgb666> = Vec::new();
        let mut row: u32 = 0;
        while row < h
            invariant
                self.wf(),
                dirty.within(self.spec_width() as int, self.spec_height() as int),
                sx == dirty.top_left.x,
                sy == dirty.top_left.y,
                w == dirty.size.width,
                h == dirty.size.height,
                row <= h,
                pixels@.len() == row * w,
                forall|r: int, c: int|
                    0 <= r < row && 0 <= c < w ==> #[trigger] pixels@[r * w + c] == self.pixel(
                        sx + c,
                        sy + r,
                    ),
            decreases h - row,
        {
            let mut col: u32 = 0;
            while col < w
                invariant
                    self.wf(),
                    dirty.within(self.spec_width() as int, self.spec_height() as int),
                    sx == dirty.top_left.x,
                    sy == dirty.top_left.y,
                    w == dirty.size.width,
                    h == dirty.size.height,
                    row < h,
                    col <= w,
                    pixels@.len() == row * w + col,
                    forall|r: int, c: int|
                        0 <= r < row && 0 <= c < w ==> #[trigger] pixels@[r * w + c] == self.pixel(
                            sx + c,
                            sy + r,
                        ),
                    forall|c: int| 0 <= c < col ==> #[trigger] pixels@[row * w + c] == self.pixel(sx + c, sy + row),
                decreases w - col,
            {
                let x = sx + col;
                let y = sy + row;
                proof {
                    lemma_pixel_offset_bound(x as int, y as int, self.width as int, self.height as int);
                }
                let idx = ((y * self.width + x) * 3) as usize;
                let c = Rgb666 { r: self.buf[idx], g: self.buf[idx + 1], b: self.buf[idx + 2] };
                let ghost prev_pixels = pixels@;
                pixels.push(c);
                proof {
                    assert forall|r: int, cc: int| 0 <= r < row && 0 <= cc < w implies #[trigger] pixels@[r
                        * w + cc] == self.pixel(sx + cc, sy + r) by {
                        assert(r * w + cc < row * w) by (nonlinear_arith)
                            requires
                                0 <= r < row,
                                0 <= cc < w,
                        ;
                        assert(pixels@[r * w + cc] == prev_pixels[r * w + cc]);
                    }
                }
                col = col + 1;
            }
            proof {
                assert forall|r: int, c: int|
                    0 <= r < row + 1 && 0 <= c < w implies #[trigger] pixels@[r * w + c]
                    == self.pixel(sx + c, sy + r) by {
                    if r == row {
                    } else {
                        assert(r * w + c < row * w) by (nonlinear_arith)
                            requires
                                0 <= r < row,
                                0 <= c < w,
                        ;
                    }
                }
                assert((row + 1) * w == row * w + w) by (nonlinear_arith);
            }
            row = row + 1;
        }
        proof {
            assert(h * w == w * h) by (nonlinear_arith);
        }
        Some(FlushRegion { area: dirty, pixels })
    }

    /// Forget the dirty region and return it (what a flush transfers).
    pub fn take_dirty(&mut self) -> (r: Option<Rectangle>)
        requires
            old(self).wf(),
        ensures
            final(self).wf(),
            r == old(self).dirty_region(),
            final(self).dirty_region() is None,
            final(self).bytes() == old(self).bytes(),
            final(self).clip_region() == old(self).clip_region(),
            final(self).spec_width() == old(self).spec_width(),
            final(self).spec_height() == old(self).spec_height(),
    {
        self.dirty.take()
    }
}

} // verus!
