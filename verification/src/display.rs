use vstd::prelude::*;
use crate::text::{
    chars_of, eq_str, is_space, lower, lower_chars, push_chars, push_str, slice_chars, string_of,
    trim, trim_bounds, trim_end, trim_start,
};

verus! {

/// Native Kindle Paperwhite 3-class panel width (portrait).
pub const NATIVE_WIDTH: u32 = 1072;

/// Native Kindle Paperwhite 3-class panel height (portrait).
pub const NATIVE_HEIGHT: u32 = 1448;

/// A screen rectangle in pixels.
#[derive(Clone, Copy, Debug, PartialEq, Eq, Structural)]
pub struct Rect {
    pub left: u32,
    pub top: u32,
    pub width: u32,
    pub height: u32,
}

/// Whether the right and bottom edges of `r` fit in a `u32`.
pub open spec fn rect_edges_fit(r: Rect) -> bool {
    r.left + r.width <= u32::MAX && r.top + r.height <= u32::MAX
}

/// Whether the pixel at column `x` and row `y` lies in `r`.
pub open spec fn rect_contains(r: Rect, x: int, y: int) -> bool {
    r.left <= x < r.left + r.width && r.top <= y < r.top + r.height
}

/// The smallest rectangle that covers both `a` and `b`.
pub open spec fn rect_union(a: Rect, b: Rect) -> Rect {
    let left = if a.left <= b.left { a.left } else { b.left };
    let top = if a.top <= b.top { a.top } else { b.top };
    let right = if a.left + a.width >= b.left + b.width { a.left + a.width } else { b.left + b.width };
    let bottom = if a.top + a.height >= b.top + b.height { a.top + a.height } else { b.top + b.height };
    Rect { left, top, width: (right - left) as u32, height: (bottom - top) as u32 }
}

impl Rect {
    /// The rectangle that covers a whole `width` x `height` frame.
    pub fn full(width: u32, height: u32) -> (r: Self)
        ensures
            r == (Rect { left: 0, top: 0, width, height }),
    {
        Self { left: 0, top: 0, width, height }
    }

    /// The bounding rectangle of `self` and `other`.
    pub fn union(self, other: Self) -> (r: Self)
        requires
            rect_edges_fit(self),
            rect_edges_fit(other),
        ensures
            r == rect_union(self, other),
    {
        let left = if self.left <= other.left { self.left } else { other.left };
        let top = if self.top <= other.top { self.top } else { other.top };
        let self_right = self.left + self.width;
        let other_right = other.left + other.width;
        let right = if self_right >= other_right { self_right } else { other_right };
        let self_bottom = self.top + self.height;
        let other_bottom = other.top + other.height;
        let bottom = if self_bottom >= other_bottom { self_bottom } else { other_bottom };
        Self { left, top, width: right - left, height: bottom - top }
    }
}

/// The rectangle between the given edges, clamped into a `frame_w` x
/// `frame_h` frame so that it keeps at least one pixel each way.
pub open spec fn clamped_rect(left: u32, top: u32, right: u32, bottom: u32, frame_w: u32, frame_h: u32) -> Rect {
    let l: int = if left <= frame_w - 1 { left as int } else { frame_w - 1 };
    let t: int = if top <= frame_h - 1 { top as int } else { frame_h - 1 };
    let r0: int = if right <= frame_w { right as int } else { frame_w as int };
    let b0: int = if bottom <= frame_h { bottom as int } else { frame_h as int };
    let r: int = if r0 >= l + 1 { r0 } else { l + 1 };
    let b: int = if b0 >= t + 1 { b0 } else { t + 1 };
    Rect { left: l as u32, top: t as u32, width: (r - l) as u32, height: (b - t) as u32 }
}

impl Rect {
    /// The rectangle between pixel edges (already rounded outwards from CSS
    /// pixels), clamped into the frame; `None` for an empty frame.
    pub fn clamp_to_frame(left: u32, top: u32, right: u32, bottom: u32, frame_w: u32, frame_h: u32) -> (r: Option<Self>)
        ensures
            frame_w == 0 || frame_h == 0 ==> r is None,
            frame_w > 0 && frame_h > 0 ==> r == Some(clamped_rect(left, top, right, bottom, frame_w, frame_h)),
            r matches Some(rr) ==> rr.width >= 1 && rr.height >= 1 && rr.left + rr.width <= frame_w
                && rr.top + rr.height <= frame_h,
    {
        if frame_w == 0 || frame_h == 0 {
            return None;
        }
        let l = if left <= frame_w - 1 { left } else { frame_w - 1 };
        let t = if top <= frame_h - 1 { top } else { frame_h - 1 };
        let r0 = if right <= frame_w { right } else { frame_w };
        let b0 = if bottom <= frame_h { bottom } else { frame_h };
        let r = if r0 >= l + 1 { r0 } else { l + 1 };
        let b = if b0 >= t + 1 { b0 } else { t + 1 };
        Some(Rect { left: l, top: t, width: r - l, height: b - t })
    }
}

/// The union of two rectangles covers every pixel of both, and its edges fit.
pub proof fn lemma_union_covers(a: Rect, b: Rect)
    requires
        rect_edges_fit(a),
        rect_edges_fit(b),
    ensures
        rect_edges_fit(rect_union(a, b)),
        forall|x: int, y: int| rect_contains(a, x, y) ==> rect_contains(rect_union(a, b), x, y),
        forall|x: int, y: int| rect_contains(b, x, y) ==> rect_contains(rect_union(a, b), x, y),
{
}

/// The union is the smallest such rectangle: every rectangle that covers
/// both also covers their union.
pub proof fn lemma_union_least(a: Rect, b: Rect, c: Rect)
    requires
        rect_edges_fit(a),
        rect_edges_fit(b),
        a.width > 0 && a.height > 0,
        b.width > 0 && b.height > 0,
        forall|x: int, y: int| rect_contains(a, x, y) ==> rect_contains(c, x, y),
        forall|x: int, y: int| rect_contains(b, x, y) ==> rect_contains(c, x, y),
    ensures
        forall|x: int, y: int| rect_contains(rect_union(a, b), x, y) ==> rect_contains(c, x, y),
{
    assert(rect_contains(c, a.left as int, a.top as int));
    assert(rect_contains(c, b.left as int, b.top as int));
    assert(rect_contains(c, a.left + a.width - 1, a.top + a.height - 1));
    assert(rect_contains(c, b.left + b.width - 1, b.top + b.height - 1));
}

/// Union is commutative.
pub proof fn lemma_union_commutative(a: Rect, b: Rect)
    ensures
        rect_union(a, b) == rect_union(b, a),
{
}

/// Union is associative.
pub proof fn lemma_union_associative(a: Rect, b: Rect, c: Rect)
    requires
        rect_edges_fit(a),
        rect_edges_fit(b),
        rect_edges_fit(c),
    ensures
        rect_union(rect_union(a, b), c) == rect_union(a, rect_union(b, c)),
{
}

/// Union of a rectangle with itself is that rectangle.
pub proof fn lemma_union_idempotent(a: Rect)
    requires
        rect_edges_fit(a),
    ensures
        rect_union(a, a) == a,
{
}

/// Logical page orientation relative to the native portrait panel.
///
/// Landscape modes render the page at swapped dimensions and rotate into the
/// physical framebuffer on commit.
#[derive(Clone, Copy, Debug, PartialEq, Eq, Structural)]
pub enum Orientation {
    /// Native panel orientation (1072x1448).
    Portrait,
    /// Clockwise 90 degrees from portrait (logical 1448x1072).
    Landscape,
    /// 180 degrees from portrait.
    PortraitInverted,
    /// Counter-clockwise 90 degrees from portrait (logical 1448x1072).
    LandscapeInverted,
}

/// The orientation that a trimmed, lower-cased name selects.
pub open spec fn orientation_named(t: Seq<char>) -> Option<Orientation> {
    if t == "portrait"@ || t == "0"@ {
        Some(Orientation::Portrait)
    } else if t == "landscape"@ || t == "90"@ || t == "landscape-cw"@ {
        Some(Orientation::Landscape)
    } else if t == "portrait-inverted"@ || t == "inverted"@ || t == "180"@ || t
        == "portrait-flipped"@ {
        Some(Orientation::PortraitInverted)
    } else if t == "landscape-inverted"@ || t == "270"@ || t == "landscape-ccw"@ || t
        == "landscape-flipped"@ {
        Some(Orientation::LandscapeInverted)
    } else {
        None
    }
}

/// The message with which an unknown orientation is refused.
pub open spec fn orientation_error(value: Seq<char>) -> Seq<char> {
    "unsupported display.orientation: "@ + value
        + " (expected portrait, landscape, portrait-inverted, or landscape-inverted)"@
}

/// The name of an orientation.
pub open spec fn orientation_name(o: Orientation) -> Seq<char> {
    match o {
        Orientation::Portrait => "portrait"@,
        Orientation::Landscape => "landscape"@,
        Orientation::PortraitInverted => "portrait-inverted"@,
        Orientation::LandscapeInverted => "landscape-inverted"@,
    }
}

/// The page viewport size of an orientation.
pub open spec fn logical_size_of(o: Orientation) -> (u32, u32) {
    match o {
        Orientation::Portrait | Orientation::PortraitInverted => (NATIVE_WIDTH, NATIVE_HEIGHT),
        Orientation::Landscape | Orientation::LandscapeInverted => (NATIVE_HEIGHT, NATIVE_WIDTH),
    }
}

/// `a - b`, or zero when `b` exceeds `a` (`u32::saturating_sub`).
pub open spec fn sat_sub(a: int, b: int) -> u32 {
    if a >= b { (a - b) as u32 } else { 0 }
}

/// A dirty region in logical page coordinates, mapped into native panel space.
pub open spec fn transformed(o: Orientation, r: Rect) -> Rect {
    let (lw, lh) = logical_size_of(o);
    match o {
        Orientation::Portrait => r,
        Orientation::Landscape => Rect {
            left: sat_sub(lh as int, r.top + r.height),
            top: r.left,
            width: r.height,
            height: r.width,
        },
        Orientation::PortraitInverted => Rect {
            left: sat_sub(lw as int, r.left + r.width),
            top: sat_sub(lh as int, r.top + r.height),
            width: r.width,
            height: r.height,
        },
        Orientation::LandscapeInverted => Rect {
            left: r.top,
            top: sat_sub(lw as int, r.left + r.width),
            width: r.height,
            height: r.width,
        },
    }
}

/// Where the logical pixel at column `x`, row `y` lands on the native panel.
pub open spec fn native_position(o: Orientation, x: int, y: int) -> (int, int) {
    let (lw, lh) = logical_size_of(o);
    match o {
        Orientation::Portrait => (x, y),
        Orientation::Landscape => (lh - 1 - y, x),
        Orientation::PortraitInverted => (lw - 1 - x, lh - 1 - y),
        Orientation::LandscapeInverted => (y, lw - 1 - x),
    }
}

impl Orientation {
    /// Parses an orientation name or angle, ignoring surrounding white space
    /// and ASCII case.
    pub fn parse(value: &str) -> (r: Result<Self, String>)
        ensures
            orientation_named(lower(trim(value@))) matches Some(o) ==> r == Ok::<Self, String>(o),
            orientation_named(lower(trim(value@))) is None ==> (r matches Err(e) && e@
                == orientation_error(value@)),
    {
        let cs = chars_of(value);
        let (start, end) = trim_bounds(&cs);
        let trimmed = slice_chars(&cs, start, end);
        let t = lower_chars(&trimmed);
        if eq_str(&t, "portrait") || eq_str(&t, "0") {
            Ok(Self::Portrait)
        } else if eq_str(&t, "landscape") || eq_str(&t, "90") || eq_str(&t, "landscape-cw") {
            Ok(Self::Landscape)
        } else if eq_str(&t, "portrait-inverted") || eq_str(&t, "inverted") || eq_str(&t, "180")
            || eq_str(&t, "portrait-flipped") {
            Ok(Self::PortraitInverted)
        } else if eq_str(&t, "landscape-inverted") || eq_str(&t, "270") || eq_str(
            &t,
            "landscape-ccw",
        ) || eq_str(&t, "landscape-flipped") {
            Ok(Self::LandscapeInverted)
        } else {
            let mut msg: Vec<char> = Vec::new();
            push_str(&mut msg, "unsupported display.orientation: ");
            push_chars(&mut msg, &cs);
            push_str(
                &mut msg,
                " (expected portrait, landscape, portrait-inverted, or landscape-inverted)",
            );
            Err(string_of(&msg))
        }
    }

    /// The canonical name of the orientation.
    pub fn as_str(self) -> (r: &'static str)
        ensures
            r@ == orientation_name(self),
    {
        match self {
            Self::Portrait => "portrait",
            Self::Landscape => "landscape",
            Self::PortraitInverted => "portrait-inverted",
            Self::LandscapeInverted => "landscape-inverted",
        }
    }

    /// Servo / page viewport size for this orientation.
    pub fn logical_size(self) -> (r: (u32, u32))
        ensures
            r == logical_size_of(self),
    {
        match self {
            Self::Portrait | Self::PortraitInverted => (NATIVE_WIDTH, NATIVE_HEIGHT),
            Self::Landscape | Self::LandscapeInverted => (NATIVE_HEIGHT, NATIVE_WIDTH),
        }
    }

    /// Map a dirty region from logical page coordinates into native FB space.
    pub fn transform_rect(self, region: Rect) -> (r: Rect)
        requires
            rect_edges_fit(region),
        ensures
            r == transformed(self, region),
    {
        let (lw, lh) = self.logical_size();
        match self {
            Self::Portrait => region,
            Self::Landscape => Rect {
                left: lh.saturating_sub(region.top + region.height),
                top: region.left,
                width: region.height,
                height: region.width,
            },
            Self::PortraitInverted => Rect {
                left: lw.saturating_sub(region.left + region.width),
                top: lh.saturating_sub(region.top + region.height),
                width: region.width,
                height: region.height,
            },
            Self::LandscapeInverted => Rect {
                left: region.top,
                top: lw.saturating_sub(region.left + region.width),
                width: region.height,
                height: region.width,
            },
        }
    }
}

/// A region that lies inside the logical page is mapped onto exactly the
/// native pixels of its own pixels: every logical pixel of the region lands
/// inside the transformed region, on the native panel.
pub proof fn lemma_transform_covers_rotated_pixels(o: Orientation, r: Rect, x: int, y: int)
    requires
        r.left + r.width <= logical_size_of(o).0,
        r.top + r.height <= logical_size_of(o).1,
        rect_contains(r, x, y),
    ensures
        rect_contains(transformed(o, r), native_position(o, x, y).0, native_position(o, x, y).1),
        0 <= native_position(o, x, y).0 < NATIVE_WIDTH,
        0 <= native_position(o, x, y).1 < NATIVE_HEIGHT,
{
}

/// A name without surrounding white space or upper-case letters reads as
/// itself once trimmed and lower-cased.
proof fn lemma_plain_name(s: Seq<char>)
    requires
        s.len() > 0,
        !is_space(s[0]),
        !is_space(s.last()),
        forall|i: int| 0 <= i < s.len() ==> !('A' <= #[trigger] s[i] <= 'Z'),
    ensures
        lower(trim(s)) == s,
{
    assert(trim_start(s) == s);
    assert(trim_end(s) == s);
    assert(lower(s) =~= s);
}

/// Every orientation's name parses back to that orientation.
pub proof fn lemma_orientation_name_parses(o: Orientation)
    ensures
        orientation_named(lower(trim(orientation_name(o)))) == Some(o),
{
    reveal_strlit("portrait");
    reveal_strlit("landscape");
    reveal_strlit("portrait-inverted");
    reveal_strlit("landscape-inverted");
    reveal_strlit("0");
    reveal_strlit("90");
    reveal_strlit("landscape-cw");
    reveal_strlit("inverted");
    reveal_strlit("180");
    reveal_strlit("portrait-flipped");
    lemma_plain_name(orientation_name(o));
}

/// A region inside the logical page maps to a region inside the native
/// panel, of the same area.
pub proof fn lemma_transform_stays_on_panel(o: Orientation, r: Rect)
    requires
        r.left + r.width <= logical_size_of(o).0,
        r.top + r.height <= logical_size_of(o).1,
    ensures
        transformed(o, r).left + transformed(o, r).width <= NATIVE_WIDTH,
        transformed(o, r).top + transformed(o, r).height <= NATIVE_HEIGHT,
        transformed(o, r).width * transformed(o, r).height == r.width * r.height,
{
    assert(r.height * r.width == r.width * r.height) by (nonlinear_arith);
}

/// The whole logical page maps onto the whole native panel.
pub proof fn lemma_full_page_maps_to_panel(o: Orientation)
    ensures
        transformed(
            o,
            Rect { left: 0, top: 0, width: logical_size_of(o).0, height: logical_size_of(o).1 },
        ) == (Rect { left: 0, top: 0, width: NATIVE_WIDTH, height: NATIVE_HEIGHT }),
{
}

/// E-ink waveform selection.
#[derive(Clone, Copy, Debug, PartialEq, Eq, Structural)]
pub enum Waveform {
    Auto,
    Fast,
    Quality,
}

/// The waveform that a configuration name selects.
pub open spec fn waveform_named(value: Seq<char>) -> Option<Waveform> {
    if value == "auto"@ {
        Some(Waveform::Auto)
    } else if value == "fast"@ {
        Some(Waveform::Fast)
    } else if value == "quality"@ {
        Some(Waveform::Quality)
    } else {
        None
    }
}

impl Waveform {
    /// Parses a waveform name; names are exact and case-sensitive.
    pub fn parse(value: &str) -> (r: Result<Self, String>)
        ensures
            waveform_named(value@) matches Some(w) ==> r == Ok::<Self, String>(w),
            waveform_named(value@) is None ==> (r matches Err(e) && e@
                == "unsupported display waveform: "@ + value@),
    {
        let cs = chars_of(value);
        if eq_str(&cs, "auto") {
            Ok(Self::Auto)
        } else if eq_str(&cs, "fast") {
            Ok(Self::Fast)
        } else if eq_str(&cs, "quality") {
            Ok(Self::Quality)
        } else {
            let mut msg: Vec<char> = Vec::new();
            push_str(&mut msg, "unsupported display waveform: ");
            push_chars(&mut msg, &cs);
            Err(string_of(&msg))
        }
    }
}

} // verus!

verus! {

/// An 8-bit grayscale frame, row-major.
#[derive(Clone, Debug, PartialEq, Eq)]
pub struct GrayFrame {
    pub width: u32,
    pub height: u32,
    pub pixels: Vec<u8>,
}

/// The pixel at column `x`, row `y` of a row-major buffer `width` pixels wide.
pub open spec fn pixel_at(s: Seq<u8>, width: int, x: int, y: int) -> u8 {
    s[y * width + x]
}

/// Whether the difference of `a` and `b` at index `i` exists and is nonzero.
pub open spec fn pixel_differs(a: Seq<u8>, b: Seq<u8>, i: int) -> bool {
    0 <= i < a.len() && i < b.len() && a[i] != b[i]
}

/// Whether `r` is the bounding box of the indices at which `a` and `b`
/// differ, read as positions in rows of `width` pixels.
pub open spec fn bounds_differences(r: Rect, a: Seq<u8>, b: Seq<u8>, width: int) -> bool {
    &&& forall|i: int| #[trigger]
        pixel_differs(a, b, i) ==> rect_contains(r, i % width, i / width)
    &&& exists|i: int| #[trigger] pixel_differs(a, b, i) && i % width == r.left
    &&& exists|i: int| #[trigger] pixel_differs(a, b, i) && i % width == r.left + r.width - 1
    &&& exists|i: int| #[trigger] pixel_differs(a, b, i) && i / width == r.top
    &&& exists|i: int| #[trigger] pixel_differs(a, b, i) && i / width == r.top + r.height - 1
}

/// The region that changed from `prev` to `cur`: nothing without a previous
/// frame, the whole frame when the sizes differ, else the bounding box of the
/// pixels that differ (`None` when none does).
pub open spec fn changed_region_of(cur: GrayFrame, prev: Option<GrayFrame>) -> Option<Rect> {
    match prev {
        None => None,
        Some(p) => if p.width != cur.width || p.height != cur.height {
            Some(Rect { left: 0, top: 0, width: cur.width, height: cur.height })
        } else if exists|i: int| pixel_differs(cur.pixels@, p.pixels@, i) {
            Some(choose|r: Rect| bounds_differences(r, cur.pixels@, p.pixels@, cur.width as int))
        } else {
            None
        },
    }
}

/// At most one rectangle is the bounding box of the differences.
pub proof fn lemma_bounds_unique(r1: Rect, r2: Rect, a: Seq<u8>, b: Seq<u8>, width: int)
    requires
        width > 0,
        bounds_differences(r1, a, b, width),
        bounds_differences(r2, a, b, width),
    ensures
        r1 == r2,
{
    let l1 = choose|i: int| #[trigger] pixel_differs(a, b, i) && i % width == r1.left;
    let l2 = choose|i: int| #[trigger] pixel_differs(a, b, i) && i % width == r2.left;
    let e1 = choose|i: int|
        #[trigger] pixel_differs(a, b, i) && i % width == r1.left + r1.width - 1;
    let e2 = choose|i: int|
        #[trigger] pixel_differs(a, b, i) && i % width == r2.left + r2.width - 1;
    let t1 = choose|i: int| #[trigger] pixel_differs(a, b, i) && i / width == r1.top;
    let t2 = choose|i: int| #[trigger] pixel_differs(a, b, i) && i / width == r2.top;
    let b1 = choose|i: int|
        #[trigger] pixel_differs(a, b, i) && i / width == r1.top + r1.height - 1;
    let b2 = choose|i: int|
        #[trigger] pixel_differs(a, b, i) && i / width == r2.top + r2.height - 1;
    assert(rect_contains(r2, l1 % width, l1 / width));
    assert(rect_contains(r1, l2 % width, l2 / width));
    assert(rect_contains(r2, e1 % width, e1 / width));
    assert(rect_contains(r1, e2 % width, e2 / width));
    assert(rect_contains(r2, t1 % width, t1 / width));
    assert(rect_contains(r1, t2 % width, t2 / width));
    assert(rect_contains(r2, b1 % width, b1 / width));
    assert(rect_contains(r1, b2 % width, b2 / width));
}

impl GrayFrame {
    /// Whether the pixel buffer holds exactly `width * height` pixels and that
    /// count fits in a `u32`, as `new` guarantees.
    pub open spec fn wf(&self) -> bool {
        &&& self.pixels@.len() == self.width * self.height
        &&& self.width * self.height <= u32::MAX
    }

    /// The pixel at column `x`, row `y`.
    pub open spec fn pixel(&self, x: int, y: int) -> u8 {
        pixel_at(self.pixels@, self.width as int, x, y)
    }

    /// Builds a frame, checking that the buffer holds `width * height` pixels.
    pub fn new(width: u32, height: u32, pixels: Vec<u8>) -> (r: Result<Self, String>)
        ensures
            width * height > u32::MAX ==> (r matches Err(e) && e@ == "frame dimensions overflow"@),
            width * height <= u32::MAX && pixels@.len() != width * height ==> (r matches Err(e)
                && e@ == "frame has "@ + crate::text::decimal(pixels@.len()) + ", expected "@
                + crate::text::decimal((width * height) as nat)),
            width * height <= u32::MAX && pixels@.len() == width * height ==> r == Ok::<
                Self,
                String,
            >(GrayFrame { width, height, pixels }),
    {
        let expected = match width.checked_mul(height) {
            Some(value) => value as usize,
            None => {
                let msg = chars_of("frame dimensions overflow");
                return Err(string_of(&msg));
            },
        };
        if pixels.len() != expected {
            let mut msg: Vec<char> = Vec::new();
            push_str(&mut msg, "frame has ");
            crate::text::push_decimal(&mut msg, pixels.len() as u64);
            push_str(&mut msg, ", expected ");
            crate::text::push_decimal(&mut msg, expected as u64);
            return Err(string_of(&msg));
        }
        Ok(Self { width, height, pixels })
    }

    /// The smallest rectangle that covers every pixel that differs from
    /// `previous`; the whole frame when the sizes differ; `None` when there is
    /// no previous frame or nothing changed.
    pub fn changed_region(&self, previous: Option<&GrayFrame>) -> (r: Option<Rect>)
        requires
            self.wf(),
        ensures
            previous is None ==> r is None,
            previous matches Some(p) && (p.width != self.width || p.height != self.height) ==> r
                == Some(Rect::full_spec(self.width, self.height)),
            previous matches Some(p) && p.width == self.width && p.height == self.height && (
            forall|i: int| !pixel_differs(self.pixels@, p.pixels@, i)) ==> r is None,
            previous matches Some(p) && p.width == self.width && p.height == self.height && (
            exists|i: int| pixel_differs(self.pixels@, p.pixels@, i)) ==> (r matches Some(rr)
                && bounds_differences(rr, self.pixels@, previous.unwrap().pixels@, self.width as int)),
            previous is None ==> r == changed_region_of(*self, None),
            previous matches Some(p) ==> r == changed_region_of(*self, Some(*p)),
    {
        let previous = match previous {
            Some(p) => p,
            None => return None,
        };
        if previous.width != self.width || previous.height != self.height {
            return Some(Rect::full(self.width, self.height));
        }
        let ghost a = self.pixels@;
        let ghost b = previous.pixels@;
        let w = self.width;
        let h = self.height;
        let n = if self.pixels.len() <= previous.pixels.len() {
            self.pixels.len()
        } else {
            previous.pixels.len()
        };
        let mut min_x = w;
        let mut min_y = h;
        let mut max_x: u32 = 0;
        let mut max_y: u32 = 0;
        let mut changed = false;
        let mut index: usize = 0;
        while index < n
            invariant
                a == self.pixels@,
                b == previous.pixels@,
                self.wf(),
                w == self.width,
                h == self.height,
                n <= a.len(),
                n <= b.len(),
                n == a.len() || n == b.len(),
                index <= n,
                !changed ==> forall|j: int| 0 <= j < index ==> !pixel_differs(a, b, j),
                changed ==> {
                    &&& min_x <= max_x < w
                    &&& min_y <= max_y < h
                    &&& forall|j: int|
                        0 <= j < index && #[trigger] pixel_differs(a, b, j) ==> min_x <= j % (w as int)
                            <= max_x && min_y <= j / (w as int) <= max_y
                    &&& exists|j: int|
                        0 <= j < index && #[trigger] pixel_differs(a, b, j) && j % (w as int) == min_x
                    &&& exists|j: int|
                        0 <= j < index && #[trigger] pixel_differs(a, b, j) && j % (w as int) == max_x
                    &&& exists|j: int|
                        0 <= j < index && #[trigger] pixel_differs(a, b, j) && j / (w as int) == min_y
                    &&& exists|j: int|
                        0 <= j < index && #[trigger] pixel_differs(a, b, j) && j / (w as int) == max_y
                },
            decreases n - index,
        {
            if self.pixels[index] != previous.pixels[index] {
                proof {
                    lemma_row_col_bounds(index as int, w as int, h as int);
                }
                let i32_index = index as u32;
                let x = i32_index % w;
                let y = i32_index / w;
                assert(pixel_differs(a, b, index as int));
                if !changed {
                    min_x = x;
                    max_x = x;
                    min_y = y;
                    max_y = y;
                } else {
                    if x < min_x {
                        min_x = x;
                    }
                    if y < min_y {
                        min_y = y;
                    }
                    if x > max_x {
                        max_x = x;
                    }
                    if y > max_y {
                        max_y = y;
                    }
                }
                changed = true;
            }
            index = index + 1;
        }
        if !changed {
            assert forall|i: int| !pixel_differs(a, b, i) by {
                if pixel_differs(a, b, i) {
                    assert(0 <= i < n);
                }
            }
            return None;
        }
        let r = Rect { left: min_x, top: min_y, width: max_x - min_x + 1, height: max_y - min_y + 1 };
        assert forall|i: int| #[trigger] pixel_differs(a, b, i) implies rect_contains(
            r,
            i % (w as int),
            i / (w as int),
        ) by {
            assert(0 <= i < n);
        }
        proof {
            assert(bounds_differences(r, a, b, w as int));
            let chosen = choose|rr: Rect| bounds_differences(rr, a, b, w as int);
            lemma_bounds_unique(r, chosen, a, b, w as int);
        }
        Some(r)
    }
}

impl Rect {
    /// The rectangle that `full` returns.
    pub open spec fn full_spec(width: u32, height: u32) -> Rect {
        Rect { left: 0, top: 0, width, height }
    }
}

/// Row and column of an index into a `w` x `h` frame are in range.
pub proof fn lemma_row_col_bounds(i: int, w: int, h: int)
    requires
        0 <= i < w * h,
        w >= 0,
        h >= 0,
    ensures
        w > 0,
        0 <= i % w < w,
        0 <= i / w < h,
{
    if w == 0 {
        assert(w * h == 0) by (nonlinear_arith)
            requires
                w == 0,
        ;
    }
    assert(0 <= i / w < h) by (nonlinear_arith)
        requires
            0 <= i < w * h,
            w > 0,
    ;
}

/// A frame compared with itself has no changed region.
pub proof fn lemma_identical_frames_unchanged(f: GrayFrame)
    ensures
        forall|i: int| !pixel_differs(f.pixels@, f.pixels@, i),
        changed_region_of(f, Some(f)) is None,
{
}

/// The changed region of a frame against one of another size is the whole
/// frame, and against no frame there is none.
pub proof fn lemma_changed_region_without_match(f: GrayFrame, p: GrayFrame)
    ensures
        changed_region_of(f, None) is None,
        p.width != f.width || p.height != f.height ==> changed_region_of(f, Some(p)) == Some(
            Rect { left: 0, top: 0, width: f.width, height: f.height },
        ),
{
}

} // verus!

verus! {

/// The logical pixel that lands at native column `nx`, row `ny`; the inverse
/// of `native_position`.
pub open spec fn logical_position(o: Orientation, nx: int, ny: int) -> (int, int) {
    let (lw, lh) = logical_size_of(o);
    match o {
        Orientation::Portrait => (nx, ny),
        Orientation::Landscape => (ny, lh - 1 - nx),
        Orientation::PortraitInverted => (lw - 1 - nx, lh - 1 - ny),
        Orientation::LandscapeInverted => (lw - 1 - ny, nx),
    }
}

/// The message with which a frame of the wrong size is refused.
pub open spec fn rotate_size_error(frame: GrayFrame, o: Orientation) -> Seq<char> {
    let (lw, lh) = logical_size_of(o);
    "frame is "@ + crate::text::decimal(frame.width as nat) + "x"@ + crate::text::decimal(
        frame.height as nat,
    ) + ", expected logical "@ + crate::text::decimal(lw as nat) + "x"@
        + crate::text::decimal(lh as nat) + " for "@ + orientation_name(o)
}

/// `native_position` and `logical_position` are inverse bijections between
/// the logical page and the native panel.
pub proof fn lemma_positions_inverse(o: Orientation, nx: int, ny: int, x: int, y: int)
    ensures
        0 <= nx < NATIVE_WIDTH && 0 <= ny < NATIVE_HEIGHT ==> ({
            let (lx, ly) = logical_position(o, nx, ny);
            &&& 0 <= lx < logical_size_of(o).0
            &&& 0 <= ly < logical_size_of(o).1
            &&& native_position(o, lx, ly) == (nx, ny)
        }),
        0 <= x < logical_size_of(o).0 && 0 <= y < logical_size_of(o).1 ==> ({
            let (px, py) = native_position(o, x, y);
            &&& 0 <= px < NATIVE_WIDTH
            &&& 0 <= py < NATIVE_HEIGHT
            &&& logical_position(o, px, py) == (x, y)
        }),
{
}

fn logical_position_exec(o: Orientation, nx: u32, ny: u32) -> (r: (u32, u32))
    requires
        nx < NATIVE_WIDTH,
        ny < NATIVE_HEIGHT,
    ensures
        r.0 as int == logical_position(o, nx as int, ny as int).0,
        r.1 as int == logical_position(o, nx as int, ny as int).1,
        r.0 < logical_size_of(o).0,
        r.1 < logical_size_of(o).1,
{
    let (lw, lh) = o.logical_size();
    match o {
        Orientation::Portrait => (nx, ny),
        Orientation::Landscape => (ny, lh - 1 - nx),
        Orientation::PortraitInverted => (lw - 1 - nx, lh - 1 - ny),
        Orientation::LandscapeInverted => (lw - 1 - ny, nx),
    }
}

proof fn lemma_logical_index_bounds(o: Orientation, lx: int, ly: int)
    requires
        0 <= lx < logical_size_of(o).0,
        0 <= ly < logical_size_of(o).1,
    ensures
        0 <= ly * logical_size_of(o).0 + lx < NATIVE_WIDTH * NATIVE_HEIGHT,
{
    match o {
        Orientation::Portrait | Orientation::PortraitInverted => {
            assert(0 <= ly * 1072 + lx < 1072 * 1448);
        },
        _ => {
            assert(0 <= ly * 1448 + lx < 1072 * 1448);
        },
    }
}

/// The native panel buffer whose pixel at (`nx`, `ny`) is the logical pixel
/// at `logical_position(o, nx, ny)` of `src`.
fn gather_native(src: &Vec<u8>, o: Orientation) -> (r: Vec<u8>)
    requires
        src@.len() == NATIVE_WIDTH * NATIVE_HEIGHT,
    ensures
        r@.len() == NATIVE_WIDTH * NATIVE_HEIGHT,
        forall|nx: int, ny: int|
            0 <= nx < NATIVE_WIDTH && 0 <= ny < NATIVE_HEIGHT ==> #[trigger] pixel_at(
                r@,
                NATIVE_WIDTH as int,
                nx,
                ny,
            ) == pixel_at(
                src@,
                logical_size_of(o).0 as int,
                logical_position(o, nx, ny).0,
                logical_position(o, nx, ny).1,
            ),
{
    let (lw, _lh) = o.logical_size();
    let mut pixels: Vec<u8> = Vec::new();
    let mut ny: u32 = 0;
    while ny < NATIVE_HEIGHT
        invariant
            src@.len() == NATIVE_WIDTH * NATIVE_HEIGHT,
            lw == logical_size_of(o).0,
            ny <= NATIVE_HEIGHT,
            pixels@.len() == ny * NATIVE_WIDTH,
            forall|x: int, y: int|
                0 <= x < NATIVE_WIDTH && 0 <= y < ny ==> #[trigger] pixel_at(
                    pixels@,
                    NATIVE_WIDTH as int,
                    x,
                    y,
                ) == pixel_at(
                    src@,
                    lw as int,
                    logical_position(o, x, y).0,
                    logical_position(o, x, y).1,
                ),
        decreases NATIVE_HEIGHT - ny,
    {
        let mut nx: u32 = 0;
        while nx < NATIVE_WIDTH
            invariant
                src@.len() == NATIVE_WIDTH * NATIVE_HEIGHT,
                lw == logical_size_of(o).0,
                ny < NATIVE_HEIGHT,
                nx <= NATIVE_WIDTH,
                pixels@.len() == ny * NATIVE_WIDTH + nx,
                forall|x: int, y: int|
                    0 <= x < NATIVE_WIDTH && 0 <= y < ny ==> #[trigger] pixel_at(
                        pixels@,
                        NATIVE_WIDTH as int,
                        x,
                        y,
                    ) == pixel_at(
                        src@,
                        lw as int,
                        logical_position(o, x, y).0,
                        logical_position(o, x, y).1,
                    ),
                forall|x: int|
                    0 <= x < nx ==> #[trigger] pixel_at(pixels@, NATIVE_WIDTH as int, x, ny as int)
                        == pixel_at(
                        src@,
                        lw as int,
                        logical_position(o, x, ny as int).0,
                        logical_position(o, x, ny as int).1,
                    ),
            decreases NATIVE_WIDTH - nx,
        {
            let (lx, ly) = logical_position_exec(o, nx, ny);
            proof {
                lemma_logical_index_bounds(o, lx as int, ly as int);
            }
            let index = (ly * lw + lx) as usize;
            let value = src[index];
            let ghost before = pixels@;
            pixels.push(value);
            assert forall|x: int, y: int|
                0 <= x < NATIVE_WIDTH && 0 <= y < ny implies #[trigger] pixel_at(
                    pixels@,
                    NATIVE_WIDTH as int,
                    x,
                    y,
                ) == pixel_at(
                    src@,
                    lw as int,
                    logical_position(o, x, y).0,
                    logical_position(o, x, y).1,
                ) by {
                assert(pixel_at(pixels@, NATIVE_WIDTH as int, x, y) == pixel_at(
                    before,
                    NATIVE_WIDTH as int,
                    x,
                    y,
                ));
            }
            assert forall|x: int|
                0 <= x < nx + 1 implies #[trigger] pixel_at(
                    pixels@,
                    NATIVE_WIDTH as int,
                    x,
                    ny as int,
                ) == pixel_at(
                    src@,
                    lw as int,
                    logical_position(o, x, ny as int).0,
                    logical_position(o, x, ny as int).1,
                ) by {
                if x < nx {
                    assert(pixel_at(pixels@, NATIVE_WIDTH as int, x, ny as int) == pixel_at(
                        before,
                        NATIVE_WIDTH as int,
                        x,
                        ny as int,
                    ));
                }
            }
            nx = nx + 1;
        }
        ny = ny + 1;
    }
    pixels
}

/// Rotate a logical grayscale frame into native panel coordinates.
pub fn rotate_to_native(frame: &GrayFrame, orientation: Orientation) -> (r: Result<
    GrayFrame,
    String,
>)
    requires
        frame.width == logical_size_of(orientation).0 && frame.height == logical_size_of(
            orientation,
        ).1 && orientation != Orientation::Portrait ==> frame.pixels@.len() == frame.width
            * frame.height,
    ensures
        frame.width != logical_size_of(orientation).0 || frame.height != logical_size_of(
            orientation,
        ).1 ==> (r matches Err(e) && e@ == rotate_size_error(*frame, orientation)),
        frame.width == logical_size_of(orientation).0 && frame.height == logical_size_of(
            orientation,
        ).1 && orientation == Orientation::Portrait ==> (r matches Ok(n) && n.width == frame.width
            && n.height == frame.height && n.pixels@ == frame.pixels@),
        frame.width == logical_size_of(orientation).0 && frame.height == logical_size_of(
            orientation,
        ).1 && orientation != Orientation::Portrait ==> (r matches Ok(n) && n.width
            == NATIVE_WIDTH && n.height == NATIVE_HEIGHT && n.wf() && forall|nx: int, ny: int|
            0 <= nx < NATIVE_WIDTH && 0 <= ny < NATIVE_HEIGHT ==> #[trigger] n.pixel(nx, ny)
                == frame.pixel(
                logical_position(orientation, nx, ny).0,
                logical_position(orientation, nx, ny).1,
            )),
{
    let (lw, lh) = orientation.logical_size();
    if frame.width != lw || frame.height != lh {
        let mut msg: Vec<char> = Vec::new();
        push_str(&mut msg, "frame is ");
        crate::text::push_decimal(&mut msg, frame.width as u64);
        push_str(&mut msg, "x");
        crate::text::push_decimal(&mut msg, frame.height as u64);
        push_str(&mut msg, ", expected logical ");
        crate::text::push_decimal(&mut msg, lw as u64);
        push_str(&mut msg, "x");
        crate::text::push_decimal(&mut msg, lh as u64);
        push_str(&mut msg, " for ");
        push_str(&mut msg, orientation.as_str());
        return Err(string_of(&msg));
    }
    match orientation {
        Orientation::Portrait => Ok(
            GrayFrame { width: frame.width, height: frame.height, pixels: frame.pixels.clone() },
        ),
        _ => {
            assert(frame.pixels@.len() == NATIVE_WIDTH * NATIVE_HEIGHT) by {
                assert(orientation != Orientation::Portrait);
                assert(frame.pixels@.len() == frame.width * frame.height);
                if orientation == Orientation::PortraitInverted {
                    assert(frame.width * frame.height == 1072 * 1448) by (nonlinear_arith)
                        requires
                            frame.width == 1072,
                            frame.height == 1448,
                    ;
                } else {
                    assert(frame.width * frame.height == 1072 * 1448) by (nonlinear_arith)
                        requires
                            frame.width == 1448,
                            frame.height == 1072,
                    ;
                }
            }
            let pixels = gather_native(&frame.pixels, orientation);
            Ok(GrayFrame { width: NATIVE_WIDTH, height: NATIVE_HEIGHT, pixels })
        },
    }
}

/// Every logical pixel of a correctly sized frame appears, after rotation, at
/// its native position.
pub proof fn lemma_rotation_moves_each_pixel(
    frame: GrayFrame,
    o: Orientation,
    rotated: GrayFrame,
    x: int,
    y: int,
)
    requires
        o != Orientation::Portrait,
        frame.width == logical_size_of(o).0,
        frame.height == logical_size_of(o).1,
        rotated.width == NATIVE_WIDTH,
        forall|nx: int, ny: int|
            0 <= nx < NATIVE_WIDTH && 0 <= ny < NATIVE_HEIGHT ==> #[trigger] rotated.pixel(nx, ny)
                == frame.pixel(logical_position(o, nx, ny).0, logical_position(o, nx, ny).1),
        0 <= x < logical_size_of(o).0,
        0 <= y < logical_size_of(o).1,
    ensures
        rotated.pixel(native_position(o, x, y).0, native_position(o, x, y).1) == frame.pixel(x, y),
{
    lemma_positions_inverse(o, 0, 0, x, y);
    let (px, py) = native_position(o, x, y);
    assert(rotated.pixel(px, py) == frame.pixel(
        logical_position(o, px, py).0,
        logical_position(o, px, py).1,
    ));
}

} // verus!

verus! {

/// Coalesces refresh requests so that the panel refreshes at most once per
/// interval while auto-refresh is enabled.
#[derive(Debug)]
pub struct Scheduler {
    enabled: bool,
    interval_ms: u64,
    last_refresh: Option<std::time::Instant>,
    pending: bool,
    pending_full: bool,
    sequence: u64,
}

impl Scheduler {
    /// Whether auto-refresh pacing is enabled.
    pub closed spec fn spec_enabled(&self) -> bool {
        self.enabled
    }

    /// The pacing interval in milliseconds.
    pub closed spec fn spec_interval_ms(&self) -> u64 {
        self.interval_ms
    }

    /// When the last refresh was committed, if any.
    pub closed spec fn spec_last_refresh(&self) -> Option<std::time::Instant> {
        self.last_refresh
    }

    /// Whether a refresh has been requested since the last commit.
    pub closed spec fn spec_pending(&self) -> bool {
        self.pending
    }

    /// Whether a full refresh has been requested and not yet taken.
    pub closed spec fn spec_pending_full(&self) -> bool {
        self.pending_full
    }

    /// The number of committed refreshes.
    pub closed spec fn spec_sequence(&self) -> u64 {
        self.sequence
    }

    /// Whether a refresh is due once `elapsed_nanos` have passed since the last
    /// committed refresh.
    pub open spec fn due_after_spec(&self, elapsed_nanos: int) -> bool {
        self.spec_pending() && (!self.spec_enabled() || elapsed_nanos >= self.spec_interval_ms()
            * 1_000_000)
    }

    pub fn new(enabled: bool, interval_ms: u64) -> (r: Self)
        ensures
            r.spec_enabled() == enabled,
            r.spec_interval_ms() == interval_ms,
            r.spec_last_refresh() is None,
            !r.spec_pending(),
            !r.spec_pending_full(),
            r.spec_sequence() == 0,
    {
        Self {
            enabled,
            interval_ms,
            last_refresh: None,
            pending: false,
            pending_full: false,
            sequence: 0,
        }
    }

    /// The scheduler once a refresh (full or not) has been requested.
    pub closed spec fn spec_requested(&self, full: bool) -> Scheduler {
        Scheduler { pending: true, pending_full: self.pending_full || full, ..*self }
    }

    /// The scheduler once a refresh was committed at `now`.
    pub closed spec fn spec_committed(&self, now: std::time::Instant) -> Scheduler {
        Scheduler {
            pending: false,
            pending_full: false,
            last_refresh: Some(now),
            sequence: (self.sequence + 1) as u64,
            ..*self
        }
    }

    /// The scheduler once a full-refresh request was taken.
    pub closed spec fn spec_full_taken(&self) -> Scheduler {
        Scheduler { pending_full: false, ..*self }
    }

    /// The scheduler with pacing switched on or off.
    pub closed spec fn spec_with_enabled(&self, enabled: bool) -> Scheduler {
        Scheduler { enabled, ..*self }
    }

    /// The scheduler with its interval set (zero becomes one millisecond).
    pub closed spec fn spec_with_interval(&self, interval_ms: u64) -> Scheduler {
        Scheduler { interval_ms: if interval_ms == 0 { 1 } else { interval_ms }, ..*self }
    }

    /// Records a refresh request; a full request stays requested until it is
    /// taken or committed.
    pub fn request(&mut self, full: bool)
        ensures
            *final(self) == old(self).spec_requested(full),
            final(self).spec_pending(),
            final(self).spec_pending_full() == (old(self).spec_pending_full() || full),
            final(self).spec_enabled() == old(self).spec_enabled(),
            final(self).spec_interval_ms() == old(self).spec_interval_ms(),
            final(self).spec_last_refresh() == old(self).spec_last_refresh(),
            final(self).spec_sequence() == old(self).spec_sequence(),
    {
        self.pending = true;
        self.pending_full = self.pending_full || full;
    }

    /// Whether a pending refresh is due `elapsed_nanos` after the last commit.
    pub fn due_after(&self, elapsed_nanos: u128) -> (r: bool)
        ensures
            r == self.due_after_spec(elapsed_nanos as int),
    {
        self.pending && (!self.enabled || elapsed_nanos >= (self.interval_ms as u128) * 1_000_000)
    }

    /// Whether a pending refresh is due at `now`: always when pacing is off or
    /// nothing was committed yet, else once the interval has passed.
    pub fn due(&self, now: std::time::Instant) -> (r: bool)
        ensures
            !self.spec_pending() ==> !r,
            self.spec_pending() && (!self.spec_enabled() || self.spec_last_refresh() is None)
                ==> r,
    {
        if !self.pending {
            return false;
        }
        if !self.enabled {
            return true;
        }
        match self.last_refresh {
            None => true,
            Some(last) => self.due_after(crate::wrappers::nanos_between(now, last)),
        }
    }

    /// Marks a refresh as committed at `now` and returns its sequence number.
    pub fn commit(&mut self, now: std::time::Instant) -> (r: u64)
        requires
            old(self).spec_sequence() < u64::MAX,
        ensures
            *final(self) == old(self).spec_committed(now),
            r == old(self).spec_sequence() + 1,
            final(self).spec_sequence() == r,
            !final(self).spec_pending(),
            !final(self).spec_pending_full(),
            final(self).spec_last_refresh() == Some(now),
            final(self).spec_enabled() == old(self).spec_enabled(),
            final(self).spec_interval_ms() == old(self).spec_interval_ms(),
    {
        self.pending = false;
        self.pending_full = false;
        self.last_refresh = Some(now);
        self.sequence = self.sequence + 1;
        self.sequence
    }

    /// Returns whether a full refresh was requested, and clears that request.
    pub fn take_full_request(&mut self) -> (r: bool)
        ensures
            *final(self) == old(self).spec_full_taken(),
            r == old(self).spec_pending_full(),
            !final(self).spec_pending_full(),
            final(self).spec_pending() == old(self).spec_pending(),
            final(self).spec_enabled() == old(self).spec_enabled(),
            final(self).spec_interval_ms() == old(self).spec_interval_ms(),
            final(self).spec_last_refresh() == old(self).spec_last_refresh(),
            final(self).spec_sequence() == old(self).spec_sequence(),
    {
        let full = self.pending_full;
        self.pending_full = false;
        full
    }

    pub fn full_requested(&self) -> (r: bool)
        ensures
            r == self.spec_pending_full(),
    {
        self.pending_full
    }

    pub fn sequence(&self) -> (r: u64)
        ensures
            r == self.spec_sequence(),
    {
        self.sequence
    }

    pub fn set_enabled(&mut self, enabled: bool)
        ensures
            *final(self) == old(self).spec_with_enabled(enabled),
            final(self).spec_enabled() == enabled,
            final(self).spec_interval_ms() == old(self).spec_interval_ms(),
            final(self).spec_last_refresh() == old(self).spec_last_refresh(),
            final(self).spec_pending() == old(self).spec_pending(),
            final(self).spec_pending_full() == old(self).spec_pending_full(),
            final(self).spec_sequence() == old(self).spec_sequence(),
    {
        self.enabled = enabled;
    }

    /// Sets the pacing interval; an interval of zero becomes one millisecond.
    pub fn set_interval_ms(&mut self, interval_ms: u64)
        ensures
            *final(self) == old(self).spec_with_interval(interval_ms),
            final(self).spec_interval_ms() == if interval_ms == 0 { 1 } else { interval_ms },
            final(self).spec_enabled() == old(self).spec_enabled(),
            final(self).spec_last_refresh() == old(self).spec_last_refresh(),
            final(self).spec_pending() == old(self).spec_pending(),
            final(self).spec_pending_full() == old(self).spec_pending_full(),
            final(self).spec_sequence() == old(self).spec_sequence(),
    {
        self.interval_ms = if interval_ms == 0 { 1 } else { interval_ms };
    }

    pub fn enabled(&self) -> (r: bool)
        ensures
            r == self.spec_enabled(),
    {
        self.enabled
    }

    pub fn interval_ms(&self) -> (r: u64)
        ensures
            r == self.spec_interval_ms(),
    {
        self.interval_ms
    }
}


/// A request leaves a refresh pending (a full one when asked, or when one
/// already was) and changes nothing else.
pub proof fn lemma_request_effect(s: Scheduler, full: bool)
    ensures
        s.spec_requested(full).spec_pending(),
        s.spec_requested(full).spec_pending_full() == (s.spec_pending_full() || full),
        s.spec_requested(full).spec_enabled() == s.spec_enabled(),
        s.spec_requested(full).spec_interval_ms() == s.spec_interval_ms(),
        s.spec_requested(full).spec_last_refresh() == s.spec_last_refresh(),
        s.spec_requested(full).spec_sequence() == s.spec_sequence(),
{
}

/// Requests coalesce: two requests in a row leave the scheduler as one
/// request does, full when either was.
pub proof fn lemma_requests_coalesce(s: Scheduler, a: bool, b: bool)
    ensures
        s.spec_requested(a).spec_requested(b) == s.spec_requested(a || b),
{
}

/// Once a refresh is committed nothing is due until the next request,
/// however much time passes.
pub proof fn lemma_committed_not_due(s: Scheduler, now: std::time::Instant, elapsed_nanos: int)
    ensures
        !s.spec_committed(now).due_after_spec(elapsed_nanos),
        s.spec_committed(now).spec_sequence() == s.spec_sequence() + 1 || s.spec_sequence()
            == u64::MAX,
{
}

/// A requested refresh is due once the interval has passed since the last
/// commit, and at once when pacing is off.
pub proof fn lemma_request_due_after_interval(s: Scheduler, full: bool, elapsed_nanos: int)
    requires
        !s.spec_enabled() || elapsed_nanos >= s.spec_interval_ms() * 1_000_000,
    ensures
        s.spec_requested(full).due_after_spec(elapsed_nanos),
{
}

/// With pacing on, a refresh is not due before the whole interval has
/// passed since the last commit: the interval is in milliseconds and the
/// elapsed time in nanoseconds, so `k` milliseconds after a commit a refresh
/// is due exactly when `k` reaches the interval, and once due it stays due
/// as time goes on.
pub proof fn lemma_paced_refresh_waits_for_interval(s: Scheduler, elapsed_nanos: int, k: int, later: int)
    requires
        s.spec_pending(),
        s.spec_enabled(),
    ensures
        elapsed_nanos < s.spec_interval_ms() * 1_000_000 ==> !s.due_after_spec(elapsed_nanos),
        k >= 0 ==> (s.due_after_spec(k * 1_000_000) <==> k >= s.spec_interval_ms()),
        s.due_after_spec(elapsed_nanos) && elapsed_nanos <= later ==> s.due_after_spec(later),
        !s.due_after_spec(s.spec_interval_ms() * 1_000_000 - 1),
{
}

/// A full-refresh request stays until it is taken or a refresh is
/// committed: further requests and pacing changes keep it.
pub proof fn lemma_full_request_persists(s: Scheduler, a: bool, enabled: bool, interval_ms: u64)
    requires
        s.spec_pending_full(),
    ensures
        s.spec_requested(a).spec_pending_full(),
        s.spec_with_enabled(enabled).spec_pending_full(),
        s.spec_with_interval(interval_ms).spec_pending_full(),
        !s.spec_full_taken().spec_pending_full(),
        s.spec_full_taken().spec_pending() == s.spec_pending(),
{
}

/// Setting the interval reads back the interval set (zero reads back as
/// one millisecond), and pacing changes touch nothing else.
pub proof fn lemma_pacing_read_back(s: Scheduler, enabled: bool, interval_ms: u64)
    ensures
        s.spec_with_interval(interval_ms).spec_interval_ms() == if interval_ms == 0 {
            1
        } else {
            interval_ms
        },
        s.spec_with_enabled(enabled).spec_enabled() == enabled,
        s.spec_with_enabled(enabled).spec_pending() == s.spec_pending(),
        s.spec_with_interval(interval_ms).spec_pending() == s.spec_pending(),
        s.spec_with_enabled(enabled).spec_sequence() == s.spec_sequence(),
        s.spec_with_interval(interval_ms).spec_sequence() == s.spec_sequence(),
{
}

} // verus!

verus! {

/// A color channel alpha-blended over white: `(c * a + 255 * (255 - a)) / 255`.
pub open spec fn over_white(c: int, a: int) -> int {
    (c * a + 255 * (255 - a)) / 255
}

/// The luma of an RGBA pixel composited over white, with weights 77, 150 and
/// 29 out of 256.
pub open spec fn gray_of(r: u8, g: u8, b: u8, a: u8) -> u8 {
    ((77 * over_white(r as int, a as int) + 150 * over_white(g as int, a as int) + 29
        * over_white(b as int, a as int)) / 256) as u8
}

/// An opaque pixel is not blended, and its luma weighs red, green and blue
/// by 77, 150 and 29 out of 256: pure red gives 76, pure green 149 and pure
/// blue 28.
pub proof fn lemma_opaque_luma(r: u8, g: u8, b: u8)
    ensures
        over_white(r as int, 255) == r,
        gray_of(r, g, b, 255) == (77 * r + 150 * g + 29 * b) / 256,
        gray_of(255, 0, 0, 255) == 76,
        gray_of(0, 255, 0, 255) == 149,
        gray_of(0, 0, 255, 255) == 28,
{
    assert forall|c: int| 0 <= c <= 255 implies #[trigger] over_white(c, 255) == c by {
        assert((c * 255 + 255 * (255 - 255)) / 255 == c) by (nonlinear_arith)
            requires
                0 <= c <= 255,
        ;
    }
    assert(over_white(r as int, 255) == r);
    assert(over_white(g as int, 255) == g);
    assert(over_white(b as int, 255) == b);
    assert(over_white(0, 255) == 0);
    assert(over_white(255, 255) == 255);
    assert(0 <= 77 * r + 150 * g + 29 * b <= 256 * 255);
}

/// Fully transparent pixels, and opaque white ones, come out white.
pub proof fn lemma_transparent_and_white_render_white(r: u8, g: u8, b: u8, a: u8)
    ensures
        gray_of(r, g, b, 0) == 255,
        gray_of(255, 255, 255, a) == 255,
{
    assert(over_white(r as int, 0) == 255);
    assert(over_white(g as int, 0) == 255);
    assert(over_white(b as int, 0) == 255);
    assert(255 * (a as int) + 255 * (255 - a) == 255 * 255) by (nonlinear_arith);
    assert(over_white(255, a as int) == 255);
}

proof fn lemma_over_white_bounds(c: int, a: int)
    requires
        0 <= c <= 255,
        0 <= a <= 255,
    ensures
        0 <= c * a + 255 * (255 - a) <= 65025,
        0 <= over_white(c, a) <= 255,
{
    assert(0 <= c * a <= 255 * a) by (nonlinear_arith)
        requires
            0 <= c <= 255,
            0 <= a <= 255,
    ;
}

fn over_white_exec(c: u8, a: u8) -> (r: u32)
    ensures
        r == over_white(c as int, a as int),
        r <= 255,
{
    proof {
        lemma_over_white_bounds(c as int, a as int);
    }
    let c32 = c as u32;
    let a32 = a as u32;
    assert(c32 * a32 <= 65025) by (nonlinear_arith)
        requires
            c32 <= 255,
            a32 <= 255,
    ;
    (c32 * a32 + 255 * (255 - a32)) / 255
}

/// The grayscale frame of a `width` x `height` RGBA image (4 bytes per pixel,
/// row-major), each pixel composited over white before conversion.
pub fn grayscale_frame(rgba: &[u8], width: u32, height: u32) -> (r: GrayFrame)
    requires
        rgba@.len() == 4 * (width * height),
        width * height <= u32::MAX,
    ensures
        r.width == width,
        r.height == height,
        r.wf(),
        forall|i: int|
            0 <= i < width * height ==> #[trigger] r.pixels@[i] == gray_of(
                rgba@[4 * i],
                rgba@[4 * i + 1],
                rgba@[4 * i + 2],
                rgba@[4 * i + 3],
            ),
{
    let count: usize = (width * height) as usize;
    let total: usize = rgba.len();
    let mut pixels: Vec<u8> = Vec::new();
    let mut i: usize = 0;
    while i < count
        invariant
            count == width * height,
            rgba@.len() == 4 * count,
            total == rgba@.len(),
            i <= count,
            pixels@.len() == i,
            forall|j: int|
                0 <= j < i ==> #[trigger] pixels@[j] == gray_of(
                    rgba@[4 * j],
                    rgba@[4 * j + 1],
                    rgba@[4 * j + 2],
                    rgba@[4 * j + 3],
                ),
        decreases count - i,
    {
        assert(4 * i + 3 < rgba@.len());
        let red = over_white_exec(rgba[4 * i], rgba[4 * i + 3]);
        let green = over_white_exec(rgba[4 * i + 1], rgba[4 * i + 3]);
        let blue = over_white_exec(rgba[4 * i + 2], rgba[4 * i + 3]);
        let gray = ((77 * red + 150 * green + 29 * blue) / 256) as u8;
        pixels.push(gray);
        i = i + 1;
    }
    GrayFrame { width, height, pixels }
}

/// The FBInk waveform mode of a waveform (automatic, DU, GC16).
pub open spec fn waveform_mode(w: Waveform) -> u8 {
    match w {
        Waveform::Auto => 0,
        Waveform::Fast => 1,
        Waveform::Quality => 2,
    }
}

/// What the framebuffer commit of one frame writes and refreshes.
#[derive(Debug)]
pub struct CommitPlan {
    /// The frame in native panel orientation.
    pub native: GrayFrame,
    /// The dirty region in native panel coordinates.
    pub native_region: Rect,
    /// The FBInk waveform mode.
    pub wfm_mode: u8,
    /// Whether the whole panel refreshes with a flash as the pixels are
    /// written; otherwise only `refresh_rect` is refreshed afterwards.
    pub flashing: bool,
    /// The native region as FBInk's 16-bit rectangle (left, top, width, height).
    pub refresh_rect: (u16, u16, u16, u16),
}

/// Plans the commit of a logical frame: rotates it into the panel's
/// orientation and maps its dirty region there.
pub fn plan_commit(
    frame: &GrayFrame,
    region: Rect,
    orientation: Orientation,
    waveform: Waveform,
    flashing: bool,
) -> (r: Result<CommitPlan, String>)
    requires
        rect_edges_fit(region),
        frame.width == logical_size_of(orientation).0 && frame.height == logical_size_of(
            orientation,
        ).1 && orientation != Orientation::Portrait ==> frame.pixels@.len() == frame.width
            * frame.height,
    ensures
        frame.width != logical_size_of(orientation).0 || frame.height != logical_size_of(
            orientation,
        ).1 ==> (r matches Err(e) && e@ == rotate_size_error(*frame, orientation)),
        frame.width == logical_size_of(orientation).0 && frame.height == logical_size_of(
            orientation,
        ).1 ==> (r matches Ok(p) && p.native_region == transformed(orientation, region)
            && p.wfm_mode == waveform_mode(waveform) && p.flashing == flashing && p.refresh_rect
            == (p.native_region.left as u16, p.native_region.top as u16, p.native_region.width as u16,
        p.native_region.height as u16) && (orientation == Orientation::Portrait ==> (
        p.native.width == frame.width && p.native.height == frame.height && p.native.pixels@
            == frame.pixels@)) && (orientation != Orientation::Portrait ==> (p.native.width
            == NATIVE_WIDTH && p.native.height == NATIVE_HEIGHT && p.native.wf() && forall|
            nx: int,
            ny: int,
        |
            0 <= nx < NATIVE_WIDTH && 0 <= ny < NATIVE_HEIGHT ==> #[trigger] p.native.pixel(nx, ny)
                == frame.pixel(
                logical_position(orientation, nx, ny).0,
                logical_position(orientation, nx, ny).1,
            )))),
{
    let native = match rotate_to_native(frame, orientation) {
        Ok(native) => native,
        Err(error) => return Err(error),
    };
    let native_region = orientation.transform_rect(region);
    let wfm_mode: u8 = match waveform {
        Waveform::Auto => 0,
        Waveform::Fast => 1,
        Waveform::Quality => 2,
    };
    let refresh_rect = (
        native_region.left as u16,
        native_region.top as u16,
        native_region.width as u16,
        native_region.height as u16,
    );
    Ok(CommitPlan { native, native_region, wfm_mode, flashing, refresh_rect })
}

} // verus!
