//! The 128x64 pixel touch display: plane geometry, turning points between
//! the mounted orientation and the panel, the pixel buffer, and which rows
//! of it have to be sent again.
use vstd::prelude::*;
use crate::wiring::Orientation;

verus! {

/// Width of the panel in pixels.
pub const DISPLAY_WIDTH: usize = 128;

/// Height of the panel in pixels.
pub const DISPLAY_HEIGHT: usize = 64;

/// Number of pixels of the panel.
pub const TOTAL_PIXEL_COUNT: usize = 8192;

/// A point of the plane.
#[derive(Debug, Clone, Copy, PartialEq, Eq, Structural, Default)]
pub struct Point {
    pub x: i32,
    pub y: i32,
}

/// A size in pixels.
#[derive(Debug, Clone, Copy, PartialEq, Eq, Structural, Default)]
pub struct Size {
    pub width: u32,
    pub height: u32,
}

/// An axis-aligned rectangle.
#[derive(Debug, Clone, Copy, PartialEq, Eq, Structural, Default)]
pub struct Rectangle {
    pub top_left: Point,
    pub size: Size,
}

impl Rectangle {
    /// Whether `p` is one of the rectangle's pixels (an empty rectangle has none).
    pub open spec fn contains_spec(self, p: Point) -> bool {
        &&& self.size.width > 0
        &&& self.size.height > 0
        &&& self.top_left.x <= p.x < self.top_left.x + self.size.width
        &&& self.top_left.y <= p.y < self.top_left.y + self.size.height
    }

    /// Whether `p` is one of the rectangle's pixels.
    pub fn contains(&self, p: Point) -> (r: bool)
        ensures
            r == self.contains_spec(p),
    {
        if self.size.width == 0 || self.size.height == 0 {
            return false;
        }
        let px = p.x as i64;
        let py = p.y as i64;
        let x0 = self.top_left.x as i64;
        let y0 = self.top_left.y as i64;
        x0 <= px && px < x0 + self.size.width as i64 && y0 <= py && py < y0 + self.size.height as i64
    }
}

/// Whether the display is wider than high or the other way round.
#[derive(Debug, Clone, Copy, PartialEq, Eq, Structural, Hash)]
pub enum OrientationFormat {
    Portrait,
    Landscape,
}

/// The format a mounting gives.
pub fn format(orientation: &Orientation) -> (f: OrientationFormat)
    ensures
        f == (match *orientation {
            Orientation::Straight | Orientation::UpsideDown => OrientationFormat::Landscape,
            Orientation::LeftDown | Orientation::RightDown => OrientationFormat::Portrait,
        }),
{
    match orientation {
        Orientation::Straight | Orientation::UpsideDown => OrientationFormat::Landscape,
        Orientation::LeftDown | Orientation::RightDown => OrientationFormat::Portrait,
    }
}

/// Where a point drawn in the mounted orientation lies on the panel.
pub open spec fn translate_point_spec(o: Orientation, p: Point) -> (int, int) {
    match o {
        Orientation::Straight => (p.x as int, p.y as int),
        Orientation::LeftDown => (128 - p.y, p.x as int),
        Orientation::UpsideDown => (128 - p.x - 1, 64 - p.y - 1),
        Orientation::RightDown => (p.y as int, 64 - p.x - 1),
    }
}

/// Where a point touched on the panel lies in the mounted orientation.
pub open spec fn translate_reverse_spec(o: Orientation, p: Point) -> (int, int) {
    match o {
        Orientation::Straight => (p.x as int, p.y as int),
        Orientation::LeftDown => (p.y as int, 128 - p.x),
        Orientation::UpsideDown => (128 - p.x - 1, 64 - p.y - 1),
        Orientation::RightDown => (64 - p.y - 1, p.x as int),
    }
}

/// Whether a point can be turned onto the panel without leaving the `i32` range.
pub open spec fn point_fits(o: Orientation, p: Point) -> bool {
    match o {
        Orientation::Straight => true,
        Orientation::LeftDown => p.y >= 128 - i32::MAX,
        Orientation::UpsideDown => p.x >= 128 - i32::MAX && p.y >= 64 - i32::MAX,
        Orientation::RightDown => p.x >= 64 - i32::MAX,
    }
}

/// Whether a touched point can be turned back without leaving the `i32` range.
pub open spec fn reverse_fits(o: Orientation, p: Point) -> bool {
    match o {
        Orientation::Straight => true,
        Orientation::LeftDown => p.x >= 128 - i32::MAX,
        Orientation::UpsideDown => p.x >= 128 - i32::MAX && p.y >= 64 - i32::MAX,
        Orientation::RightDown => p.y >= 64 - i32::MAX,
    }
}

/// Turns a point drawn in the mounted orientation onto the panel.
pub fn translate_point(orientation: &Orientation, p: Point) -> (r: Point)
    requires
        point_fits(*orientation, p),
    ensures
        (r.x as int, r.y as int) == translate_point_spec(*orientation, p),
{
    match orientation {
        Orientation::Straight => p,
        Orientation::LeftDown => Point { x: 128 - p.y, y: p.x },
        Orientation::UpsideDown => Point { x: 128 - p.x - 1, y: 64 - p.y - 1 },
        Orientation::RightDown => Point { x: p.y, y: 64 - p.x - 1 },
    }
}

/// Turns a point touched on the panel into the mounted orientation.
pub fn translate_reverse(orientation: &Orientation, p: Point) -> (r: Point)
    requires
        reverse_fits(*orientation, p),
    ensures
        (r.x as int, r.y as int) == translate_reverse_spec(*orientation, p),
{
    match orientation {
        Orientation::Straight => p,
        Orientation::LeftDown => Point { x: p.y, y: 128 - p.x },
        Orientation::UpsideDown => Point { x: 128 - p.x - 1, y: 64 - p.y - 1 },
        Orientation::RightDown => Point { x: 64 - p.y - 1, y: p.x },
    }
}

/// Turning a point onto the panel and back gives the point again, in every
/// orientation (where both turns stay within the `i32` range).
pub proof fn lemma_translate_roundtrip(o: Orientation, p: Point)
    requires
        point_fits(o, p),
        ({
            let (x, y) = translate_point_spec(o, p);
            reverse_fits(o, Point { x: x as i32, y: y as i32 })
        }),
    ensures
        ({
            let (x, y) = translate_point_spec(o, p);
            translate_reverse_spec(o, Point { x: x as i32, y: y as i32 }) == (p.x as int, p.y as int)
        }),
{
}

/// The bounding box seen in the mounted orientation: turned for a portrait mounting.
pub fn translate_bbox(orientation: &Orientation, bbox: Rectangle) -> (r: Rectangle)
    ensures
        r == (match *orientation {
            Orientation::Straight | Orientation::UpsideDown => bbox,
            Orientation::LeftDown | Orientation::RightDown => Rectangle {
                top_left: Point { x: 0, y: 0 },
                size: Size { width: bbox.size.height, height: bbox.size.width },
            },
        }),
{
    match format(orientation) {
        OrientationFormat::Landscape => bbox,
        OrientationFormat::Portrait => Rectangle {
            top_left: Point { x: 0, y: 0 },
            size: Size { width: bbox.size.height, height: bbox.size.width },
        },
    }
}

/// A black and white image, row by row, `width` pixels a row.
#[derive(Debug, Clone)]
pub struct BooleanImage {
    pub width: usize,
    pub data: Vec<bool>,
}

/// Index of pixel `(x, y)` in an image `width` wide and `len` pixels long,
/// if it is in the image. Width and length are taken as `i32`, as the pixel
/// offset is computed in `i32`.
pub open spec fn pixel_index(width: usize, len: usize, x: int, y: int) -> Option<int> {
    let w = width as i32;
    let l = len as i32;
    if 0 <= x < w && 0 <= y * w + x < l {
        Some(y * w + x)
    } else {
        None
    }
}

/// Whether drawing at `p` in an image `width` wide computes its offset
/// without leaving the `i32` range.
pub open spec fn pixel_fits(width: usize, p: Point) -> bool {
    let w = width as i32;
    0 <= p.x < w ==> (i32::MIN <= p.y * w <= i32::MAX && i32::MIN <= p.y * w + p.x <= i32::MAX)
}

impl BooleanImage {
    /// An image `width` pixels wide and `len` pixels long, all off.
    pub fn new(width: usize, len: usize) -> (img: Self)
        ensures
            img.width == width,
            img.data@.len() == len,
            forall|i: int| 0 <= i < len ==> !img.data@[i],
    {
        let mut data: Vec<bool> = Vec::new();
        let mut i: usize = 0;
        while i < len
            invariant
                i <= len,
                data@.len() == i,
                forall|j: int| 0 <= j < i ==> !data@[j],
            decreases len - i,
        {
            data.push(false);
            i = i + 1;
        }
        BooleanImage { width, data }
    }

    /// The bounding box: the full width, and as many rows as there are full ones.
    pub fn bounding_box(&self) -> (r: Rectangle)
        requires
            self.width > 0,
        ensures
            r == (Rectangle {
                top_left: Point { x: 0, y: 0 },
                size: Size {
                    width: self.width as u32,
                    height: (self.data@.len() / self.width as nat) as u32,
                },
            }),
    {
        Rectangle {
            top_left: Point { x: 0, y: 0 },
            size: Size { width: self.width as u32, height: (self.data.len() / self.width) as u32 },
        }
    }

    /// Sets every pixel to `on`.
    pub fn clear(&mut self, on: bool)
        ensures
            final(self).width == old(self).width,
            final(self).data@.len() == old(self).data@.len(),
            forall|i: int| 0 <= i < final(self).data@.len() ==> final(self).data@[i] == on,
    {
        let mut i: usize = 0;
        while i < self.data.len()
            invariant
                i <= self.data@.len(),
                self.width == old(self).width,
                self.data@.len() == old(self).data@.len(),
                forall|j: int| 0 <= j < i ==> self.data@[j] == on,
            decreases self.data@.len() - i,
        {
            self.data.set(i, on);
            i = i + 1;
        }
    }

    /// Draws one pixel; a pixel outside the image is dropped. The pixel's
    /// offset `y * width + x` is computed in `i32`.
    pub fn draw_pixel(&mut self, p: Point, on: bool)
        requires
            pixel_fits(old(self).width, p),
        ensures
            final(self).width == old(self).width,
            final(self).data@ == (match pixel_index(
                old(self).width,
                old(self).data@.len() as usize,
                p.x as int,
                p.y as int,
            ) {
                Some(i) => old(self).data@.update(i, on),
                None => old(self).data@,
            }),
    {
        let n = self.data.len();
        #[verifier::truncate]
        let w = self.width as i32;
        #[verifier::truncate]
        let l = n as i32;
        if p.x >= 0 && p.x < w {
            let offset = p.y * w + p.x;
            if offset >= 0 && offset < l {
                assert(l > 0 ==> l as usize <= n) by (bit_vector)
                    requires
                        l == n as i32,
                ;
                self.data.set(offset as usize, on);
            }
        }
    }
}

/// The backlight a display writes when `value` is asked for while it has
/// `current`: nothing when they are the same.
pub fn backlight_update(current: u8, value: u8) -> (r: Option<u8>)
    ensures
        r == (if current == value {
            None
        } else {
            Some(value)
        }),
{
    if current == value {
        None
    } else {
        Some(value)
    }
}

/// Whether row `y` (128 pixels) of two images differ.
pub open spec fn row_differs(a: Seq<bool>, b: Seq<bool>, y: int) -> bool {
    exists|i: int| y * 128 <= i < (y + 1) * 128 && a[i] != b[i]
}

/// The first and the last row in which two panel images differ, if any.
pub open spec fn changed_rows_spec(a: Seq<bool>, b: Seq<bool>, r: Option<(u8, u8)>) -> bool {
    match r {
        None => forall|y: int| 0 <= y < 64 ==> !row_differs(a, b, y),
        Some((first, last)) => {
            &&& first <= last < 64
            &&& row_differs(a, b, first as int)
            &&& row_differs(a, b, last as int)
            &&& forall|y: int| 0 <= y < first ==> !row_differs(a, b, y)
            &&& forall|y: int| last < y < 64 ==> !row_differs(a, b, y)
        },
    }
}

fn row_equal(a: &Vec<bool>, b: &Vec<bool>, y: usize) -> (r: bool)
    requires
        a@.len() == TOTAL_PIXEL_COUNT,
        b@.len() == TOTAL_PIXEL_COUNT,
        y < 64,
    ensures
        r == !row_differs(a@, b@, y as int),
{
    let start = y * 128;
    let end = start + 128;
    let mut i = start;
    while i < end
        invariant
            start == y * 128,
            end == start + 128,
            end <= TOTAL_PIXEL_COUNT,
            a@.len() == TOTAL_PIXEL_COUNT,
            b@.len() == TOTAL_PIXEL_COUNT,
            start <= i <= end,
            forall|j: int| start <= j < i ==> a@[j] == b@[j],
        decreases end - i,
    {
        if a[i] != b[i] {
            return false;
        }
        i = i + 1;
    }
    true
}

/// The rows of the panel that changed between the image shown and the one to
/// show: those from the first to the last that differ are sent again.
pub fn changed_rows(current: &Vec<bool>, pending: &Vec<bool>) -> (r: Option<(u8, u8)>)
    requires
        current@.len() == TOTAL_PIXEL_COUNT,
        pending@.len() == TOTAL_PIXEL_COUNT,
    ensures
        changed_rows_spec(current@, pending@, r),
{
    let mut first: Option<u8> = None;
    let mut last: Option<u8> = None;
    let mut y: u8 = 0;
    while y < 64
        invariant
            y <= 64,
            current@.len() == TOTAL_PIXEL_COUNT,
            pending@.len() == TOTAL_PIXEL_COUNT,
            first is None <==> last is None,
            first is None ==> forall|k: int| 0 <= k < y ==> !row_differs(current@, pending@, k),
            first matches Some(f) ==> {
                &&& last matches Some(l)
                &&& f <= l < y
                &&& row_differs(current@, pending@, f as int)
                &&& row_differs(current@, pending@, l as int)
                &&& forall|k: int| 0 <= k < f ==> !row_differs(current@, pending@, k)
                &&& forall|k: int| l < k < y ==> !row_differs(current@, pending@, k)
            },
        decreases 64 - y,
    {
        if !row_equal(current, pending, y as usize) {
            if first.is_none() {
                first = Some(y);
            }
            last = Some(y);
        }
        y = y + 1;
    }
    match (first, last) {
        (Some(f), Some(l)) => Some((f, l)),
        _ => None,
    }
}

} // verus!
