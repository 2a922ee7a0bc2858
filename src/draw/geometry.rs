use vstd::prelude::*;

verus! {

/// Which edge of the enclosing box a smaller box is placed against, along one axis.
#[derive(Clone, Copy, Debug, PartialEq, Eq, Structural)]
pub enum Align {
    Start,
    Center,
    End,
}

impl Default for Align {
    fn default() -> (r: Align)
        ensures
            r == Align::Center,
    {
        Align::Center
    }
}

/// A pixel coordinate.
#[derive(Clone, Copy, Debug, PartialEq, Eq, Structural)]
pub struct Point {
    pub x: u32,
    pub y: u32,
}

impl Point {
    pub fn new(x: u32, y: u32) -> (r: Point)
        ensures
            r.x == x,
            r.y == y,
    {
        Point { x, y }
    }

    /// Component-wise sum.
    pub fn plus(self, o: Point) -> (r: Point)
        requires
            self.x + o.x <= u32::MAX,
            self.y + o.y <= u32::MAX,
        ensures
            r.x == self.x + o.x,
            r.y == self.y + o.y,
    {
        Point { x: self.x + o.x, y: self.y + o.y }
    }

    /// Component-wise difference.
    pub fn minus(self, o: Point) -> (r: Point)
        requires
            o.x <= self.x,
            o.y <= self.y,
        ensures
            r.x == self.x - o.x,
            r.y == self.y - o.y,
    {
        Point { x: self.x - o.x, y: self.y - o.y }
    }
}

/// Where a box of length `size` starts, relative to the start of a span of
/// length `space`, when aligned by `a`. Centering leaves the odd pixel on the
/// far side, so the box sits toward the start.
pub open spec fn align_offset(space: int, size: int, a: Align) -> int {
    match a {
        Align::Start => 0,
        Align::Center => (space - size) / 2,
        Align::End => space - size,
    }
}

/// An axis-aligned box of pixels: `min` is inside, `max` is one past the last
/// pixel on both axes.
#[derive(Clone, Copy, Debug, PartialEq, Eq, Structural)]
pub struct Rect {
    pub min: Point,
    pub max: Point,
}

impl Rect {
    /// The corners are ordered on both axes.
    pub open spec fn wf(self) -> bool {
        self.min.x <= self.max.x && self.min.y <= self.max.y
    }

    pub open spec fn spec_width(self) -> int {
        self.max.x - self.min.x
    }

    pub open spec fn spec_height(self) -> int {
        self.max.y - self.min.y
    }

    /// Half-open containment on both axes.
    pub open spec fn spec_contains(self, p: Point) -> bool {
        self.min.x <= p.x < self.max.x && self.min.y <= p.y < self.max.y
    }

    /// The two boxes share at least one pixel.
    pub open spec fn overlaps(self, o: Rect) -> bool {
        &&& self.min.x < o.max.x
        &&& o.min.x < self.max.x
        &&& self.min.y < o.max.y
        &&& o.min.y < self.max.y
    }

    /// A box of `size` fits inside this one.
    pub open spec fn fits(self, size: Point) -> bool {
        size.x <= self.spec_width() && size.y <= self.spec_height()
    }

    /// The box of `size` placed inside this one by the two alignments.
    pub open spec fn spec_place_at(self, size: Point, h_align: Align, v_align: Align) -> Rect {
        let x = (self.min.x + align_offset(self.spec_width(), size.x as int, h_align)) as u32;
        let y = (self.min.y + align_offset(self.spec_height(), size.y as int, v_align)) as u32;
        Rect {
            min: Point { x, y },
            max: Point { x: (x + size.x) as u32, y: (y + size.y) as u32 },
        }
    }

    pub fn new(min: Point, max: Point) -> (r: Rect)
        ensures
            r.min == min,
            r.max == max,
    {
        Rect { min, max }
    }

    pub fn width(&self) -> (r: u32)
        requires
            self.wf(),
        ensures
            r == self.spec_width(),
    {
        self.max.x - self.min.x
    }

    pub fn height(&self) -> (r: u32)
        requires
            self.wf(),
        ensures
            r == self.spec_height(),
    {
        self.max.y - self.min.y
    }

    pub fn contains(&self, p: Point) -> (r: bool)
        ensures
            r == self.spec_contains(p),
    {
        self.min.x <= p.x && p.x < self.max.x && self.min.y <= p.y && p.y < self.max.y
    }

    /// Places a box of `size` inside this one: `Start` puts it against `min`,
    /// `End` against `max`, and `Center` in the middle, an odd leftover pixel
    /// going to the `max` side.
    pub fn place_at(&self, size: Point, h_align: Align, v_align: Align) -> (r: Rect)
        requires
            self.wf(),
            self.fits(size),
        ensures
            r == self.spec_place_at(size, h_align, v_align),
            r.wf(),
            r.spec_width() == size.x,
            r.spec_height() == size.y,
            self.min.x <= r.min.x && r.max.x <= self.max.x,
            self.min.y <= r.min.y && r.max.y <= self.max.y,
    {
        let x = self.min.x + align_start(self.max.x - self.min.x, size.x, h_align);
        let y = self.min.y + align_start(self.max.y - self.min.y, size.y, v_align);
        Rect { min: Point { x, y }, max: Point { x: x + size.x, y: y + size.y } }
    }
}

/// Placing at `(Start, Start)` keeps `min`; placing at `(End, End)` keeps `max`.
pub proof fn lemma_place_at_edges(r: Rect, size: Point)
    requires
        r.wf(),
        r.fits(size),
    ensures
        r.spec_place_at(size, Align::Start, Align::Start).min == r.min,
        r.spec_place_at(size, Align::End, Align::End).max == r.max,
{
}

/// Placing at `(Center, Center)` leaves the same space on both sides of each
/// axis, or one pixel more on the `max` side when the leftover is odd.
pub proof fn lemma_place_at_center(r: Rect, size: Point)
    requires
        r.wf(),
        r.fits(size),
    ensures
        ({
            let c = r.spec_place_at(size, Align::Center, Align::Center);
            &&& c.spec_width() == size.x
            &&& c.spec_height() == size.y
            &&& c.min.x - r.min.x == (r.spec_width() - size.x) / 2
            &&& c.min.y - r.min.y == (r.spec_height() - size.y) / 2
            &&& 0 <= (r.max.x - c.max.x) - (c.min.x - r.min.x) <= 1
            &&& 0 <= (r.max.y - c.max.y) - (c.min.y - r.min.y) <= 1
        }),
{
}

/// A point on the `max` edge of either axis lies outside the box.
pub proof fn lemma_contains_half_open(r: Rect, p: Point)
    requires
        p.x == r.max.x || p.y == r.max.y,
    ensures
        !r.spec_contains(p),
{
}

fn align_start(space: u32, size: u32, a: Align) -> (r: u32)
    requires
        size <= space,
    ensures
        r == align_offset(space as int, size as int, a),
        r + size <= space,
{
    match a {
        Align::Start => 0,
        Align::Center => (space - size) / 2,
        Align::End => space - size,
    }
}

} // verus!
