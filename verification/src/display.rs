//! The display model: shapes, touchable elements, and the element list.
//!
//! Everything here is geometry and bookkeeping. Rendering and the touch
//! interrupt are hardware work: the host layer draws each element from its
//! shapes and feeds decoded touch events into [`Display::on_touch`].

use vstd::prelude::*;

verus! {

/// A touch event reported by the screen.
#[derive(Clone, Copy, Debug, PartialEq, Eq, Structural)]
pub enum TouchEvent {
    /// The finger lifted.
    Release,
    /// The finger came down.
    Press,
    /// The press is being auto-repeated.
    AutoPress,
}

impl TouchEvent {
    /// Decodes the raw event code the touch interrupt reports; unknown
    /// codes carry no event.
    pub fn from_code(code: u32) -> (r: Option<TouchEvent>)
        ensures
            r == (if code == 0 {
                Some(TouchEvent::Release)
            } else if code == 1 {
                Some(TouchEvent::Press)
            } else if code == 2 {
                Some(TouchEvent::AutoPress)
            } else {
                None::<TouchEvent>
            }),
    {
        match code {
            0 => Some(TouchEvent::Release),
            1 => Some(TouchEvent::Press),
            2 => Some(TouchEvent::AutoPress),
            _ => None,
        }
    }
}

/// A shape that can be drawn: colors are 24-bit RGB values, and `fill`
/// selects a filled body over an outline.
#[derive(Clone, Copy, Debug, PartialEq, Eq, Structural)]
pub enum Shape {
    /// An axis-aligned rectangle spanning the two corners.
    Rectangle { x1: i32, y1: i32, x2: i32, y2: i32, color: u32, fill: bool },
    /// A circle of radius `r` around the center.
    Circle { cx: i32, cy: i32, r: i32, color: u32, fill: bool },
}

impl Shape {
    /// The same shape with only the color replaced.
    pub open spec fn with_color(self, c: u32) -> Shape {
        match self {
            Shape::Rectangle { x1, y1, x2, y2, color, fill } => Shape::Rectangle {
                x1,
                y1,
                x2,
                y2,
                color: c,
                fill,
            },
            Shape::Circle { cx, cy, r, color, fill } => Shape::Circle {
                cx,
                cy,
                r,
                color: c,
                fill,
            },
        }
    }

    /// The same shape with only the fill mode replaced.
    pub open spec fn with_fill(self, f: bool) -> Shape {
        match self {
            Shape::Rectangle { x1, y1, x2, y2, color, fill } => Shape::Rectangle {
                x1,
                y1,
                x2,
                y2,
                color,
                fill: f,
            },
            Shape::Circle { cx, cy, r, color, fill } => Shape::Circle {
                cx,
                cy,
                r,
                color,
                fill: f,
            },
        }
    }

    /// Whether the point `(x, y)` hits the shape: strictly inside the
    /// rectangle, or at most the radius away from the circle's center.
    pub open spec fn spec_contains(self, x: int, y: int) -> bool {
        match self {
            Shape::Rectangle { x1, y1, x2, y2, .. } => x1 < x < x2 && y1 < y < y2,
            Shape::Circle { cx, cy, r, .. } => (x - cx) * (x - cx) + (y - cy) * (y - cy) <= r
                * r,
        }
    }

    /// Sets the color of the shape, touching nothing else.
    pub fn set_color(&mut self, new_color: u32)
        ensures
            *final(self) == old(self).with_color(new_color),
    {
        match *self {
            Shape::Rectangle { x1, y1, x2, y2, fill, .. } => {
                *self = Shape::Rectangle { x1, y1, x2, y2, color: new_color, fill };
            },
            Shape::Circle { cx, cy, r, fill, .. } => {
                *self = Shape::Circle { cx, cy, r, color: new_color, fill };
            },
        }
    }

    /// Sets the fill mode of the shape, touching nothing else.
    pub fn set_fill(&mut self, new_fill: bool)
        ensures
            *final(self) == old(self).with_fill(new_fill),
    {
        match *self {
            Shape::Rectangle { x1, y1, x2, y2, color, .. } => {
                *self = Shape::Rectangle { x1, y1, x2, y2, color, fill: new_fill };
            },
            Shape::Circle { cx, cy, r, color, .. } => {
                *self = Shape::Circle { cx, cy, r, color, fill: new_fill };
            },
        }
    }

    /// Whether the point hits this shape; decides [`Shape::spec_contains`]
    /// exactly, widening to avoid any overflow in the circle test.
    pub fn contains(&self, x: i32, y: i32) -> (hit: bool)
        ensures
            hit == self.spec_contains(x as int, y as int),
    {
        match *self {
            Shape::Rectangle { x1, y1, x2, y2, .. } => (x2 > x && x > x1) && (y2 > y && y > y1),
            Shape::Circle { cx, cy, r, .. } => {
                let dx: i64 = x as i64 - cx as i64;
                let dy: i64 = y as i64 - cy as i64;
                let rw: i64 = r as i64;
                proof {
                    assert(dx * dx + dy * dy <= 0x40000000000000000int && 0 <= dx * dx && 0
                        <= dy * dy && 0 <= rw * rw <= 0x4000000000000000int) by (nonlinear_arith)
                        requires
                            -0x100000000int <= dx <= 0x100000000int,
                            -0x100000000int <= dy <= 0x100000000int,
                            -0x80000000int <= rw <= 0x80000000int,
                    ;
                }
                dx as i128 * dx as i128 + dy as i128 * dy as i128 <= rw as i128 * rw as i128
            },
        }
    }
}

/// Objects that can stand on the display and react to touch. The host layer
/// renders each element from the shapes it exposes; hit-testing and the
/// touch reaction are decided here.
pub trait DisplayElement: Sized {
    /// The shapes the host layer must render for this element.
    spec fn shapes_view(&self) -> Seq<Shape>;

    /// Whether the point `(x, y)` lies on this element.
    spec fn covers(&self, x: int, y: int) -> bool;

    /// Whether this element can take the event (its shape list is deep
    /// enough for the highlight the event recolors).
    spec fn touch_ok(&self, event: TouchEvent) -> bool;

    /// The shapes this element shows after the event.
    spec fn touched_view(&self, event: TouchEvent, x: int, y: int) -> Seq<Shape>;

    /// True exactly when the given point intersects the element.
    fn intersects(&self, x: i32, y: i32) -> (hit: bool)
        ensures
            hit == self.covers(x as int, y as int),
    ;

    /// Runs when a touch event happens over this element.
    fn touch(&mut self, event: TouchEvent, x: i32, y: i32)
        requires
            old(self).touch_ok(event),
        ensures
            final(self).shapes_view() == old(self).touched_view(event, x as int, y as int),
    ;
}

/// A drawable element: a group of shapes, where the shape at index 1 is the
/// highlight that presses and releases recolor.
#[derive(Clone, Debug)]
pub struct Element {
    /// The shapes drawn for this element, back to front.
    pub shapes: Vec<Shape>,
}

impl DisplayElement for Element {
    open spec fn shapes_view(&self) -> Seq<Shape> {
        self.shapes@
    }

    open spec fn covers(&self, x: int, y: int) -> bool {
        exists|i: int| 0 <= i < self.shapes@.len() && self.shapes@[i].spec_contains(x, y)
    }

    open spec fn touch_ok(&self, event: TouchEvent) -> bool {
        event is Press || event is Release ==> self.shapes@.len() >= 2
    }

    open spec fn touched_view(&self, event: TouchEvent, x: int, y: int) -> Seq<Shape> {
        match event {
            TouchEvent::Press => self.shapes@.update(1, self.shapes@[1].with_color(0xff00ff)),
            TouchEvent::Release => self.shapes@.update(1, self.shapes@[1].with_color(0xffffff)),
            TouchEvent::AutoPress => self.shapes@,
        }
    }

    fn intersects(&self, x: i32, y: i32) -> (hit: bool) {
        let mut i: usize = 0;
        while i < self.shapes.len()
            invariant
                i <= self.shapes@.len(),
                forall|j: int| 0 <= j < i ==> !self.shapes@[j].spec_contains(x as int, y as int),
            decreases self.shapes@.len() - i,
        {
            if self.shapes[i].contains(x, y) {
                return true;
            }
            i = i + 1;
        }
        false
    }

    fn touch(&mut self, event: TouchEvent, x: i32, y: i32) {
        match event {
            TouchEvent::Press => {
                self.shapes[1].set_color(0xff00ff);
            },
            TouchEvent::Release => {
                self.shapes[1].set_color(0xffffff);
            },
            _ => {},
        }
    }
}

/// The first element of `es`, at or after position `k`, that the point
/// `(x, y)` lies on.
pub open spec fn first_hit_from(es: Seq<Element>, x: int, y: int, k: int) -> Option<int>
    decreases es.len() - k,
{
    if k < 0 || k >= es.len() {
        None
    } else if es[k].covers(x, y) {
        Some(k)
    } else {
        first_hit_from(es, x, y, k + 1)
    }
}

/// The first element of `es` that the point `(x, y)` lies on: the one a
/// touch at that point is delivered to.
pub open spec fn first_hit(es: Seq<Element>, x: int, y: int) -> Option<int> {
    first_hit_from(es, x, y, 0)
}

/// The display: the list of elements currently shown. The host layer owns
/// the screen itself; it renders these elements and erases the screen when
/// told to clear.
#[derive(Debug)]
pub struct Display {
    /// The elements shown, in the order they were added.
    pub elements: Vec<Element>,
}

impl Display {
    /// Creates a new display with nothing on it.
    pub fn new() -> (d: Display)
        ensures
            d.elements@.len() == 0,
    {
        Display { elements: Vec::new() }
    }

    /// Adds a component to the display, behind nothing: elements added
    /// earlier take touches first.
    pub fn add(&mut self, element: Element)
        ensures
            final(self).elements@ == old(self).elements@.push(element),
    {
        self.elements.push(element);
    }

    /// Removes all elements.
    pub fn clear_elements(&mut self)
        ensures
            final(self).elements@.len() == 0,
    {
        self.elements.clear();
    }

    /// Removes all elements; the host layer must erase the screen as well.
    pub fn clear(&mut self)
        ensures
            final(self).elements@.len() == 0,
    {
        self.clear_elements();
    }

    /// Delivers a touch event: the first element the point intersects takes
    /// it, and no other element is consulted or changed.
    pub fn on_touch(&mut self, event: TouchEvent, x: i32, y: i32)
        requires
            match first_hit(old(self).elements@, x as int, y as int) {
                Some(i) => old(self).elements@[i].touch_ok(event),
                None => true,
            },
        ensures
            final(self).elements@.len() == old(self).elements@.len(),
            match first_hit(old(self).elements@, x as int, y as int) {
                None => final(self).elements@ == old(self).elements@,
                Some(i) => {
                    &&& forall|j: int|
                        0 <= j < old(self).elements@.len() && j != i
                            ==> final(self).elements@[j] == old(self).elements@[j]
                    &&& final(self).elements@[i].shapes@ == old(self).elements@[i].touched_view(
                        event,
                        x as int,
                        y as int,
                    )
                },
            },
    {
        let mut idx: usize = 0;
        #[verifier::loop_isolation(false)]
        while idx < self.elements.len()
            invariant
                idx <= self.elements@.len(),
                self.elements@ == old(self).elements@,
                first_hit(old(self).elements@, x as int, y as int) == first_hit_from(
                    old(self).elements@,
                    x as int,
                    y as int,
                    idx as int,
                ),
            decreases self.elements@.len() - idx,
        {
            if self.elements[idx].intersects(x, y) {
                self.elements[idx].touch(event, x, y);
                return;
            }
            idx = idx + 1;
        }
    }
}

} // verus!
