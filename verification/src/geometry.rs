use vstd::prelude::*;

verus! {

/// A position in the plane, as contracts speak of it.
pub struct Point {
    pub x: int,
    pub y: int,
}

/// A position on the drawing grid. The horizontal axis grows to the right and
/// the vertical axis grows downward, as on a screen.
#[derive(Clone, Copy, Debug, PartialEq, Eq, Structural)]
pub struct Coordinates {
    pub x: i64,
    pub y: i64,
}

impl View for Coordinates {
    type V = Point;

    open spec fn view(&self) -> Point {
        Point { x: self.x as int, y: self.y as int }
    }
}

impl Coordinates {
    pub fn new(x: i64, y: i64) -> (r: Coordinates)
        ensures
            r@ == (Point { x: x as int, y: y as int }),
    {
        Coordinates { x, y }
    }
}

/// A triangle that points up, as contracts speak of it: the apex and the
/// distance from the apex down to the horizontal base.
pub struct Shape {
    pub apex: Point,
    pub height: int,
}

impl Shape {
    /// The distance from the foot of the height to either base vertex.
    pub open spec fn base_width(self) -> int {
        self.height / 2
    }

    pub open spec fn half_base_width(self) -> int {
        self.base_width() / 2
    }

    pub open spec fn half_height(self) -> int {
        self.height / 2
    }

    pub open spec fn left_base_vertex(self) -> Point {
        Point { x: self.apex.x - self.base_width(), y: self.apex.y + self.height }
    }

    pub open spec fn right_base_vertex(self) -> Point {
        Point { x: self.apex.x + self.base_width(), y: self.apex.y + self.height }
    }

    /// The upper of the three parts: it shares this triangle's apex.
    pub open spec fn top_sub(self) -> Shape {
        Shape { apex: self.apex, height: self.half_height() }
    }

    /// The lower left part: its apex is the midpoint of the left side.
    pub open spec fn left_sub(self) -> Shape {
        Shape {
            apex: Point {
                x: self.apex.x - self.half_base_width(),
                y: self.apex.y + self.half_height(),
            },
            height: self.half_height(),
        }
    }

    /// The lower right part: its apex is the midpoint of the right side.
    pub open spec fn right_sub(self) -> Shape {
        Shape {
            apex: Point {
                x: self.apex.x + self.half_base_width(),
                y: self.apex.y + self.half_height(),
            },
            height: self.half_height(),
        }
    }

    /// The height is not negative and all three vertices lie on the grid
    /// that `i64` coordinates span.
    pub open spec fn fits(self) -> bool {
        &&& 0 <= self.height
        &&& i64::MIN <= self.apex.x - self.base_width()
        &&& self.apex.x + self.base_width() <= i64::MAX
        &&& i64::MIN <= self.apex.y
        &&& self.apex.y + self.height <= i64::MAX
    }
}

/// The three parts of a triangle that fits fit too: they lie inside it.
pub proof fn lemma_parts_fit(s: Shape)
    requires
        s.fits(),
    ensures
        s.top_sub().fits(),
        s.left_sub().fits(),
        s.right_sub().fits(),
{
}

/// A triangle on the grid. Every value of this type fits the grid: see
/// [`Shape::fits`].
#[derive(Clone, Copy, Debug, PartialEq, Eq)]
pub struct Triangle {
    top: Coordinates,
    height: i64,
}

impl View for Triangle {
    type V = Shape;

    closed spec fn view(&self) -> Shape {
        Shape { apex: self.top@, height: self.height as int }
    }
}

impl Triangle {
    #[verifier::type_invariant]
    spec fn inv(self) -> bool {
        self@.fits()
    }

    /// The triangle with the given apex and height, where it fits the grid.
    pub fn new(top: Coordinates, height: i64) -> (r: Option<Triangle>)
        ensures
            r.is_some() <==> (Shape { apex: top@, height: height as int }).fits(),
            r.is_some() ==> r.unwrap()@ == (Shape { apex: top@, height: height as int }),
    {
        if height < 0 {
            return None;
        }
        let half: i64 = height / 2;
        if top.x < i64::MIN + half || top.x > i64::MAX - half || top.y > i64::MAX - height {
            return None;
        }
        Some(Triangle { top, height })
    }

    pub fn top(&self) -> (r: Coordinates)
        ensures
            r@ == self@.apex,
    {
        self.top
    }

    pub fn height(&self) -> (r: i64)
        ensures
            r == self@.height,
            self@.fits(),
    {
        proof {
            use_type_invariant(self);
        }
        self.height
    }

    pub fn get_base_width(&self) -> (r: i64)
        ensures
            r == self@.height / 2,
            r == self@.base_width(),
    {
        proof {
            use_type_invariant(self);
        }
        self.height / 2
    }

    pub fn get_half_base_width(&self) -> (r: i64)
        ensures
            r == self@.height / 4,
            r == self@.half_base_width(),
    {
        proof {
            use_type_invariant(self);
        }
        self.get_base_width() / 2
    }

    pub fn get_half_height(&self) -> (r: i64)
        ensures
            r == self@.height / 2,
            r == self@.half_height(),
    {
        proof {
            use_type_invariant(self);
        }
        self.height / 2
    }

    pub fn get_left_coordinates(&self) -> (r: Coordinates)
        ensures
            r@ == (Point { x: self@.apex.x - self@.height / 2, y: self@.apex.y + self@.height }),
            r@ == self@.left_base_vertex(),
    {
        proof {
            use_type_invariant(self);
        }
        Coordinates { x: self.top.x - self.get_base_width(), y: self.top.y + self.height }
    }

    pub fn get_right_coordinates(&self) -> (r: Coordinates)
        ensures
            r@ == (Point { x: self@.apex.x + self@.height / 2, y: self@.apex.y + self@.height }),
            r@ == self@.right_base_vertex(),
    {
        proof {
            use_type_invariant(self);
        }
        Coordinates { x: self.top.x + self.get_base_width(), y: self.top.y + self.height }
    }

    pub fn get_top_sub_triangle(&self) -> (r: Triangle)
        ensures
            r@.apex == self@.apex,
            r@.height == self@.height / 2,
            r@ == self@.top_sub(),
    {
        proof {
            use_type_invariant(self);
            lemma_parts_fit(self@);
        }
        Triangle {
            top: Coordinates { x: self.top.x, y: self.top.y },
            height: self.get_half_height(),
        }
    }

    pub fn get_left_sub_triangle(&self) -> (r: Triangle)
        ensures
            r@.apex == (Point {
                x: self@.apex.x - self@.height / 4,
                y: self@.apex.y + self@.height / 2,
            }),
            r@.height == self@.height / 2,
            r@ == self@.left_sub(),
    {
        proof {
            use_type_invariant(self);
            lemma_parts_fit(self@);
        }
        Triangle {
            top: Coordinates {
                x: self.top.x - self.get_half_base_width(),
                y: self.top.y + self.get_half_height(),
            },
            height: self.get_half_height(),
        }
    }

    pub fn get_right_sub_triangle(&self) -> (r: Triangle)
        ensures
            r@.apex == (Point {
                x: self@.apex.x + self@.height / 4,
                y: self@.apex.y + self@.height / 2,
            }),
            r@.height == self@.height / 2,
            r@ == self@.right_sub(),
    {
        proof {
            use_type_invariant(self);
            lemma_parts_fit(self@);
        }
        Triangle {
            top: Coordinates {
                x: self.top.x + self.get_half_base_width(),
                y: self.top.y + self.get_half_height(),
            },
            height: self.get_half_height(),
        }
    }
}

} // verus!
