use vstd::prelude::*;
use vstd::arithmetic::power::pow;
use crate::geometry::{Coordinates, Shape, Triangle};
use crate::surface::{Op, Surface};

verus! {

impl Shape {
    /// The calls that draw this triangle's outline: the pen is moved to the
    /// apex before the path is begun, then the path runs to the left base
    /// vertex, to the right one and back to the apex, is closed and stroked.
    pub open spec fn outline(self) -> Seq<Op> {
        seq![
            Op::MoveTo(self.apex),
            Op::BeginPath,
            Op::LineTo(self.left_base_vertex()),
            Op::LineTo(self.right_base_vertex()),
            Op::LineTo(self.apex),
            Op::ClosePath,
            Op::Stroke,
        ]
    }

    /// The triangles below this one down to `depth` levels, each before the
    /// triangles below it, and of three parts the top one first, then the left
    /// one, then the right one.
    pub open spec fn descendants(self, depth: nat) -> Seq<Shape>
        decreases depth,
    {
        if depth == 0 {
            Seq::empty()
        } else {
            let below = (depth - 1) as nat;
            seq![self.top_sub()] + self.top_sub().descendants(below)
                + seq![self.left_sub()] + self.left_sub().descendants(below)
                + seq![self.right_sub()] + self.right_sub().descendants(below)
        }
    }
}

/// The outlines of the given triangles, end to end.
pub open spec fn strokes(shapes: Seq<Shape>) -> Seq<Op>
    decreases shapes.len(),
{
    if shapes.len() == 0 {
        Seq::empty()
    } else {
        strokes(shapes.drop_last()) + shapes.last().outline()
    }
}

/// The outlines of one run of triangles followed by another are the
/// outlines of the first run followed by those of the second.
pub proof fn lemma_strokes_concat(a: Seq<Shape>, b: Seq<Shape>)
    ensures
        strokes(a + b) == strokes(a) + strokes(b),
    decreases b.len(),
{
    if b.len() == 0 {
        assert(a + b =~= a);
        assert(strokes(a) + strokes(b) =~= strokes(a));
    } else {
        assert((a + b).drop_last() =~= a + b.drop_last());
        assert((a + b).last() == b.last());
        lemma_strokes_concat(a, b.drop_last());
        assert(strokes(a + b) =~= strokes(a) + strokes(b));
    }
}

/// The outlines of a single triangle are its outline.
pub proof fn lemma_strokes_single(s: Shape)
    ensures
        strokes(seq![s]) == s.outline(),
{
    assert(seq![s].drop_last() =~= Seq::<Shape>::empty());
    assert(strokes(seq![s].drop_last()) =~= Seq::<Op>::empty());
    assert(strokes(seq![s]) =~= s.outline());
}

/// A run of outlines holds seven calls for each triangle, and the seven calls
/// that start at seven times a triangle's index are that triangle's outline.
pub proof fn lemma_strokes_layout(shapes: Seq<Shape>)
    ensures
        strokes(shapes).len() == 7 * shapes.len(),
        forall|i: int|
            0 <= i < shapes.len() ==> #[trigger] strokes(shapes).subrange(7 * i, 7 * i + 7)
                == shapes[i].outline(),
    decreases shapes.len(),
{
    if shapes.len() > 0 {
        let front = shapes.drop_last();
        lemma_strokes_layout(front);
        assert forall|i: int| 0 <= i < shapes.len() implies #[trigger] strokes(shapes).subrange(
            7 * i,
            7 * i + 7,
        ) == shapes[i].outline() by {
            if i < front.len() {
                assert(strokes(front).subrange(7 * i, 7 * i + 7) == front[i].outline());
                assert(strokes(shapes).subrange(7 * i, 7 * i + 7) =~= strokes(front).subrange(
                    7 * i,
                    7 * i + 7,
                ));
            } else {
                assert(strokes(shapes).subrange(7 * i, 7 * i + 7) =~= shapes.last().outline());
            }
        }
    }
}

/// Down to `depth` levels there are `(3^(depth+1) - 3) / 2` triangles below
/// any triangle, whatever its place and size.
pub proof fn lemma_descendants_len(s: Shape, depth: nat)
    ensures
        2 * s.descendants(depth).len() + 3 == pow(3, depth + 1),
        s.descendants(depth).len() == (pow(3, depth + 1) - 3) / 2,
    decreases depth,
{
    reveal(pow);
    if depth == 0 {
        assert(pow(3, 1) == 3 * pow(3, 0));
    } else {
        let below = (depth - 1) as nat;
        lemma_descendants_len(s.top_sub(), below);
        lemma_descendants_len(s.left_sub(), below);
        lemma_descendants_len(s.right_sub(), below);
        assert(pow(3, depth + 1) == 3 * pow(3, depth));
    }
}

/// Subdividing to `depth` levels draws `(3^(depth+1) - 3) / 2` outlines and
/// makes nothing but those: seven calls for each triangle below, in the
/// order of [`Shape::outline`], one triangle after the other.
pub proof fn lemma_split_calls(s: Shape, depth: nat)
    ensures
        s.descendants(depth).len() == (pow(3, depth + 1) - 3) / 2,
        strokes(s.descendants(depth)).len() == 7 * ((pow(3, depth + 1) - 3) / 2),
        forall|i: int|
            0 <= i < s.descendants(depth).len() ==> #[trigger] strokes(
                s.descendants(depth),
            ).subrange(7 * i, 7 * i + 7) == s.descendants(depth)[i].outline(),
        depth == 0 ==> strokes(s.descendants(depth)) == Seq::<Op>::empty(),
{
    lemma_descendants_len(s, depth);
    lemma_strokes_layout(s.descendants(depth));
}

/// Drawing a triangle a second time makes the same seven calls again: what
/// a surface already holds has no part in them.
pub proof fn lemma_draw_twice(surface: Seq<Op>, s: Shape)
    ensures
        ({
            let start = surface.len() as int;
            let twice = surface + s.outline() + s.outline();
            &&& twice.len() == start + 14
            &&& twice.subrange(0, start) == surface
            &&& twice.subrange(start, start + 7) == s.outline()
            &&& twice.subrange(start + 7, start + 14) == s.outline()
        }),
{
    let start = surface.len() as int;
    let twice = surface + s.outline() + s.outline();
    assert(twice.subrange(0, start) =~= surface);
    assert(twice.subrange(start, start + 7) =~= s.outline());
    assert(twice.subrange(start + 7, start + 14) =~= s.outline());
}

/// A triangle and all that lies below it down to `depth` levels make
/// `(3^(depth+1) - 1) / 2` triangles: one, then three, then nine, and so on.
pub proof fn lemma_render_len(s: Shape, depth: nat)
    ensures
        (seq![s] + s.descendants(depth)).len() == (pow(3, depth + 1) - 1) / 2,
        strokes(seq![s] + s.descendants(depth)) == s.outline() + strokes(s.descendants(depth)),
{
    lemma_descendants_len(s, depth);
    lemma_strokes_concat(seq![s], s.descendants(depth));
    lemma_strokes_single(s);
}

impl Triangle {
    /// Draws the outline of this triangle on `surface` and hands the
    /// triangle back.
    pub fn draw(&self, surface: &mut Surface) -> (r: &Self)
        ensures
            *r == *self,
            final(surface)@ == old(surface)@ + self@.outline(),
    {
        let top: Coordinates = self.top();
        let left: Coordinates = self.get_left_coordinates();
        let right: Coordinates = self.get_right_coordinates();

        surface.move_to(top.x, top.y);
        surface.begin_path();
        surface.line_to(left.x, left.y);
        surface.line_to(right.x, right.y);
        surface.line_to(top.x, top.y);
        surface.close_path();
        surface.stroke();

        assert(surface@ =~= old(surface)@ + self@.outline());
        self
    }

    /// Fills the inside of the path that `surface` holds.
    pub fn fill(&self, surface: &mut Surface)
        ensures
            final(surface)@ == old(surface)@.push(Op::Fill),
    {
        surface.fill();
    }

    /// Draws the triangles below this one down to `times` levels: each of
    /// the three parts is drawn and then subdivided in its turn, the top
    /// part first, then the left one, then the right one.
    pub fn split(&self, times: u64, surface: &mut Surface)
        ensures
            final(surface)@ == old(surface)@ + strokes(self@.descendants(times as nat)),
            times == 0 ==> final(surface)@ == old(surface)@,
            final(surface)@.len() == old(surface)@.len() + 7 * ((pow(3, times as nat + 1) - 3)
                / 2),
        decreases times,
    {
        proof {
            lemma_split_calls(self@, times as nat);
        }
        if times == 0 {
            assert(surface@ =~= old(surface)@ + strokes(self@.descendants(0)));
            return ;
        }
        let below: u64 = times - 1;
        let top = self.get_top_sub_triangle();
        let left = self.get_left_sub_triangle();
        let right = self.get_right_sub_triangle();

        top.draw(surface).split(below, surface);
        left.draw(surface).split(below, surface);
        right.draw(surface).split(below, surface);

        proof {
            let d = below as nat;
            let (t, l, r) = (top@, left@, right@);
            let first = seq![t] + t.descendants(d);
            let second = seq![l] + l.descendants(d);
            let third = seq![r] + r.descendants(d);
            lemma_render_len(t, d);
            lemma_render_len(l, d);
            lemma_render_len(r, d);
            lemma_strokes_concat(first, second);
            lemma_strokes_concat(first + second, third);
            assert(self@.descendants(times as nat) =~= first + second + third);
            assert(surface@ =~= old(surface)@ + strokes(first + second + third));
        }
    }
}

/// Draws the triangle with the given apex and height and subdivides it to
/// `depth` levels, on a surface of its own. There is nothing to draw where
/// the triangle does not fit the grid.
pub fn render(top: Coordinates, height: i64, depth: u64) -> (r: Option<Surface>)
    ensures
        r.is_some() <==> (Shape { apex: top@, height: height as int }).fits(),
        r.is_some() ==> {
            let root = Shape { apex: top@, height: height as int };
            &&& r.unwrap()@ == root.outline() + strokes(root.descendants(depth as nat))
            &&& r.unwrap()@.len() == 7 * ((pow(3, depth as nat + 1) - 1) / 2)
        },
{
    match Triangle::new(top, height) {
        None => None,
        Some(root) => {
            let mut surface = Surface::new();
            root.draw(&mut surface).split(depth, &mut surface);
            assert(surface@ =~= root@.outline() + strokes(root@.descendants(depth as nat)));
            proof {
                lemma_descendants_len(root@, depth as nat);
            }
            Some(surface)
        },
    }
}

} // verus!
