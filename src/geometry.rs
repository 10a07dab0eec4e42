use vstd::prelude::*;

verus! {

/// Largest number of vertices a single frame batch can address with 16-bit indices.
pub const MAX_VERTICES: usize = 65536;

/// A position on the drawing surface, in whole pixels.
#[derive(Clone, Copy, Debug, PartialEq, Eq, Structural)]
pub struct Point {
    pub x: i32,
    pub y: i32,
}

/// An RGBA color; each channel runs from 0 (none) to 255 (full).
#[derive(Clone, Copy, Debug, PartialEq, Eq, Structural)]
pub struct Color {
    pub r: u8,
    pub g: u8,
    pub b: u8,
    pub a: u8,
}

/// A positioned, colored vertex of a frame batch.
#[derive(Clone, Copy, Debug, PartialEq, Eq, Structural)]
pub struct Vertex {
    pub point: Point,
    pub color: Color,
}

/// An axis-aligned rectangle given by its four edges.
#[derive(Clone, Copy, Debug, PartialEq, Eq, Structural)]
pub struct Rect {
    pub top: i32,
    pub left: i32,
    pub bottom: i32,
    pub right: i32,
}

/// A rectangle together with the color it is filled with.
#[derive(Clone, Copy, Debug, PartialEq, Eq, Structural)]
pub struct Shape {
    pub rect: Rect,
    pub color: Color,
}

/// The four corners of a rectangle, clockwise from the top-left one.
pub open spec fn rect_corners(r: Rect) -> Seq<Point> {
    seq![
        Point { x: r.left, y: r.top },
        Point { x: r.right, y: r.top },
        Point { x: r.right, y: r.bottom },
        Point { x: r.left, y: r.bottom },
    ]
}

/// The vertices a rectangle contributes to a batch: its corners, all in one color.
pub open spec fn rect_vertices(r: Rect, c: Color) -> Seq<Vertex> {
    rect_corners(r).map_values(|p: Point| Vertex { point: p, color: c })
}

/// The six indices of the two triangles (0, 1, 2) and (2, 3, 0) of a quad
/// whose first vertex sits at position `base` of the batch.
pub open spec fn quad_indices(base: nat) -> Seq<u16> {
    seq![
        base as u16,
        (base + 1) as u16,
        (base + 2) as u16,
        (base + 2) as u16,
        (base + 3) as u16,
        base as u16,
    ]
}

/// Whether the rectangle encloses a non-empty area.
pub open spec fn has_area(r: Rect) -> bool {
    r.left < r.right && r.top < r.bottom
}

/// Whether the point lies inside the rectangle, edges included.
pub open spec fn in_rect(r: Rect, p: Point) -> bool {
    r.left <= p.x <= r.right && r.top <= p.y <= r.bottom
}

/// Twice the signed area of the triangle (a, b, p).
pub open spec fn cross(a: Point, b: Point, p: Point) -> int {
    (b.x - a.x) * (p.y - a.y) - (b.y - a.y) * (p.x - a.x)
}

/// Whether the point lies inside the triangle (a, b, c), edges included,
/// whichever way the triangle winds.
pub open spec fn in_triangle(a: Point, b: Point, c: Point, p: Point) -> bool {
    (cross(a, b, p) >= 0 && cross(b, c, p) >= 0 && cross(c, a, p) >= 0) || (cross(a, b, p) <= 0
        && cross(b, c, p) <= 0 && cross(c, a, p) <= 0)
}

/// Whether the point lies in the triangle of a batch named by indices `k`, `k + 1`, `k + 2`.
pub open spec fn in_batch_triangle(
    vertices: Seq<Vertex>,
    indices: Seq<u16>,
    k: int,
    p: Point,
) -> bool {
    in_triangle(
        vertices[indices[k] as int].point,
        vertices[indices[k + 1] as int].point,
        vertices[indices[k + 2] as int].point,
        p,
    )
}

impl Rect {
    /// Appends the rectangle, filled with `color`, to a batch: its four corners
    /// as new vertices, and two triangles sharing the top-left to bottom-right
    /// diagonal as six new indices into them. What the batch held before is kept.
    ///
    /// The edges are not checked: a rectangle without area (see `has_area`)
    /// still adds four vertices and six indices, whose triangles then have no
    /// area either and cover nothing when drawn.
    pub fn draw(&self, color: Color, vertices: &mut Vec<Vertex>, indices: &mut Vec<u16>)
        requires
            old(vertices)@.len() + 4 <= MAX_VERTICES,
        ensures
            final(vertices)@ == old(vertices)@ + rect_vertices(*self, color),
            final(indices)@ == old(indices)@ + quad_indices(old(vertices)@.len()),
    {
        let base = vertices.len() as u16;
        vertices.push(Vertex { point: Point { x: self.left, y: self.top }, color });
        vertices.push(Vertex { point: Point { x: self.right, y: self.top }, color });
        vertices.push(Vertex { point: Point { x: self.right, y: self.bottom }, color });
        vertices.push(Vertex { point: Point { x: self.left, y: self.bottom }, color });
        indices.push(base);
        indices.push(base + 1);
        indices.push(base + 2);
        indices.push(base + 2);
        indices.push(base + 3);
        indices.push(base);
        assert(final(vertices)@ =~= old(vertices)@ + rect_vertices(*self, color));
        assert(final(indices)@ =~= old(indices)@ + quad_indices(old(vertices)@.len()));
    }
}

/// Drawing a rectangle adds exactly four vertices and six indices, and every
/// new index names one of the four new vertices.
pub proof fn lemma_draw_counts_and_range(
    vertices: Seq<Vertex>,
    indices: Seq<u16>,
    r: Rect,
    c: Color,
)
    requires
        vertices.len() + 4 <= MAX_VERTICES,
    ensures
        (vertices + rect_vertices(r, c)).len() == vertices.len() + 4,
        (indices + quad_indices(vertices.len())).len() == indices.len() + 6,
        forall|k: int|
            indices.len() <= k < indices.len() + 6 ==> vertices.len() <= (#[trigger] (indices
                + quad_indices(vertices.len()))[k]) < vertices.len() + 4,
{
    let all = indices + quad_indices(vertices.len());
    assert forall|k: int| indices.len() <= k < indices.len() + 6 implies vertices.len() <= (
    #[trigger] all[k]) < vertices.len() + 4 by {
        assert(all[k] == quad_indices(vertices.len())[k - indices.len()]);
    }
}

/// For a rectangle with area, the two triangles that drawing it adds cover
/// exactly the rectangle: a point lies in the rectangle if and only if it
/// lies in one of them.
pub proof fn lemma_draw_covers_rect(
    vertices: Seq<Vertex>,
    indices: Seq<u16>,
    r: Rect,
    c: Color,
    p: Point,
)
    requires
        vertices.len() + 4 <= MAX_VERTICES,
        has_area(r),
    ensures
        ({
            let vs = vertices + rect_vertices(r, c);
            let is = indices + quad_indices(vertices.len());
            in_rect(r, p) <==> (in_batch_triangle(vs, is, indices.len() as int, p)
                || in_batch_triangle(vs, is, indices.len() as int + 3, p))
        }),
{
    let vs = vertices + rect_vertices(r, c);
    let is = indices + quad_indices(vertices.len());
    let n = vertices.len() as int;
    let m = indices.len() as int;
    assert(is[m] == n && is[m + 1] == n + 1 && is[m + 2] == n + 2);
    assert(is[m + 3] == n + 2 && is[m + 4] == n + 3 && is[m + 5] == n);
    let tl = Point { x: r.left, y: r.top };
    let tr = Point { x: r.right, y: r.top };
    let br = Point { x: r.right, y: r.bottom };
    let bl = Point { x: r.left, y: r.bottom };
    assert(vs[n].point == tl && vs[n + 1].point == tr);
    assert(vs[n + 2].point == br && vs[n + 3].point == bl);
    let w: int = r.right - r.left;
    let h: int = r.bottom - r.top;
    let u: int = p.x - r.left;
    let v: int = p.y - r.top;
    lemma_rect_crosses(r.left as int, r.top as int, r.right as int, r.bottom as int, p.x as int, p.y as int);
    lemma_quad_cover(w, h, u, v);
}

/// The six cross products of a point against the edges and the diagonal of
/// the rectangle with corners (l, t) and (r, b), written relative to its
/// top-left corner.
proof fn lemma_rect_crosses(l: int, t: int, r: int, b: int, x: int, y: int)
    ensures
        (r - l) * (y - t) - (t - t) * (x - l) == (r - l) * (y - t),
        (r - r) * (y - t) - (b - t) * (x - r) == (b - t) * ((r - l) - (x - l)),
        (l - r) * (y - b) - (t - b) * (x - r) == (b - t) * (x - l) - (r - l) * (y - t),
        (l - r) * (y - b) - (b - b) * (x - r) == (r - l) * ((b - t) - (y - t)),
        (l - l) * (y - b) - (t - b) * (x - l) == (b - t) * (x - l),
        (r - l) * (y - t) - (b - t) * (x - l) == (r - l) * (y - t) - (b - t) * (x - l),
{
    assert((r - r) * (y - t) - (b - t) * (x - r) == (b - t) * ((r - l) - (x - l)))
        by (nonlinear_arith);
    assert((l - r) * (y - b) - (t - b) * (x - r) == (b - t) * (x - l) - (r - l) * (y - t))
        by (nonlinear_arith);
    assert((l - r) * (y - b) - (b - b) * (x - r) == (r - l) * ((b - t) - (y - t)))
        by (nonlinear_arith);
    assert((l - l) * (y - b) - (t - b) * (x - l) == (b - t) * (x - l)) by (nonlinear_arith);
}

/// The arithmetic behind `lemma_draw_covers_rect`, with the rectangle's
/// top-left corner moved to the origin.
proof fn lemma_quad_cover(w: int, h: int, u: int, v: int)
    requires
        w > 0,
        h > 0,
    ensures
        (0 <= u <= w && 0 <= v <= h) <==> (((w * v >= 0 && h * (w - u) >= 0 && h * u - w * v
            >= 0) || (w * v <= 0 && h * (w - u) <= 0 && h * u - w * v <= 0)) || ((w * (h - v)
            >= 0 && h * u >= 0 && w * v - h * u >= 0) || (w * (h - v) <= 0 && h * u <= 0 && w
            * v - h * u <= 0))),
{
    if 0 <= u <= w && 0 <= v <= h {
        assert(w * v >= 0 && h * (w - u) >= 0 && w * (h - v) >= 0 && h * u >= 0)
            by (nonlinear_arith)
            requires w > 0, h > 0, 0 <= u <= w, 0 <= v <= h;
    }
    if w * v >= 0 && h * (w - u) >= 0 && h * u - w * v >= 0 {
        assert(0 <= u <= w && 0 <= v <= h) by (nonlinear_arith)
            requires w > 0, h > 0, w * v >= 0, h * (w - u) >= 0, h * u - w * v >= 0;
    }
    if w * v <= 0 && h * (w - u) <= 0 && h * u - w * v <= 0 {
        assert(false) by (nonlinear_arith)
            requires w > 0, h > 0, w * v <= 0, h * (w - u) <= 0, h * u - w * v <= 0;
    }
    if w * (h - v) >= 0 && h * u >= 0 && w * v - h * u >= 0 {
        assert(0 <= u <= w && 0 <= v <= h) by (nonlinear_arith)
            requires w > 0, h > 0, w * (h - v) >= 0, h * u >= 0, w * v - h * u >= 0;
    }
    if w * (h - v) <= 0 && h * u <= 0 && w * v - h * u <= 0 {
        assert(false) by (nonlinear_arith)
            requires w > 0, h > 0, w * (h - v) <= 0, h * u <= 0, w * v - h * u <= 0;
    }
}

} // verus!
