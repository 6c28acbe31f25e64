use vstd::prelude::*;

verus! {

/// Number of anchor units across one viewport span, and also the number of
/// subpixels per pixel in resolved coordinates: an anchor component of 0 names
/// the left/bottom edge, `ANCHOR_SCALE` the right/top edge.
pub const ANCHOR_SCALE: u16 = 1000;

/// A corner anchor: each component is a fraction of the viewport size in
/// thousandths, so layout is independent of the viewport resolution.
#[derive(Clone, Copy, Debug, PartialEq, Eq, Structural)]
pub struct AnchorPoint {
    pub x: u16,
    pub y: u16,
}

impl AnchorPoint {
    /// Anchor fractions lie in [0, 1] of the viewport, i.e. in
    /// [0, ANCHOR_SCALE] thousandths.
    pub open spec fn wf(self) -> bool {
        self.x <= ANCHOR_SCALE && self.y <= ANCHOR_SCALE
    }

    pub fn new(x: u16, y: u16) -> (r: AnchorPoint)
        requires
            x <= ANCHOR_SCALE,
            y <= ANCHOR_SCALE,
        ensures
            r == (AnchorPoint { x, y }),
            r.wf(),
    {
        AnchorPoint { x, y }
    }
}

/// A pixel offset, added after the anchor part has been resolved.
#[derive(Clone, Copy, Debug, PartialEq, Eq, Structural)]
pub struct PixelVec {
    pub x: i32,
    pub y: i32,
}

/// Viewport size in pixels.
#[derive(Clone, Copy, Debug, PartialEq, Eq, Structural)]
pub struct Viewport {
    pub width: u32,
    pub height: u32,
}

/// A resolved screen rectangle. Coordinates are in subpixels: one pixel is
/// `ANCHOR_SCALE` subpixels, so anchor resolution stays exact in integers.
#[derive(Clone, Copy, Debug, PartialEq, Eq, Structural)]
pub struct Rect {
    pub bl_x: i64,
    pub bl_y: i64,
    pub tr_x: i64,
    pub tr_y: i64,
}

/// Spec-level rectangle over unbounded integers, used by contracts.
pub struct RectModel {
    pub bl_x: int,
    pub bl_y: int,
    pub tr_x: int,
    pub tr_y: int,
}

impl View for Rect {
    type V = RectModel;

    open spec fn view(&self) -> RectModel {
        RectModel {
            bl_x: self.bl_x as int,
            bl_y: self.bl_y as int,
            tr_x: self.tr_x as int,
            tr_y: self.tr_y as int,
        }
    }
}

/// An anchor-position pair for a quad: the bottom-left and top-right corners
/// are each pinned to an anchor of the viewport and then offset in pixels.
#[derive(Clone, Copy, Debug, PartialEq, Eq, Structural)]
pub struct Shape {
    pub bl_anchor: AnchorPoint,
    pub tr_anchor: AnchorPoint,
    pub bl_pos: PixelVec,
    pub tr_pos: PixelVec,
}

impl Shape {
    pub open spec fn wf(self) -> bool {
        self.bl_anchor.wf() && self.tr_anchor.wf()
    }

    pub fn new(bl_anchor: AnchorPoint, tr_anchor: AnchorPoint, bl_pos: PixelVec, tr_pos: PixelVec) -> (r: Shape)
        requires
            bl_anchor.wf(),
            tr_anchor.wf(),
        ensures
            r == (Shape { bl_anchor, tr_anchor, bl_pos, tr_pos }),
            r.wf(),
    {
        Shape { bl_anchor, tr_anchor, bl_pos, tr_pos }
    }
}

/// An anchor-position pair for a single point: the origin of a text run.
#[derive(Clone, Copy, Debug, PartialEq, Eq, Structural)]
pub struct Position {
    pub anchor: AnchorPoint,
    pub position: PixelVec,
}

impl Position {
    pub open spec fn wf(self) -> bool {
        self.anchor.wf()
    }

    pub fn new(anchor: AnchorPoint, position: PixelVec) -> (r: Position)
        requires
            anchor.wf(),
        ensures
            r == (Position { anchor, position }),
            r.wf(),
    {
        Position { anchor, position }
    }
}

/// One resolved coordinate, in subpixels: the anchor fraction of the viewport
/// plus the pixel offset, both scaled by `ANCHOR_SCALE`.
pub open spec fn resolve_coord(anchor: int, viewport: int, pos: int) -> int {
    anchor * viewport + (ANCHOR_SCALE as int) * pos
}

/// The resolved screen rectangle of a shape against a viewport.
pub open spec fn resolve_rect(s: Shape, vw: int, vh: int) -> RectModel {
    RectModel {
        bl_x: resolve_coord(s.bl_anchor.x as int, vw, s.bl_pos.x as int),
        bl_y: resolve_coord(s.bl_anchor.y as int, vh, s.bl_pos.y as int),
        tr_x: resolve_coord(s.tr_anchor.x as int, vw, s.tr_pos.x as int),
        tr_y: resolve_coord(s.tr_anchor.y as int, vh, s.tr_pos.y as int),
    }
}

/// A bound that every resolved coordinate respects: at most an anchor of
/// `ANCHOR_SCALE` times the largest viewport plus the largest scaled offset.
pub const COORD_LIMIT: i64 = 10_000_000_000_000;

/// Resolves one axis: anchor fraction of the viewport plus pixel offset.
pub fn resolve_axis(anchor: u16, viewport: u32, pos: i32) -> (r: i64)
    requires
        anchor <= ANCHOR_SCALE,
    ensures
        r == resolve_coord(anchor as int, viewport as int, pos as int),
        -COORD_LIMIT <= r <= COORD_LIMIT,
{
    proof {
        assert(ANCHOR_SCALE as int == 1000);
        assert(0 <= (anchor as int) * (viewport as int)
            && (anchor as int) * (viewport as int) <= 1000 * 0xffff_ffff) by (nonlinear_arith)
            requires
                0 <= anchor <= 1000,
                0 <= viewport <= 0xffff_ffff,
        ;
    }
    (anchor as i64) * (viewport as i64) + 1000i64 * (pos as i64)
}

/// Resolves a shape's on-screen rectangle against the viewport. A degenerate
/// or inverted rectangle is legal and resolved as-is: the caller is
/// responsible for sane anchors.
pub fn resolve(shape: &Shape, viewport: Viewport) -> (r: Rect)
    requires
        shape.wf(),
    ensures
        r@ == resolve_rect(*shape, viewport.width as int, viewport.height as int),
{
    let r = Rect {
        bl_x: resolve_axis(shape.bl_anchor.x, viewport.width, shape.bl_pos.x),
        bl_y: resolve_axis(shape.bl_anchor.y, viewport.height, shape.bl_pos.y),
        tr_x: resolve_axis(shape.tr_anchor.x, viewport.width, shape.tr_pos.x),
        tr_y: resolve_axis(shape.tr_anchor.y, viewport.height, shape.tr_pos.y),
    };
    r
}

/// Law: one resolved coordinate is linear in the viewport. Resolving against
/// the sum of two viewport sizes, together with resolving against the zero
/// viewport, equals the sum of the two separate resolutions; and the zero
/// viewport leaves exactly the scaled pixel offset.
pub proof fn lemma_resolve_coord_linear(anchor: int, v1: int, v2: int, pos: int)
    ensures
        resolve_coord(anchor, v1 + v2, pos) + resolve_coord(anchor, 0, pos)
            == resolve_coord(anchor, v1, pos) + resolve_coord(anchor, v2, pos),
        resolve_coord(anchor, 0, pos) == (ANCHOR_SCALE as int) * pos,
{
    assert(anchor * (v1 + v2) == anchor * v1 + anchor * v2) by (nonlinear_arith);
    assert(anchor * 0 == 0) by (nonlinear_arith);
}

/// Law: shape resolution is linear in the viewport size in every component,
/// and reproduces `anchor * viewport + ANCHOR_SCALE * pos` exactly.
pub proof fn lemma_resolve_linear(s: Shape, v1w: int, v1h: int, v2w: int, v2h: int)
    ensures
        resolve_rect(s, v1w + v2w, v1h + v2h).bl_x + resolve_rect(s, 0, 0).bl_x
            == resolve_rect(s, v1w, v1h).bl_x + resolve_rect(s, v2w, v2h).bl_x,
        resolve_rect(s, v1w + v2w, v1h + v2h).bl_y + resolve_rect(s, 0, 0).bl_y
            == resolve_rect(s, v1w, v1h).bl_y + resolve_rect(s, v2w, v2h).bl_y,
        resolve_rect(s, v1w + v2w, v1h + v2h).tr_x + resolve_rect(s, 0, 0).tr_x
            == resolve_rect(s, v1w, v1h).tr_x + resolve_rect(s, v2w, v2h).tr_x,
        resolve_rect(s, v1w + v2w, v1h + v2h).tr_y + resolve_rect(s, 0, 0).tr_y
            == resolve_rect(s, v1w, v1h).tr_y + resolve_rect(s, v2w, v2h).tr_y,
        resolve_rect(s, v1w, v1h).bl_x == s.bl_anchor.x * v1w + (ANCHOR_SCALE as int) * s.bl_pos.x,
        resolve_rect(s, v1w, v1h).bl_y == s.bl_anchor.y * v1h + (ANCHOR_SCALE as int) * s.bl_pos.y,
        resolve_rect(s, v1w, v1h).tr_x == s.tr_anchor.x * v1w + (ANCHOR_SCALE as int) * s.tr_pos.x,
        resolve_rect(s, v1w, v1h).tr_y == s.tr_anchor.y * v1h + (ANCHOR_SCALE as int) * s.tr_pos.y,
{
    lemma_resolve_coord_linear(s.bl_anchor.x as int, v1w, v2w, s.bl_pos.x as int);
    lemma_resolve_coord_linear(s.bl_anchor.y as int, v1h, v2h, s.bl_pos.y as int);
    lemma_resolve_coord_linear(s.tr_anchor.x as int, v1w, v2w, s.tr_pos.x as int);
    lemma_resolve_coord_linear(s.tr_anchor.y as int, v1h, v2h, s.tr_pos.y as int);
}

} // verus!
