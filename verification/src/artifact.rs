use vstd::prelude::*;
use crate::error::ContentError;
use crate::geom::{
    resolve, resolve_axis, resolve_coord, resolve_rect, Position, Rect, RectModel, Shape,
    Viewport, ANCHOR_SCALE, COORD_LIMIT,
};
use crate::glyph::{GlyphCache, GlyphMetrics};

verus! {

/// Depth values are thousandths of the full depth range: 0 is nearest, and
/// `DEPTH_ONE` (the clear depth) is the far plane. A lower value wins the
/// "less" depth test.
pub const DEPTH_ONE: u16 = 1000;

/// The fixed spacing between consecutive glyphs of a text run, in pixels:
/// a monospaced-advance approximation, not kerning.
pub const GLYPH_GAP: u16 = 5;

/// The most glyphs one text run may hold, so that accumulated advances stay
/// within machine integers.
pub const MAX_TEXT_LEN: usize = 100_000;

/// What a draw call binds: a sprite's image texture, by the caller's handle,
/// or a cached glyph's texture, by character code.
#[derive(Clone, Copy, Debug, PartialEq, Eq, Structural)]
pub enum TexRef {
    Image(u32),
    Glyph(u32),
}

/// One draw call of the shared unit quad: the resolved screen rectangle (in
/// subpixels), the depth, and the texture to bind.
#[derive(Clone, Copy, Debug, PartialEq, Eq, Structural)]
pub struct DrawCall {
    pub rect: Rect,
    pub depth: u16,
    pub tex: TexRef,
}

/// Spec-level draw call over unbounded integers.
pub struct CallModel {
    pub rect: RectModel,
    pub depth: int,
    pub tex: TexRef,
}

impl View for DrawCall {
    type V = CallModel;

    open spec fn view(&self) -> CallModel {
        CallModel { rect: self.rect@, depth: self.depth as int, tex: self.tex }
    }
}

/// The issued call sequence, viewed at the spec level.
pub open spec fn calls_model(v: Seq<DrawCall>) -> Seq<CallModel> {
    v.map_values(|c: DrawCall| c@)
}

/// A drawable scene-graph node. The variant set is closed: a group draws
/// nothing itself, a sprite draws one textured quad, a text run draws one
/// quad per glyph. Every variant owns an ordered child list, drawn after the
/// node itself, in insertion order.
#[derive(Debug)]
pub enum Artifact {
    Group { name: String, children: Vec<Artifact> },
    Sprite { name: String, shape: Shape, tex: u32, depth: u16, children: Vec<Artifact> },
    TextRun {
        name: String,
        position: Position,
        depth: u16,
        font_scale: u16,
        glyphs: Vec<u32>,
        children: Vec<Artifact>,
    },
}

impl Artifact {
    /// The diagnostic name; not necessarily unique.
    pub open spec fn spec_name(self) -> Seq<char> {
        match self {
            Artifact::Group { name, .. } => name@,
            Artifact::Sprite { name, .. } => name@,
            Artifact::TextRun { name, .. } => name@,
        }
    }

    /// The owned, ordered child list.
    pub open spec fn spec_children(self) -> Seq<Artifact> {
        match self {
            Artifact::Group { children, .. } => children@,
            Artifact::Sprite { children, .. } => children@,
            Artifact::TextRun { children, .. } => children@,
        }
    }

    /// Anchors within range, depths within the depth range, text runs within
    /// the supported length, recursively.
    pub open spec fn wf(self) -> bool
        decreases self,
    {
        match self {
            Artifact::Group { children, .. } => wf_all(children@),
            Artifact::Sprite { shape, depth, children, .. } => {
                &&& shape.wf()
                &&& depth <= DEPTH_ONE
                &&& wf_all(children@)
            },
            Artifact::TextRun { position, depth, glyphs, children, .. } => {
                &&& position.wf()
                &&& depth <= DEPTH_ONE
                &&& glyphs@.len() <= MAX_TEXT_LEN
                &&& wf_all(children@)
            },
        }
    }
}

pub open spec fn wf_all(s: Seq<Artifact>) -> bool
    decreases s,
{
    if s.len() == 0 {
        true
    } else {
        s[0].wf() && wf_all(s.subrange(1, s.len() as int))
    }
}

pub proof fn lemma_wf_all(s: Seq<Artifact>)
    ensures
        wf_all(s) <==> (forall|i: int| 0 <= i < s.len() ==> (#[trigger] s[i]).wf()),
    decreases s.len(),
{
    if s.len() > 0 {
        let rest = s.subrange(1, s.len() as int);
        lemma_wf_all(rest);
        if wf_all(s) {
            assert forall|i: int| 0 <= i < s.len() implies (#[trigger] s[i]).wf() by {
                if i > 0 {
                    assert(rest[i - 1].wf());
                    assert(rest[i - 1] == s[i]);
                }
            }
        }
        if forall|i: int| 0 <= i < s.len() ==> (#[trigger] s[i]).wf() {
            assert forall|j: int| 0 <= j < rest.len() implies (#[trigger] rest[j]).wf() by {
                assert(rest[j] == s[j + 1]);
            }
        }
    }
}

/// Every text run in the tree references only cached character codes.
pub open spec fn codes_ok(a: Artifact, cache_len: int) -> bool
    decreases a,
{
    match a {
        Artifact::Group { children, .. } => codes_ok_all(children@, cache_len),
        Artifact::Sprite { children, .. } => codes_ok_all(children@, cache_len),
        Artifact::TextRun { glyphs, children, .. } => {
            &&& forall|i: int| 0 <= i < glyphs@.len() ==> (#[trigger] glyphs@[i]) < cache_len
            &&& codes_ok_all(children@, cache_len)
        },
    }
}

pub open spec fn codes_ok_all(s: Seq<Artifact>, cache_len: int) -> bool
    decreases s,
{
    if s.len() == 0 {
        true
    } else {
        codes_ok(s[0], cache_len) && codes_ok_all(s.subrange(1, s.len() as int), cache_len)
    }
}

pub proof fn lemma_codes_ok_all(s: Seq<Artifact>, cache_len: int)
    ensures
        codes_ok_all(s, cache_len) <==> (forall|i: int| 0 <= i < s.len()
            ==> codes_ok(#[trigger] s[i], cache_len)),
    decreases s.len(),
{
    if s.len() > 0 {
        let rest = s.subrange(1, s.len() as int);
        lemma_codes_ok_all(rest, cache_len);
        if codes_ok_all(s, cache_len) {
            assert forall|i: int| 0 <= i < s.len() implies codes_ok(#[trigger] s[i], cache_len) by {
                if i > 0 {
                    assert(codes_ok(rest[i - 1], cache_len));
                    assert(rest[i - 1] == s[i]);
                }
            }
        }
        if forall|i: int| 0 <= i < s.len() ==> codes_ok(#[trigger] s[i], cache_len) {
            assert forall|j: int| 0 <= j < rest.len() implies codes_ok(#[trigger] rest[j], cache_len) by {
                assert(rest[j] == s[j + 1]);
            }
        }
    }
}

/// The call a text run issues for one glyph: the cached size and baseline
/// offset scaled by the font scale (in hundredths), placed at the running
/// origin.
pub open spec fn text_call(g: GlyphMetrics, code: u32, ox: int, oy: int, depth: int, scale: int) -> CallModel {
    let w = (g.width as int) * scale * 10;
    let h = (g.height as int) * scale * 10;
    let off = (g.offset as int) * scale * 10;
    CallModel {
        rect: RectModel { bl_x: ox, bl_y: oy - off, tr_x: ox + w, tr_y: oy + h - off },
        depth,
        tex: TexRef::Glyph(code),
    }
}

/// How far the running origin moves after one glyph: the scaled width plus
/// the fixed inter-glyph gap.
pub open spec fn glyph_advance(g: GlyphMetrics, scale: int) -> int {
    (g.width as int) * scale * 10 + (GLYPH_GAP as int) * (ANCHOR_SCALE as int)
}

/// The calls a text run issues: one per glyph, left to right, each advancing
/// the origin; a single horizontal line, with no wrapping.
pub open spec fn spec_text_calls(
    glyphs: Seq<u32>,
    cache: Seq<GlyphMetrics>,
    ox: int,
    oy: int,
    depth: int,
    scale: int,
) -> Seq<CallModel>
    decreases glyphs.len(),
{
    if glyphs.len() == 0 {
        Seq::empty()
    } else {
        let g = cache[glyphs[0] as int];
        seq![text_call(g, glyphs[0], ox, oy, depth, scale)] + spec_text_calls(
            glyphs.subrange(1, glyphs.len() as int),
            cache,
            ox + glyph_advance(g, scale),
            oy,
            depth,
            scale,
        )
    }
}

/// The calls a node issues: its own calls first (none for a group, one for a
/// sprite, one per glyph for a text run), then its children's, in insertion
/// order. Depth never reorders calls; it only decides per-pixel visibility.
pub open spec fn spec_draw(a: Artifact, cache: Seq<GlyphMetrics>, vw: int, vh: int) -> Seq<CallModel>
    decreases a,
{
    match a {
        Artifact::Group { children, .. } => spec_draw_seq(children@, cache, vw, vh),
        Artifact::Sprite { shape, tex, depth, children, .. } => seq![
            CallModel {
                rect: resolve_rect(shape, vw, vh),
                depth: depth as int,
                tex: TexRef::Image(tex),
            },
        ] + spec_draw_seq(children@, cache, vw, vh),
        Artifact::TextRun { position, depth, font_scale, glyphs, children, .. } => spec_text_calls(
            glyphs@,
            cache,
            resolve_coord(position.anchor.x as int, vw, position.position.x as int),
            resolve_coord(position.anchor.y as int, vh, position.position.y as int),
            depth as int,
            font_scale as int,
        ) + spec_draw_seq(children@, cache, vw, vh),
    }
}

pub open spec fn spec_draw_seq(s: Seq<Artifact>, cache: Seq<GlyphMetrics>, vw: int, vh: int) -> Seq<CallModel>
    decreases s,
{
    if s.len() == 0 {
        Seq::empty()
    } else {
        spec_draw(s[0], cache, vw, vh) + spec_draw_seq(s.subrange(1, s.len() as int), cache, vw, vh)
    }
}

impl Artifact {
    /// The diagnostic name.
    pub fn name(&self) -> (r: &String)
        ensures
            r@ == self.spec_name(),
    {
        match self {
            Artifact::Group { name, .. } => name,
            Artifact::Sprite { name, .. } => name,
            Artifact::TextRun { name, .. } => name,
        }
    }

    /// The owned child list, in insertion order.
    pub fn children(&self) -> (r: &Vec<Artifact>)
        ensures
            r@ == self.spec_children(),
    {
        match self {
            Artifact::Group { children, .. } => children,
            Artifact::Sprite { children, .. } => children,
            Artifact::TextRun { children, .. } => children,
        }
    }

    /// Appends a child. The tree is built before the render loop starts and
    /// is read-only afterwards; nothing here enforces that, so appending is
    /// always legal.
    pub fn add_child(&mut self, artifact: Artifact)
        ensures
            final(self).spec_children() == old(self).spec_children().push(artifact),
            same_payload(*final(self), *old(self)),
    {
        match self {
            Artifact::Group { children, .. } => children.push(artifact),
            Artifact::Sprite { children, .. } => children.push(artifact),
            Artifact::TextRun { children, .. } => children.push(artifact),
        }
    }
}

/// Two nodes of the same variant whose payloads (everything but the child
/// list) agree.
pub open spec fn same_payload(a: Artifact, b: Artifact) -> bool {
    match (a, b) {
        (Artifact::Group { name: n1, .. }, Artifact::Group { name: n2, .. }) => n1 == n2,
        (
            Artifact::Sprite { name: n1, shape: s1, tex: t1, depth: d1, .. },
            Artifact::Sprite { name: n2, shape: s2, tex: t2, depth: d2, .. },
        ) => n1 == n2 && s1 == s2 && t1 == t2 && d1 == d2,
        (
            Artifact::TextRun { name: n1, position: p1, depth: d1, font_scale: f1, glyphs: g1, .. },
            Artifact::TextRun { name: n2, position: p2, depth: d2, font_scale: f2, glyphs: g2, .. },
        ) => n1 == n2 && p1 == p2 && d1 == d2 && f1 == f2 && g1 == g2,
        _ => false,
    }
}

/// Scales a glyph dimension by the font scale: `dim * scale` hundredths of a
/// pixel, i.e. `dim * scale * 10` subpixels.
fn scale_dim(dim: u32, scale: u16) -> (r: i64)
    requires
        dim <= 65535,
    ensures
        r == (dim as int) * (scale as int) * 10,
        0 <= r <= 42_948_362_250,
{
    proof {
        assert(0 <= (dim as int) * (scale as int) <= 65535 * 65535) by (nonlinear_arith)
            requires
                0 <= dim <= 65535,
                0 <= scale <= 65535,
        ;
    }
    (dim as i64) * (scale as i64) * 10
}

/// Scales a glyph's baseline offset by the font scale, in subpixels.
fn scale_offset(off: i64, scale: u16) -> (r: i64)
    requires
        -0x1_0000_0000 <= off <= 0x1_0000_0000,
    ensures
        r == (off as int) * (scale as int) * 10,
        -2_814_749_767_106_560 <= r <= 2_814_749_767_106_560,
{
    proof {
        assert(-0x1_0000_0000 * 65535 <= (off as int) * (scale as int)
            && (off as int) * (scale as int) <= 0x1_0000_0000 * 65535) by (nonlinear_arith)
            requires
                -0x1_0000_0000 <= off <= 0x1_0000_0000,
                0 <= scale <= 65535,
        ;
    }
    off * (scale as i64) * 10
}

/// Issues one call per glyph of a text run, advancing the origin left to
/// right, appending to `out`.
fn draw_text(
    glyphs: &Vec<u32>,
    cache: &GlyphCache,
    ox0: i64,
    oy: i64,
    depth: u16,
    scale: u16,
    out: &mut Vec<DrawCall>,
) -> (r: Result<(), ContentError>)
    requires
        cache.wf(),
        glyphs@.len() <= MAX_TEXT_LEN,
        -COORD_LIMIT <= ox0 <= COORD_LIMIT,
        -COORD_LIMIT <= oy <= COORD_LIMIT,
    ensures
        r.is_ok() <==> (forall|i: int| 0 <= i < glyphs@.len()
            ==> (#[trigger] glyphs@[i]) < cache.records@.len()),
        r.is_ok() ==> calls_model(final(out)@) == calls_model(old(out)@) + spec_text_calls(
            glyphs@,
            cache.metrics_seq(),
            ox0 as int,
            oy as int,
            depth as int,
            scale as int,
        ),
        (r matches Err(e) ==> e == ContentError::UncachedCharacter),
{
    let ghost out0 = out@;
    let ghost cm = cache.metrics_seq();
    proof {
        assert(glyphs@.subrange(0, glyphs@.len() as int) =~= glyphs@);
    }
    let mut ox: i64 = ox0;
    let mut i: usize = 0;
    while i < glyphs.len()
        invariant
            cache.wf(),
            cm == cache.metrics_seq(),
            i <= glyphs@.len(),
            glyphs@.len() <= MAX_TEXT_LEN,
            -COORD_LIMIT <= ox0 <= COORD_LIMIT,
            -COORD_LIMIT <= oy <= COORD_LIMIT,
            // The largest advance per glyph: the largest scaled width plus
            // the gap, written as a literal so the bound stays linear.
            ox0 <= ox <= ox0 + (i as int) * 42_948_367_250,
            forall|k: int| 0 <= k < i as int
                ==> (#[trigger] glyphs@[k]) < cache.records@.len(),
            calls_model(out0) + spec_text_calls(glyphs@, cm, ox0 as int, oy as int, depth as int, scale as int)
                == calls_model(out@) + spec_text_calls(
                    glyphs@.subrange(i as int, glyphs@.len() as int),
                    cm,
                    ox as int,
                    oy as int,
                    depth as int,
                    scale as int,
                ),
        decreases glyphs@.len() - i,
    {
        let code = glyphs[i];
        let g = match cache.record(code) {
            Some(g) => g,
            None => {
                return Err(ContentError::UncachedCharacter);
            },
        };
        proof {
            assert(cache.records@[code as int].wf());
            assert(cm[code as int] == g.metrics);
        }
        let w_s = scale_dim(g.metrics.width, scale);
        let h_s = scale_dim(g.metrics.height, scale);
        let off_s = scale_offset(g.metrics.offset, scale);
        let call = DrawCall {
            rect: Rect { bl_x: ox, bl_y: oy - off_s, tr_x: ox + w_s, tr_y: oy + h_s - off_s },
            depth,
            tex: TexRef::Glyph(code),
        };
        proof {
            let rest = glyphs@.subrange(i as int, glyphs@.len() as int);
            assert(rest[0] == glyphs@[i as int]);
            assert(rest.subrange(1, rest.len() as int)
                =~= glyphs@.subrange(i as int + 1, glyphs@.len() as int));
            assert(call@ == text_call(cm[code as int], code, ox as int, oy as int, depth as int, scale as int));
            assert(calls_model(out@.push(call)) =~= calls_model(out@).push(call@));
            assert((calls_model(out@) + seq![call@]) + spec_text_calls(
                glyphs@.subrange(i as int + 1, glyphs@.len() as int),
                cm,
                ox as int + glyph_advance(cm[code as int], scale as int),
                oy as int,
                depth as int,
                scale as int,
            ) =~= calls_model(out@).push(call@) + spec_text_calls(
                glyphs@.subrange(i as int + 1, glyphs@.len() as int),
                cm,
                ox as int + glyph_advance(cm[code as int], scale as int),
                oy as int,
                depth as int,
                scale as int,
            ));
            assert(seq![text_call(cm[code as int], code, ox as int, oy as int, depth as int, scale as int)]
                + spec_text_calls(
                    glyphs@.subrange(i as int + 1, glyphs@.len() as int),
                    cm,
                    ox as int + glyph_advance(cm[code as int], scale as int),
                    oy as int,
                    depth as int,
                    scale as int,
                ) =~= spec_text_calls(rest, cm, ox as int, oy as int, depth as int, scale as int))
            by {
                assert(spec_text_calls(rest, cm, ox as int, oy as int, depth as int, scale as int)
                    == seq![text_call(cm[rest[0] as int], rest[0], ox as int, oy as int, depth as int, scale as int)]
                        + spec_text_calls(
                            rest.subrange(1, rest.len() as int),
                            cm,
                            ox as int + glyph_advance(cm[rest[0] as int], scale as int),
                            oy as int,
                            depth as int,
                            scale as int,
                        ));
            }
            assert(ANCHOR_SCALE == 1000 && GLYPH_GAP == 5);
        }
        out.push(call);
        ox = ox + w_s + 5000;
        i += 1;
    }
    proof {
        assert(glyphs@.subrange(glyphs@.len() as int, glyphs@.len() as int) =~= Seq::<u32>::empty());
        assert(spec_text_calls(Seq::empty(), cm, ox as int, oy as int, depth as int, scale as int)
            =~= Seq::<CallModel>::empty());
        assert(calls_model(out@) + Seq::<CallModel>::empty() =~= calls_model(out@));
        assert(calls_model(out@) == calls_model(out0) + spec_text_calls(
            glyphs@, cm, ox0 as int, oy as int, depth as int, scale as int));
    }
    Ok(())
}

/// Issues the calls for one node and then, recursively, for its children.
fn draw_into(a: &Artifact, cache: &GlyphCache, viewport: Viewport, out: &mut Vec<DrawCall>) -> (r:
    Result<(), ContentError>)
    requires
        a.wf(),
        cache.wf(),
    ensures
        r.is_ok() <==> codes_ok(*a, cache.records@.len() as int),
        r.is_ok() ==> calls_model(final(out)@) == calls_model(old(out)@) + spec_draw(
            *a,
            cache.metrics_seq(),
            viewport.width as int,
            viewport.height as int,
        ),
        (r matches Err(e) ==> e == ContentError::UncachedCharacter),
    decreases *a,
{
    let ghost cm = cache.metrics_seq();
    let ghost vw = viewport.width as int;
    let ghost vh = viewport.height as int;
    match a {
        Artifact::Group { children, .. } => {
            let r = draw_all(children, cache, viewport, out);
            r
        },
        Artifact::Sprite { shape, tex, depth, children, .. } => {
            let ghost out0 = out@;
            let rect = resolve(shape, viewport);
            let call = DrawCall { rect, depth: *depth, tex: TexRef::Image(*tex) };
            out.push(call);
            proof {
                assert(calls_model(out@) =~= calls_model(out0).push(call@));
            }
            let r = draw_all(children, cache, viewport, out);
            proof {
                if r.is_ok() {
                    assert(calls_model(out0).push(call@) + spec_draw_seq(children@, cm, vw, vh)
                        =~= calls_model(out0) + (seq![call@] + spec_draw_seq(children@, cm, vw, vh)));
                }
            }
            r
        },
        Artifact::TextRun { position, depth, font_scale, glyphs, children, .. } => {
            let ghost out0 = out@;
            let ox0 = resolve_axis(position.anchor.x, viewport.width, position.position.x);
            let oy = resolve_axis(position.anchor.y, viewport.height, position.position.y);
            match draw_text(glyphs, cache, ox0, oy, *depth, *font_scale, out) {
                Err(e) => Err(e),
                Ok(()) => {
                    let ghost out1 = out@;
                    let r = draw_all(children, cache, viewport, out);
                    proof {
                        if r.is_ok() {
                            let text = spec_text_calls(
                                glyphs@, cm, ox0 as int, oy as int, *depth as int, *font_scale as int);
                            assert((calls_model(out0) + text) + spec_draw_seq(children@, cm, vw, vh)
                                =~= calls_model(out0) + (text + spec_draw_seq(children@, cm, vw, vh)));
                        }
                    }
                    r
                },
            }
        },
    }
}

/// Issues the calls for each node of a list, in order.
pub(crate) fn draw_all(list: &Vec<Artifact>, cache: &GlyphCache, viewport: Viewport, out: &mut Vec<DrawCall>) -> (r:
    Result<(), ContentError>)
    requires
        wf_all(list@),
        cache.wf(),
    ensures
        r.is_ok() <==> codes_ok_all(list@, cache.records@.len() as int),
        r.is_ok() ==> calls_model(final(out)@) == calls_model(old(out)@) + spec_draw_seq(
            list@,
            cache.metrics_seq(),
            viewport.width as int,
            viewport.height as int,
        ),
        (r matches Err(e) ==> e == ContentError::UncachedCharacter),
    decreases list@,
{
    let ghost cm = cache.metrics_seq();
    let ghost vw = viewport.width as int;
    let ghost vh = viewport.height as int;
    let ghost out0 = out@;
    let ghost clen = cache.records@.len() as int;
    proof {
        lemma_wf_all(list@);
        lemma_codes_ok_all(list@, clen);
        assert(list@.subrange(0, list@.len() as int) =~= list@);
    }
    let mut i: usize = 0;
    while i < list.len()
        invariant
            cache.wf(),
            wf_all(list@),
            cm == cache.metrics_seq(),
            vw == viewport.width as int,
            vh == viewport.height as int,
            clen == cache.records@.len() as int,
            i <= list@.len(),
            forall|k: int| 0 <= k < list@.len() ==> (#[trigger] list@[k]).wf(),
            forall|k: int| 0 <= k < i as int ==> codes_ok(#[trigger] list@[k], clen),
            calls_model(out0) + spec_draw_seq(list@, cm, vw, vh) == calls_model(out@)
                + spec_draw_seq(list@.subrange(i as int, list@.len() as int), cm, vw, vh),
        decreases list@.len() - i,
    {
        proof {
            assert(decreases_to!(list@ => list@[i as int]));
        }
        match draw_into(&list[i], cache, viewport, out) {
            Err(e) => {
                proof {
                    lemma_codes_ok_all(list@, clen);
                }
                return Err(e);
            },
            Ok(()) => (),
        }
        proof {
            let rest = list@.subrange(i as int, list@.len() as int);
            assert(rest[0] == list@[i as int]);
            assert(rest.subrange(1, rest.len() as int)
                =~= list@.subrange(i as int + 1, list@.len() as int));
            assert(spec_draw_seq(rest, cm, vw, vh) == spec_draw(list@[i as int], cm, vw, vh)
                + spec_draw_seq(list@.subrange(i as int + 1, list@.len() as int), cm, vw, vh));
        }
        i += 1;
    }
    proof {
        assert(list@.subrange(list@.len() as int, list@.len() as int) =~= Seq::<Artifact>::empty());
        assert(spec_draw_seq(Seq::empty(), cm, vw, vh) =~= Seq::<CallModel>::empty());
        assert(calls_model(out@) + Seq::<CallModel>::empty() =~= calls_model(out@));
        lemma_codes_ok_all(list@, clen);
    }
    Ok(())
}

/// Draws a node: appends its calls to `target` — the node's own first, then
/// its children's, in insertion order — and hands the target back for
/// chaining. Fails, without a partial result, exactly when some text run in
/// the subtree references an uncached character code.
pub fn draw(a: &Artifact, cache: &GlyphCache, viewport: Viewport, target: Vec<DrawCall>) -> (r:
    Result<Vec<DrawCall>, ContentError>)
    requires
        a.wf(),
        cache.wf(),
    ensures
        r.is_ok() <==> codes_ok(*a, cache.records@.len() as int),
        (r matches Ok(v) ==> calls_model(v@) == calls_model(target@) + spec_draw(
            *a,
            cache.metrics_seq(),
            viewport.width as int,
            viewport.height as int,
        )),
        (r matches Err(e) ==> e == ContentError::UncachedCharacter),
{
    let mut out = target;
    match draw_into(a, cache, viewport, &mut out) {
        Ok(()) => Ok(out),
        Err(e) => Err(e),
    }
}

/// Builds a text run from a string: each character becomes a reference into
/// the glyph cache, by code. Fails, and reports a content error, exactly when
/// some character of the text is not cached.
pub fn create_string(
    text: &str,
    cache: &GlyphCache,
    position: Position,
    depth: u16,
    font_size: u16,
    name: String,
) -> (r: Result<Artifact, ContentError>)
    requires
        position.wf(),
        depth <= DEPTH_ONE,
        text@.len() <= MAX_TEXT_LEN,
    ensures
        r.is_ok() <==> (forall|i: int| 0 <= i < text@.len()
            ==> ((#[trigger] text@[i]) as u32) < cache.records@.len()),
        (r matches Ok(t) ==> {
            &&& t.spec_name() == name@
            &&& t matches Artifact::TextRun { position: p, depth: d, font_scale: f, glyphs: g, children: c, .. }
                && p == position && d == depth && f == font_size
                && g@ == text@.map_values(|ch: char| ch as u32)
                && c@ == Seq::<Artifact>::empty()
            &&& t.wf()
            &&& codes_ok(t, cache.records@.len() as int)
        }),
        (r matches Err(e) ==> e == ContentError::UncachedCharacter),
{
    let n = text.unicode_len();
    let mut glyphs: Vec<u32> = Vec::new();
    let mut i: usize = 0;
    while i < n
        invariant
            n == text@.len(),
            text@.len() <= MAX_TEXT_LEN,
            i <= n,
            glyphs@.len() == i as int,
            forall|k: int| 0 <= k < i as int
                ==> #[trigger] glyphs@[k] == (text@[k] as u32)
                    && glyphs@[k] < cache.records@.len(),
        decreases n - i,
    {
        let c = text.get_char(i);
        let code = c as u32;
        if !((code as usize) < cache.count()) {
            proof {
                assert(((text@[i as int]) as u32) >= cache.records@.len());
            }
            return Err(ContentError::UncachedCharacter);
        }
        glyphs.push(code);
        i += 1;
    }
    proof {
        assert(glyphs@ =~= text@.map_values(|ch: char| ch as u32));
        assert forall|k: int| 0 <= k < text@.len()
            implies ((#[trigger] text@[k]) as u32) < cache.records@.len() by {
            assert(glyphs@[k] == (text@[k] as u32));
        }
    }
    let t = Artifact::TextRun {
        name,
        position,
        depth,
        font_scale: font_size,
        glyphs,
        children: Vec::new(),
    };
    proof {
        assert(t.spec_children() =~= Seq::<Artifact>::empty());
        assert(wf_all(t.spec_children()));
        assert(codes_ok_all(t.spec_children(), cache.records@.len() as int));
    }
    Ok(t)
}

/// The number of draw calls a node's subtree issues: one per sprite plus one
/// per glyph of each text run.
pub open spec fn call_count(a: Artifact) -> nat
    decreases a,
{
    match a {
        Artifact::Group { children, .. } => call_count_all(children@),
        Artifact::Sprite { children, .. } => 1 + call_count_all(children@),
        Artifact::TextRun { glyphs, children, .. } => glyphs@.len() + call_count_all(children@),
    }
}

pub open spec fn call_count_all(s: Seq<Artifact>) -> nat
    decreases s,
{
    if s.len() == 0 {
        0
    } else {
        call_count(s[0]) + call_count_all(s.subrange(1, s.len() as int))
    }
}

pub proof fn lemma_text_calls_len(
    glyphs: Seq<u32>,
    cache: Seq<GlyphMetrics>,
    ox: int,
    oy: int,
    depth: int,
    scale: int,
)
    ensures
        spec_text_calls(glyphs, cache, ox, oy, depth, scale).len() == glyphs.len(),
    decreases glyphs.len(),
{
    if glyphs.len() > 0 {
        let g = cache[glyphs[0] as int];
        lemma_text_calls_len(
            glyphs.subrange(1, glyphs.len() as int),
            cache,
            ox + glyph_advance(g, scale),
            oy,
            depth,
            scale,
        );
    }
}

/// Law: a draw visits every node of the subtree exactly once, parent before
/// children and children in insertion order, and the total number of calls
/// it issues is the number of sprites plus the sum of the glyph counts of
/// the text runs.
pub proof fn lemma_draw_count(a: Artifact, cache: Seq<GlyphMetrics>, vw: int, vh: int)
    ensures
        spec_draw(a, cache, vw, vh).len() == call_count(a),
    decreases a,
{
    match a {
        Artifact::Group { children, .. } => {
            lemma_draw_count_all(children@, cache, vw, vh);
        },
        Artifact::Sprite { children, .. } => {
            lemma_draw_count_all(children@, cache, vw, vh);
        },
        Artifact::TextRun { position, depth, font_scale, glyphs, children, .. } => {
            lemma_text_calls_len(
                glyphs@,
                cache,
                resolve_coord(position.anchor.x as int, vw, position.position.x as int),
                resolve_coord(position.anchor.y as int, vh, position.position.y as int),
                depth as int,
                font_scale as int,
            );
            lemma_draw_count_all(children@, cache, vw, vh);
        },
    }
}

pub proof fn lemma_draw_count_all(s: Seq<Artifact>, cache: Seq<GlyphMetrics>, vw: int, vh: int)
    ensures
        spec_draw_seq(s, cache, vw, vh).len() == call_count_all(s),
    decreases s,
{
    if s.len() > 0 {
        lemma_draw_count(s[0], cache, vw, vh);
        lemma_draw_count_all(s.subrange(1, s.len() as int), cache, vw, vh);
    }
}

/// Law: drawing is idempotent. Two draws of the same tree against the same
/// cache and viewport issue structurally identical call sequences: the calls
/// are a function of those inputs alone, so unchanged inputs give the same
/// order and the same parameters both times.
pub proof fn lemma_draw_idempotent(
    first: Seq<CallModel>,
    second: Seq<CallModel>,
    a: Artifact,
    cache: Seq<GlyphMetrics>,
    vw: int,
    vh: int,
)
    requires
        first == spec_draw(a, cache, vw, vh),
        second == spec_draw(a, cache, vw, vh),
    ensures
        first == second,
{
}

} // verus!
