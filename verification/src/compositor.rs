use vstd::prelude::*;
use crate::artifact::{calls_model, codes_ok_all, draw_all, spec_draw_seq, wf_all, Artifact, DrawCall, DEPTH_ONE};
use crate::error::ContentError;
use crate::geom::Viewport;
use crate::glyph::GlyphCache;

verus! {

/// The fixed-function draw state every node is drawn with.
#[derive(Clone, Copy, Debug, PartialEq, Eq, Structural)]
pub struct DrawSettings {
    pub depth_test_less: bool,
    pub depth_write: bool,
    pub alpha_blending: bool,
}

/// The draw parameters shared by every draw call: "less" depth test with
/// depth write enabled, and standard alpha blending.
pub fn default_draw_params() -> (r: DrawSettings)
    ensures
        r == (DrawSettings { depth_test_less: true, depth_write: true, alpha_blending: true }),
{
    DrawSettings { depth_test_less: true, depth_write: true, alpha_blending: true }
}

/// A clear color, each channel in thousandths.
#[derive(Clone, Copy, Debug, PartialEq, Eq, Structural)]
pub struct ClearColor {
    pub red: u16,
    pub green: u16,
    pub blue: u16,
    pub alpha: u16,
}

/// Everything one frame submits to the target: the clear, the shared draw
/// settings, and the draw calls in order.
#[derive(Debug)]
pub struct FramePlan {
    pub clear_color: ClearColor,
    pub clear_depth: u16,
    pub settings: DrawSettings,
    pub calls: Vec<DrawCall>,
}

/// Composes one frame: clear to opaque black and the far depth, then the
/// calls of the artifacts in list order. The timing arguments are
/// informational only — no animation consumes them yet — but stay part of
/// the contract; the frame is a function of the tree, the cache and the
/// viewport alone. Fails exactly when some text run references an uncached
/// character code.
pub fn render_frame(
    artifacts: &Vec<Artifact>,
    cache: &GlyphCache,
    viewport: Viewport,
    _delta_millis: u64,
    _elapsed_millis: u64,
) -> (r: Result<FramePlan, ContentError>)
    requires
        wf_all(artifacts@),
        cache.wf(),
    ensures
        r.is_ok() <==> codes_ok_all(artifacts@, cache.records@.len() as int),
        (r matches Ok(f) ==> {
            &&& f.clear_color == (ClearColor { red: 0, green: 0, blue: 0, alpha: 1000 })
            &&& f.clear_depth == DEPTH_ONE
            &&& f.settings == (DrawSettings {
                depth_test_less: true,
                depth_write: true,
                alpha_blending: true,
            })
            &&& calls_model(f.calls@) == spec_draw_seq(
                artifacts@,
                cache.metrics_seq(),
                viewport.width as int,
                viewport.height as int,
            )
        }),
        (r matches Err(e) ==> e == ContentError::UncachedCharacter),
{
    let mut calls: Vec<DrawCall> = Vec::new();
    match draw_all(artifacts, cache, viewport, &mut calls) {
        Err(e) => Err(e),
        Ok(()) => Ok(FramePlan {
            clear_color: ClearColor { red: 0, green: 0, blue: 0, alpha: 1000 },
            clear_depth: DEPTH_ONE,
            settings: default_draw_params(),
            calls,
        }),
    }
}

/// The shared unit quad's corners, counter-clockwise from the top right.
pub fn quad_vertices() -> (r: Vec<(i8, i8)>)
    ensures
        r@ == seq![(1i8, 1i8), (1i8, -1i8), (-1i8, -1i8), (-1i8, 1i8)],
{
    let mut v: Vec<(i8, i8)> = Vec::new();
    v.push((1, 1));
    v.push((1, -1));
    v.push((-1, -1));
    v.push((-1, 1));
    proof {
        assert(v@ =~= seq![(1i8, 1i8), (1i8, -1i8), (-1i8, -1i8), (-1i8, 1i8)]);
    }
    v
}

/// The index list that splits the shared quad into two triangles.
pub fn quad_indices() -> (r: Vec<u32>)
    ensures
        r@ == seq![0u32, 1u32, 2u32, 0u32, 2u32, 3u32],
{
    let mut v: Vec<u32> = Vec::new();
    v.push(0);
    v.push(1);
    v.push(2);
    v.push(0);
    v.push(2);
    v.push(3);
    proof {
        assert(v@ =~= seq![0u32, 1u32, 2u32, 0u32, 2u32, 3u32]);
    }
    v
}

} // verus!
