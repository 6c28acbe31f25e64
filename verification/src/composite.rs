use vstd::prelude::*;
use crate::artifact::{calls_model, CallModel, DrawCall, TexRef, DEPTH_ONE};

verus! {

/// Whether a call's quad covers the point `(x, y)`, in subpixel coordinates.
/// An inverted rectangle draws mirrored geometry, so coverage lies between
/// the lesser and the greater of each coordinate pair.
pub open spec fn covers(c: CallModel, x: int, y: int) -> bool {
    let lo_x = if c.rect.bl_x <= c.rect.tr_x { c.rect.bl_x } else { c.rect.tr_x };
    let hi_x = if c.rect.bl_x <= c.rect.tr_x { c.rect.tr_x } else { c.rect.bl_x };
    let lo_y = if c.rect.bl_y <= c.rect.tr_y { c.rect.bl_y } else { c.rect.tr_y };
    let hi_y = if c.rect.bl_y <= c.rect.tr_y { c.rect.tr_y } else { c.rect.bl_y };
    lo_x <= x < hi_x && lo_y <= y < hi_y
}

/// One pixel of the target: the depth-buffer value and which texture's
/// fragment is visible there, if any.
pub struct PixelModel {
    pub depth: int,
    pub tex: Option<TexRef>,
}

/// The pixel state of a cleared target: the far depth, nothing visible.
pub open spec fn cleared_pixel() -> PixelModel {
    PixelModel { depth: DEPTH_ONE as int, tex: None }
}

/// One pixel under the "less" depth test with depth write: a call writes the
/// pixel exactly when it covers it and carries a strictly smaller depth than
/// the buffer. Call order is never changed; only this test decides
/// visibility.
pub open spec fn composite_at(calls: Seq<CallModel>, x: int, y: int, st: PixelModel) -> PixelModel
    decreases calls.len(),
{
    if calls.len() == 0 {
        st
    } else {
        let c = calls[0];
        let st2 = if covers(c, x, y) && c.depth < st.depth {
            PixelModel { depth: c.depth, tex: Some(c.tex) }
        } else {
            st
        };
        composite_at(calls.subrange(1, calls.len() as int), x, y, st2)
    }
}

/// Which texture is visible at `(x, y)` after the calls run, in order,
/// against a cleared target.
pub fn visible_texture(calls: &Vec<DrawCall>, x: i64, y: i64) -> (r: Option<TexRef>)
    ensures
        r == composite_at(calls_model(calls@), x as int, y as int, cleared_pixel()).tex,
{
    let ghost cm = calls_model(calls@);
    proof {
        assert(cm.subrange(0, cm.len() as int) =~= cm);
    }
    let mut depth: u16 = DEPTH_ONE;
    let mut tex: Option<TexRef> = None;
    let mut i: usize = 0;
    while i < calls.len()
        invariant
            cm == calls_model(calls@),
            i <= calls@.len(),
            composite_at(cm, x as int, y as int, cleared_pixel()) == composite_at(
                cm.subrange(i as int, cm.len() as int),
                x as int,
                y as int,
                PixelModel { depth: depth as int, tex },
            ),
        decreases calls@.len() - i,
    {
        let c = calls[i];
        let lo_x = if c.rect.bl_x <= c.rect.tr_x { c.rect.bl_x } else { c.rect.tr_x };
        let hi_x = if c.rect.bl_x <= c.rect.tr_x { c.rect.tr_x } else { c.rect.bl_x };
        let lo_y = if c.rect.bl_y <= c.rect.tr_y { c.rect.bl_y } else { c.rect.tr_y };
        let hi_y = if c.rect.bl_y <= c.rect.tr_y { c.rect.tr_y } else { c.rect.bl_y };
        let is_covered = lo_x <= x && x < hi_x && lo_y <= y && y < hi_y;
        proof {
            let rest = cm.subrange(i as int, cm.len() as int);
            assert(rest[0] == cm[i as int]);
            assert(cm[i as int] == calls@[i as int]@);
            assert(is_covered == covers(cm[i as int], x as int, y as int));
            assert(rest.subrange(1, rest.len() as int)
                =~= cm.subrange(i as int + 1, cm.len() as int));
        }
        if is_covered && c.depth < depth {
            depth = c.depth;
            tex = Some(c.tex);
        }
        i += 1;
    }
    proof {
        assert(cm.subrange(cm.len() as int, cm.len() as int) =~= Seq::<CallModel>::empty());
    }
    tex
}

/// If every covering call's depth is at least the buffer depth, nothing
/// passes the "less" test and the pixel is unchanged.
proof fn lemma_no_call_wins(calls: Seq<CallModel>, x: int, y: int, st: PixelModel)
    requires
        forall|j: int| 0 <= j < calls.len() && covers(#[trigger] calls[j], x, y)
            ==> calls[j].depth >= st.depth,
    ensures
        composite_at(calls, x, y, st) == st,
    decreases calls.len(),
{
    if calls.len() > 0 {
        let rest = calls.subrange(1, calls.len() as int);
        assert forall|j: int| 0 <= j < rest.len() && covers(#[trigger] rest[j], x, y)
            implies rest[j].depth >= st.depth by {
            assert(rest[j] == calls[j + 1]);
        }
        lemma_no_call_wins(rest, x, y, st);
    }
}

proof fn lemma_nearest_call_wins_from(calls: Seq<CallModel>, x: int, y: int, i: int, st: PixelModel)
    requires
        0 <= i < calls.len(),
        covers(calls[i], x, y),
        calls[i].depth < st.depth,
        forall|j: int| 0 <= j < calls.len() && j != i && covers(#[trigger] calls[j], x, y)
            ==> calls[j].depth > calls[i].depth,
    ensures
        composite_at(calls, x, y, st) == (PixelModel {
            depth: calls[i].depth,
            tex: Some(calls[i].tex),
        }),
    decreases calls.len(),
{
    let rest = calls.subrange(1, calls.len() as int);
    if i == 0 {
        let st2 = PixelModel { depth: calls[0].depth, tex: Some(calls[0].tex) };
        assert forall|j: int| 0 <= j < rest.len() && covers(#[trigger] rest[j], x, y)
            implies rest[j].depth >= st2.depth by {
            assert(rest[j] == calls[j + 1]);
        }
        lemma_no_call_wins(rest, x, y, st2);
    } else {
        let c = calls[0];
        let st2 = if covers(c, x, y) && c.depth < st.depth {
            PixelModel { depth: c.depth, tex: Some(c.tex) }
        } else {
            st
        };
        assert(rest[i - 1] == calls[i]);
        assert forall|j: int| 0 <= j < rest.len() && j != i - 1 && covers(#[trigger] rest[j], x, y)
            implies rest[j].depth > rest[i - 1].depth by {
            assert(rest[j] == calls[j + 1]);
        }
        lemma_nearest_call_wins_from(rest, x, y, i - 1, st2);
    }
}

/// Law: depth ordering. If one call covers the pixel with a depth below the
/// clear depth, and every other call covering the pixel has a strictly
/// greater depth, then that call's texture is the one visible — even when it
/// was drawn first and others were drawn after it.
pub proof fn lemma_nearest_call_wins(calls: Seq<CallModel>, x: int, y: int, i: int)
    requires
        0 <= i < calls.len(),
        covers(calls[i], x, y),
        calls[i].depth < DEPTH_ONE as int,
        forall|j: int| 0 <= j < calls.len() && j != i && covers(#[trigger] calls[j], x, y)
            ==> calls[j].depth > calls[i].depth,
    ensures
        composite_at(calls, x, y, cleared_pixel()).tex == Some(calls[i].tex),
{
    lemma_nearest_call_wins_from(calls, x, y, i, cleared_pixel());
}

} // verus!
