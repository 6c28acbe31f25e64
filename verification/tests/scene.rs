use vnscene::artifact::{draw, Artifact, DrawCall, TexRef, DEPTH_ONE};
use vnscene::composite::visible_texture;
use vnscene::compositor::{default_draw_params, quad_indices, quad_vertices, render_frame, ClearColor};
use vnscene::driver::{DriverEvent, LoopControl, TickState, FRAME_INTERVAL_NANOS};
use vnscene::error::ContentError;
use vnscene::geom::{resolve, AnchorPoint, PixelVec, Position, Shape, Viewport};
use vnscene::glyph::{GlyphCache, GlyphMetrics, GlyphRecord};
use vnscene::texture::Texture;

fn anchor(x: u16, y: u16) -> AnchorPoint {
    AnchorPoint::new(x, y)
}

fn shape(bl_anchor: (u16, u16), tr_anchor: (u16, u16), bl_pos: (i32, i32), tr_pos: (i32, i32)) -> Shape {
    Shape::new(
        anchor(bl_anchor.0, bl_anchor.1),
        anchor(tr_anchor.0, tr_anchor.1),
        PixelVec { x: bl_pos.0, y: bl_pos.1 },
        PixelVec { x: tr_pos.0, y: tr_pos.1 },
    )
}

/// A synthetic glyph cache whose metrics vary by code, so layout tests can
/// tell glyphs apart.
fn make_cache(count: u32) -> GlyphCache {
    let mut records = Vec::new();
    for code in 0..count {
        let width = 10 + (code % 7);
        let height = 16u32;
        let pixels = vec![0u8; (4 * width * height) as usize];
        records.push(GlyphRecord {
            metrics: GlyphMetrics { width, height, offset: 2 },
            texture: Texture { width, height, pixels },
        });
    }
    GlyphCache { records }
}

fn full_screen() -> Shape {
    shape((0, 0), (1000, 1000), (0, 0), (0, 0))
}

fn bottom_pinned(height_px: i32) -> Shape {
    shape((0, 0), (1000, 0), (0, 0), (0, height_px))
}

const VIEWPORT: Viewport = Viewport { width: 1920, height: 1080 };

#[test]
fn resolve_reproduces_the_anchor_formula() {
    let s = shape((250, 500), (750, 900), (-10, 20), (5, -3));
    let r = resolve(&s, Viewport { width: 800, height: 600 });
    assert_eq!(r.bl_x, 250 * 800 + 1000 * -10);
    assert_eq!(r.bl_y, 500 * 600 + 1000 * 20);
    assert_eq!(r.tr_x, 750 * 800 + 1000 * 5);
    assert_eq!(r.tr_y, 900 * 600 + 1000 * -3);
    assert_eq!(r.bl_x, 190_000);
    assert_eq!(r.bl_y, 320_000);
}

#[test]
fn resolve_is_linear_in_the_viewport() {
    let s = shape((300, 700), (1000, 0), (13, -8), (0, 44));
    let v1 = Viewport { width: 640, height: 480 };
    let v2 = Viewport { width: 1280, height: 600 };
    let sum = Viewport { width: 1920, height: 1080 };
    let zero = Viewport { width: 0, height: 0 };
    let r1 = resolve(&s, v1);
    let r2 = resolve(&s, v2);
    let rs = resolve(&s, sum);
    let r0 = resolve(&s, zero);
    assert_eq!(rs.bl_x + r0.bl_x, r1.bl_x + r2.bl_x);
    assert_eq!(rs.bl_y + r0.bl_y, r1.bl_y + r2.bl_y);
    assert_eq!(rs.tr_x + r0.tr_x, r1.tr_x + r2.tr_x);
    assert_eq!(rs.tr_y + r0.tr_y, r1.tr_y + r2.tr_y);
}

#[test]
fn group_draws_nothing_itself() {
    let cache = make_cache(0);
    let root = Artifact::Group { name: "root".to_string(), children: vec![] };
    let calls = draw(&root, &cache, VIEWPORT, Vec::new()).unwrap();
    assert!(calls.is_empty());
}

#[test]
fn sprite_draws_itself_then_children() {
    let cache = make_cache(0);
    let child = Artifact::Sprite {
        name: "child".to_string(),
        shape: bottom_pinned(300),
        tex: 2,
        depth: 500,
        children: vec![],
    };
    let parent = Artifact::Sprite {
        name: "parent".to_string(),
        shape: full_screen(),
        tex: 1,
        depth: 0,
        children: vec![child],
    };
    let calls = draw(&parent, &cache, VIEWPORT, Vec::new()).unwrap();
    assert_eq!(calls.len(), 2);
    assert_eq!(calls[0].tex, TexRef::Image(1));
    assert_eq!(calls[0].depth, 0);
    assert_eq!(calls[0].rect.bl_x, 0);
    assert_eq!(calls[0].rect.tr_x, 1000 * 1920);
    assert_eq!(calls[0].rect.tr_y, 1000 * 1080);
    assert_eq!(calls[1].tex, TexRef::Image(2));
    assert_eq!(calls[1].rect.tr_y, 300_000);
}

#[test]
fn draw_call_count_is_sprites_plus_glyphs() {
    let cache = make_cache(128);
    let text = Artifact::TextRun {
        name: "text".to_string(),
        position: Position::new(anchor(0, 0), PixelVec { x: 40, y: 200 }),
        depth: 800,
        font_scale: 6,
        glyphs: vec![72, 101, 108],
        children: vec![],
    };
    let sprite = Artifact::Sprite {
        name: "panel".to_string(),
        shape: bottom_pinned(300),
        tex: 7,
        depth: 500,
        children: vec![text],
    };
    let root = Artifact::Group { name: "root".to_string(), children: vec![sprite] };
    let calls = draw(&root, &cache, VIEWPORT, Vec::new()).unwrap();
    assert_eq!(calls.len(), 1 + 3);
}

#[test]
fn draw_chains_onto_the_handed_target() {
    let cache = make_cache(0);
    let a = Artifact::Sprite {
        name: "a".to_string(),
        shape: full_screen(),
        tex: 1,
        depth: 0,
        children: vec![],
    };
    let b = Artifact::Sprite {
        name: "b".to_string(),
        shape: full_screen(),
        tex: 2,
        depth: 100,
        children: vec![],
    };
    let calls = draw(&a, &cache, VIEWPORT, Vec::new()).unwrap();
    let calls = draw(&b, &cache, VIEWPORT, calls).unwrap();
    assert_eq!(calls.len(), 2);
    assert_eq!(calls[0].tex, TexRef::Image(1));
    assert_eq!(calls[1].tex, TexRef::Image(2));
}

#[test]
fn draw_twice_issues_identical_call_sequences() {
    let cache = make_cache(128);
    let text = Artifact::TextRun {
        name: "text".to_string(),
        position: Position::new(anchor(0, 0), PixelVec { x: 40, y: 200 }),
        depth: 800,
        font_scale: 6,
        glyphs: vec![78, 111, 33],
        children: vec![],
    };
    let root = Artifact::Group {
        name: "root".to_string(),
        children: vec![
            Artifact::Sprite {
                name: "bg".to_string(),
                shape: full_screen(),
                tex: 1,
                depth: 0,
                children: vec![],
            },
            text,
        ],
    };
    let first = draw(&root, &cache, VIEWPORT, Vec::new()).unwrap();
    let second = draw(&root, &cache, VIEWPORT, Vec::new()).unwrap();
    assert_eq!(first, second);
}

#[test]
fn uncached_code_is_a_content_error() {
    let cache = make_cache(4);
    let text = Artifact::TextRun {
        name: "text".to_string(),
        position: Position::new(anchor(0, 0), PixelVec { x: 0, y: 0 }),
        depth: 800,
        font_scale: 6,
        glyphs: vec![1, 9],
        children: vec![],
    };
    let r = draw(&text, &cache, VIEWPORT, Vec::new());
    assert_eq!(r.unwrap_err(), ContentError::UncachedCharacter);
}

#[test]
fn nearer_sprite_wins_even_when_drawn_first() {
    let cache = make_cache(0);
    let root = Artifact::Group {
        name: "root".to_string(),
        children: vec![
            Artifact::Sprite {
                name: "near".to_string(),
                shape: full_screen(),
                tex: 1,
                depth: 0,
                children: vec![],
            },
            Artifact::Sprite {
                name: "far".to_string(),
                shape: full_screen(),
                tex: 2,
                depth: 500,
                children: vec![],
            },
        ],
    };
    let calls = draw(&root, &cache, VIEWPORT, Vec::new()).unwrap();
    assert_eq!(calls.len(), 2);
    let overlap = visible_texture(&calls, 100_000, 100_000);
    assert_eq!(overlap, Some(TexRef::Image(1)));
}

#[test]
fn call_at_the_clear_depth_fails_the_less_test() {
    let cache = make_cache(0);
    let sprite = Artifact::Sprite {
        name: "far-plane".to_string(),
        shape: full_screen(),
        tex: 1,
        depth: DEPTH_ONE,
        children: vec![],
    };
    let calls = draw(&sprite, &cache, VIEWPORT, Vec::new()).unwrap();
    assert_eq!(visible_texture(&calls, 5_000, 5_000), None);
}

#[test]
fn visible_texture_outside_every_quad_is_none() {
    let calls: Vec<DrawCall> = Vec::new();
    assert_eq!(visible_texture(&calls, 0, 0), None);
}

#[test]
fn end_to_end_scene_issues_seven_calls_in_order() {
    let cache = make_cache(128);
    let background = Artifact::Sprite {
        name: "background".to_string(),
        shape: full_screen(),
        tex: 1,
        depth: 0,
        children: vec![],
    };
    let textbox = Artifact::Sprite {
        name: "textbox".to_string(),
        shape: bottom_pinned(300),
        tex: 2,
        depth: 500,
        children: vec![],
    };
    // "Hello": codes 72, 101, 108, 108, 111.
    let text = Artifact::TextRun {
        name: "text".to_string(),
        position: Position::new(anchor(0, 0), PixelVec { x: 40, y: 200 }),
        depth: 800,
        font_scale: 6,
        glyphs: vec![72, 101, 108, 108, 111],
        children: vec![],
    };
    let mut root = Artifact::Group {
        name: "root".to_string(),
        children: vec![background, textbox],
    };
    root.add_child(text);
    assert_eq!(root.name().as_str(), "root");
    assert_eq!(root.children().len(), 3);

    let plan = render_frame(&vec![root], &cache, VIEWPORT, 16, 32).unwrap();
    assert_eq!(plan.clear_depth, DEPTH_ONE);
    assert_eq!(plan.clear_color, ClearColor { red: 0, green: 0, blue: 0, alpha: 1000 });
    assert_eq!(plan.settings, default_draw_params());
    let calls = &plan.calls;
    assert_eq!(calls.len(), 7);
    assert_eq!(calls[0].tex, TexRef::Image(1));
    assert_eq!(calls[1].tex, TexRef::Image(2));
    for (k, code) in [72u32, 101, 108, 108, 111].iter().enumerate() {
        assert_eq!(calls[2 + k].tex, TexRef::Glyph(*code));
        assert_eq!(calls[2 + k].depth, 800);
    }

    // The fifth glyph starts at the origin plus the first four advances:
    // each advance is the scaled width plus the fixed gap.
    let origin_x = 1000 * 40;
    let mut advance = 0i64;
    for code in [72u32, 101, 108, 108] {
        let width = (10 + (code % 7)) as i64;
        advance += width * 6 * 10 + 5 * 1000;
    }
    assert_eq!(calls[6].rect.bl_x, origin_x + advance);
    assert_eq!(calls[6].rect.bl_x, 63_060);

    // A glyph's quad is the scaled metrics placed below the baseline offset.
    let oy = 1000 * 200;
    let w0 = (10 + (72 % 7)) as i64;
    assert_eq!(calls[2].rect.bl_x, origin_x);
    assert_eq!(calls[2].rect.bl_y, oy - 2 * 6 * 10);
    assert_eq!(calls[2].rect.tr_x, origin_x + w0 * 6 * 10);
    assert_eq!(calls[2].rect.tr_y, oy + 16 * 6 * 10 - 2 * 6 * 10);
}

#[test]
fn render_frame_is_independent_of_the_timing_arguments() {
    let cache = make_cache(0);
    let root = Artifact::Group { name: "root".to_string(), children: vec![] };
    let a = render_frame(&vec![root], &cache, VIEWPORT, 0, 0).unwrap();
    let cache2 = make_cache(0);
    let root2 = Artifact::Group { name: "root".to_string(), children: vec![] };
    let b = render_frame(&vec![root2], &cache2, VIEWPORT, 999, 123_456).unwrap();
    assert_eq!(a.calls, b.calls);
    assert_eq!(a.clear_depth, b.clear_depth);
}

#[test]
fn quad_geometry_is_the_shared_unit_quad() {
    assert_eq!(quad_vertices(), vec![(1, 1), (1, -1), (-1, -1), (-1, 1)]);
    assert_eq!(quad_indices(), vec![0, 1, 2, 0, 2, 3]);
}

#[test]
fn tick_renders_then_schedules_the_next_frame() {
    let mut state = TickState::new(100);
    let out = state.tick(150, DriverEvent::Other);
    assert_eq!(out.delta_nanos, 50);
    assert_eq!(out.elapsed_nanos, 50);
    assert_eq!(out.control, LoopControl::WaitUntil(150 + FRAME_INTERVAL_NANOS));
    let out = state.tick(220, DriverEvent::OtherWindowEvent);
    assert_eq!(out.delta_nanos, 70);
    assert_eq!(out.elapsed_nanos, 120);
    assert_eq!(out.control, LoopControl::WaitUntil(220 + FRAME_INTERVAL_NANOS));
}

#[test]
fn tick_exits_on_a_close_request() {
    let mut state = TickState::new(0);
    let out = state.tick(40, DriverEvent::CloseRequested);
    assert_eq!(out.delta_nanos, 40);
    assert_eq!(out.elapsed_nanos, 40);
    assert_eq!(out.control, LoopControl::Exit);
}
