//! The region overlay and editor, frame by frame.

use screenshot_dai::geometry::{self, Pos2, Rect};
use screenshot_dai::picture::{Rgba, RgbaImage};
use screenshot_dai::raster::Barbs;
use screenshot_dai::ui::region_overlay::{
    CropPx, EditorOutcome, FrameInput, Phase, RegionSession, Selection, Snap, Stroke, Tool,
    ToolbarAction, ACTIVE_WIDTH_DEFAULT, MIN_DRAG, UNDO_CAP,
};

const BLUE: Rgba = Rgba { r: 0x26, g: 0x8b, b: 0xd2, a: 255 };
const RED: Rgba = Rgba { r: 220, g: 0, b: 0, a: 255 };
const GRAY: Rgba = Rgba { r: 90, g: 90, b: 90, a: 255 };

/// The rank of a logical coordinate.
fn rank(v: f32) -> i32 {
    geometry::rank(v.to_bits())
}

fn at(x: f32, y: f32) -> Pos2 {
    Pos2 { x: rank(x), y: rank(y) }
}

fn idle() -> FrameInput {
    FrameInput {
        esc: false,
        close_requested: false,
        enter: false,
        primary_down: false,
        released: false,
        latest: None,
        canvas_clicked: false,
        canvas_down: false,
        canvas_released: false,
        action: None,
        selection: None,
        snap: None,
        stroke: None,
        pencil_gap: 0,
        pencil_px: vec![],
        width_px: 2,
    }
}

fn click(action: ToolbarAction) -> FrameInput {
    FrameInput { action: Some(action), ..idle() }
}

fn esc() -> FrameInput {
    FrameInput { esc: true, ..idle() }
}

fn measured(w: f32, h: f32, px: CropPx) -> Option<Selection> {
    Some(Selection { extent_x: rank(w), extent_y: rank(h), px })
}

fn screenshot() -> RgbaImage {
    let mut img = RgbaImage::new(60, 40);
    for y in 0..40 {
        for x in 0..60 {
            img.put_pixel(x, y, Rgba { r: x as u8, g: y as u8, b: 1, a: 255 });
        }
    }
    img
}

fn selecting() -> RegionSession {
    RegionSession::new(screenshot())
}

/// A session that edits the part of the screenshot from (10, 10) to (40, 30).
fn editing() -> RegionSession {
    let mut s = selecting();
    s.apply_input(&FrameInput { primary_down: true, latest: Some(at(10.0, 10.0)), ..idle() });
    s.apply_input(&FrameInput { primary_down: true, latest: Some(at(40.0, 30.0)), ..idle() });
    let px = CropPx { x: 10, y: 10, w: 30, h: 20 };
    s.apply_input(&FrameInput {
        released: true,
        latest: Some(at(40.0, 30.0)),
        selection: measured(30.0, 20.0, px),
        ..idle()
    });
    assert_eq!(s.phase, Phase::Edit);
    s
}

fn stroke(ax: i32, ay: i32, bx: i32, by: i32) -> Stroke {
    Stroke {
        extent_x: rank((bx - ax).abs() as f32),
        extent_y: rank((by - ay).abs() as f32),
        ax,
        ay,
        bx,
        by,
        barbs: Barbs { ax: bx - 3, ay: by, bx, by: by - 3 },
        width_px: 1,
        block_px: 4,
    }
}

/// Drag the active tool over the document and let go.
fn drag(s: &mut RegionSession, m: Stroke) -> Option<screenshot_dai::ui::region_overlay::BlurJob> {
    let from = at((m.ax + 10) as f32, (m.ay + 10) as f32);
    let to = at((m.bx + 10) as f32, (m.by + 10) as f32);
    s.apply_input(&FrameInput { canvas_down: true, latest: Some(from), ..idle() });
    s.apply_input(&FrameInput { canvas_down: true, latest: Some(to), ..idle() });
    s.apply_input(&FrameInput { canvas_released: true, stroke: Some(m), ..idle() })
}

fn doc(s: &RegionSession) -> RgbaImage {
    s.doc.clone().unwrap()
}

#[test]
fn session_starts_selecting() {
    let s = selecting();
    assert_eq!(s.phase, Phase::Select);
    assert_eq!(s.active_tool, Tool::NoTool);
    assert_eq!(s.active_color, BLUE);
    assert_eq!(s.active_width, ACTIVE_WIDTH_DEFAULT);
    assert_eq!(ACTIVE_WIDTH_DEFAULT, 2);
    assert_eq!(s.origin_physical, (0, 0));
    assert!(s.doc.is_none() && s.undo_stack.is_empty() && !s.finished && s.result.is_none());
}

#[test]
fn releasing_a_drag_opens_the_editor() {
    let s = editing();
    let d = doc(&s);
    assert_eq!((d.width(), d.height()), (30, 20));
    assert_eq!(d.get_pixel(0, 0), Rgba { r: 10, g: 10, b: 1, a: 255 });
    assert_eq!(s.doc_rect, Some(Rect { min: at(10.0, 10.0), max: at(40.0, 30.0) }));
    assert!(s.doc_stale);
    assert!(s.drag_start.is_none() && s.drag_cur.is_none());
}

#[test]
fn selection_spans_the_drag() {
    let mut s = selecting();
    assert!(s.current_rect().is_none());
    s.apply_input(&FrameInput { primary_down: true, latest: Some(at(30.0, 5.0)), ..idle() });
    s.apply_input(&FrameInput { primary_down: true, latest: Some(at(10.0, 25.0)), ..idle() });
    assert_eq!(s.current_rect(), Some(Rect { min: at(10.0, 5.0), max: at(30.0, 25.0) }));
    assert_eq!(s.preview_rect(), s.current_rect());
}

#[test]
fn small_drag_is_ignored() {
    assert_eq!(MIN_DRAG, rank(4.0));
    let mut s = selecting();
    s.apply_input(&FrameInput { primary_down: true, latest: Some(at(10.0, 10.0)), ..idle() });
    let px = CropPx { x: 10, y: 10, w: 4, h: 20 };
    s.apply_input(&FrameInput {
        released: true,
        selection: measured(4.0, 20.0, px),
        ..idle()
    });
    assert_eq!(s.phase, Phase::Select);
    assert!(s.current_rect().is_none());
    // A little more is a drag.
    s.apply_input(&FrameInput { primary_down: true, latest: Some(at(10.0, 10.0)), ..idle() });
    s.apply_input(&FrameInput {
        released: true,
        selection: measured(4.001, 20.0, px),
        ..idle()
    });
    assert_eq!(s.phase, Phase::Edit);
}

#[test]
fn drag_of_no_known_size_is_ignored() {
    let px = CropPx { x: 10, y: 10, w: 20, h: 20 };
    for (w, h) in [(f32::NAN, 20.0), (20.0, f32::NAN), (f32::NAN, f32::NAN)] {
        let mut s = selecting();
        s.apply_input(&FrameInput { primary_down: true, latest: Some(at(10.0, 10.0)), ..idle() });
        s.apply_input(&FrameInput { enter: true, selection: measured(w, h, px), ..idle() });
        assert_eq!(s.phase, Phase::Select);
        s.apply_input(&FrameInput { primary_down: true, latest: Some(at(10.0, 10.0)), ..idle() });
        s.apply_input(&FrameInput { released: true, selection: measured(w, h, px), ..idle() });
        assert_eq!(s.phase, Phase::Select);
        let mut s = editing();
        let before = doc(&s);
        s.apply_input(&click(ToolbarAction::ToggleRect));
        drag(&mut s, Stroke { extent_x: rank(w), extent_y: rank(h), ..stroke(2, 2, 20, 15) });
        assert_eq!(doc(&s), before);
        s.apply_input(&click(ToolbarAction::ToggleBlur));
        let m = Stroke { extent_x: rank(w), extent_y: rank(h), ..stroke(2, 2, 20, 15) };
        assert!(drag(&mut s, m).is_none());
    }
    let mut s = selecting();
    s.apply_input(&FrameInput { primary_down: true, latest: Some(at(10.0, 10.0)), ..idle() });
    let selection = measured(f32::INFINITY, 20.0, px);
    s.apply_input(&FrameInput { released: true, selection, ..idle() });
    assert_eq!(s.phase, Phase::Edit);
}

#[test]
fn pencil_ignores_an_unknown_gap() {
    let mut s = editing();
    s.apply_input(&click(ToolbarAction::TogglePencil));
    for gap in [0.0, f32::NAN, -f32::NAN] {
        s.apply_input(&FrameInput {
            canvas_down: true,
            latest: Some(at(15.0, 15.0)),
            pencil_gap: rank(gap),
            ..idle()
        });
        assert_eq!(s.pencil_points.len(), 1);
    }
    // A place that is none is not on the document.
    let lost = Some(at(f32::NAN, 15.0));
    s.apply_input(&FrameInput { canvas_down: true, latest: lost, pencil_gap: rank(9.0), ..idle() });
    assert_eq!(s.pencil_points.len(), 1);
}

#[test]
fn click_snaps_to_the_window() {
    let mut s = selecting();
    let rect = Rect { min: at(5.0, 6.0), max: at(25.0, 16.0) };
    let px = CropPx { x: 5, y: 6, w: 20, h: 10 };
    s.apply_input(&FrameInput {
        released: true,
        latest: Some(at(7.0, 7.0)),
        snap: Some(Snap { rect, px }),
        ..idle()
    });
    assert_eq!(s.phase, Phase::Edit);
    assert_eq!(s.doc_rect, Some(rect));
    assert_eq!(doc(&s).width(), 20);
}

#[test]
fn window_over_the_edge_gives_its_visible_part() {
    let mut s = selecting();
    let rect = Rect { min: at(0.0, 6.0), max: at(15.0, 16.0) };
    let px = CropPx { x: -5, y: 6, w: 20, h: 10 };
    s.apply_input(&FrameInput { released: true, snap: Some(Snap { rect, px }), ..idle() });
    let d = doc(&s);
    assert_eq!((d.width(), d.height()), (15, 10));
    assert_eq!(d.get_pixel(0, 0), Rgba { r: 0, g: 6, b: 1, a: 255 });
    assert_eq!(d.get_pixel(14, 9), Rgba { r: 14, g: 15, b: 1, a: 255 });
    // One that ends where the screen begins gives nothing.
    let mut s = selecting();
    let px = CropPx { x: -20, y: 6, w: 20, h: 10 };
    s.apply_input(&FrameInput { released: true, snap: Some(Snap { rect, px }), ..idle() });
    assert_eq!(s.phase, Phase::Select);
}

#[test]
fn enter_confirms_a_real_selection() {
    let px = CropPx { x: 1, y: 1, w: 8, h: 8 };
    let mut s = selecting();
    s.apply_input(&FrameInput { primary_down: true, latest: Some(at(1.0, 1.0)), ..idle() });
    s.apply_input(&FrameInput { enter: true, selection: measured(8.0, 8.0, px), ..idle() });
    assert_eq!(s.phase, Phase::Edit);
    let mut s = selecting();
    s.apply_input(&FrameInput { primary_down: true, latest: Some(at(1.0, 1.0)), ..idle() });
    s.apply_input(&FrameInput { enter: true, selection: measured(1.0, 8.0, px), ..idle() });
    assert_eq!(s.phase, Phase::Select);
    assert!(s.drag_start.is_none());
}

#[test]
fn empty_crop_stays_in_selection() {
    let mut s = selecting();
    s.apply_input(&FrameInput { primary_down: true, latest: Some(at(70.0, 10.0)), ..idle() });
    let px = CropPx { x: 70, y: 10, w: 8, h: 8 };
    s.apply_input(&FrameInput { released: true, selection: measured(8.0, 8.0, px), ..idle() });
    assert_eq!(s.phase, Phase::Select);
    assert!(s.drag_start.is_none());
}

#[test]
fn hover_is_remembered_while_nothing_is_dragged() {
    let under = Rect { min: at(0.0, 0.0), max: at(9.0, 9.0) };
    let mut s = selecting();
    s.update_hover(Some(under));
    assert_eq!(s.hover_rect, Some(under));
    assert_eq!(s.preview_rect(), Some(under));
    s.apply_input(&FrameInput { primary_down: true, latest: Some(at(1.0, 1.0)), ..idle() });
    s.update_hover(Some(under));
    assert!(s.hover_rect.is_none());
    let mut s = editing();
    s.update_hover(Some(under));
    assert!(s.hover_rect.is_none());
}

#[test]
fn escape_while_selecting_cancels() {
    let mut s = selecting();
    s.apply_input(&esc());
    assert!(s.finished);
    assert!(matches!(s.result, Some(EditorOutcome::Cancel)));
}

#[test]
fn first_escape_cancels_the_tool_second_the_session() {
    let mut s = editing();
    s.apply_input(&click(ToolbarAction::ToggleRect));
    s.apply_input(&FrameInput { canvas_down: true, latest: Some(at(15.0, 15.0)), ..idle() });
    assert!(s.tool_drag_start.is_some());
    s.apply_input(&esc());
    assert!(!s.finished && s.tool_drag_start.is_none());
    assert_eq!(s.active_tool, Tool::Rect);
    s.apply_input(&esc());
    assert!(matches!(s.result, Some(EditorOutcome::Cancel)));
}

#[test]
fn close_request_cancels_at_once() {
    let mut s = editing();
    s.apply_input(&click(ToolbarAction::TogglePencil));
    s.apply_input(&FrameInput { canvas_down: true, latest: Some(at(15.0, 15.0)), ..idle() });
    s.apply_input(&FrameInput { close_requested: true, ..idle() });
    assert!(matches!(s.result, Some(EditorOutcome::Cancel)));
}

#[test]
fn finished_session_takes_no_input() {
    let mut s = editing();
    s.apply_input(&click(ToolbarAction::Pin));
    assert!(matches!(&s.result, Some(EditorOutcome::Pin(img)) if *img == doc(&s)));
    s.apply_input(&click(ToolbarAction::Cancel));
    assert!(matches!(s.result, Some(EditorOutcome::Pin(_))));
    s.apply_input(&esc());
    assert!(matches!(s.result, Some(EditorOutcome::Pin(_))));
}

#[test]
fn outcome_holds_the_edited_document() {
    let mut s = editing();
    s.apply_input(&click(ToolbarAction::ToggleRect));
    drag(&mut s, stroke(2, 2, 20, 15));
    let edited = doc(&s);
    s.apply_input(&click(ToolbarAction::Save));
    assert!(matches!(&s.result, Some(EditorOutcome::Save(img)) if *img == edited));
    let mut s = editing();
    s.apply_input(&click(ToolbarAction::Copy));
    assert!(matches!(&s.result, Some(EditorOutcome::Copy(img)) if *img == doc(&s)));
    let mut s = editing();
    s.apply_input(&click(ToolbarAction::Cancel));
    assert!(matches!(s.result, Some(EditorOutcome::Cancel)));
}

#[test]
fn toggling_a_tool_twice_turns_it_off() {
    let cases = [
        (ToolbarAction::ToggleRect, Tool::Rect),
        (ToolbarAction::ToggleArrow, Tool::Arrow),
        (ToolbarAction::TogglePencil, Tool::Pencil),
        (ToolbarAction::ToggleText, Tool::Text),
        (ToolbarAction::ToggleBlur, Tool::Blur),
        (ToolbarAction::ToggleMosaic, Tool::Mosaic),
    ];
    let mut s = editing();
    for (action, tool) in cases {
        s.apply_input(&click(action));
        assert_eq!(s.active_tool, tool);
    }
    for (action, tool) in cases {
        s.apply_input(&click(action));
        assert_eq!(s.active_tool, tool);
        s.apply_input(&click(action));
        assert_eq!(s.active_tool, Tool::NoTool);
    }
}

#[test]
fn rect_is_drawn_and_undone() {
    let mut s = editing();
    let before = doc(&s);
    s.apply_input(&click(ToolbarAction::SetColor(RED)));
    s.apply_input(&click(ToolbarAction::ToggleRect));
    drag(&mut s, stroke(2, 2, 20, 15));
    let d = doc(&s);
    assert_eq!(d.get_pixel(2, 2), RED);
    assert_eq!(d.get_pixel(19, 14), RED);
    assert_eq!(d.get_pixel(3, 3), before.get_pixel(3, 3));
    assert_eq!(s.undo_stack.len(), 1);
    assert!(s.tool_drag_start.is_none() && s.tool_drag_cur.is_none());
    s.doc_uploaded();
    assert!(!s.doc_stale);
    s.apply_input(&click(ToolbarAction::Undo));
    assert_eq!(doc(&s), before);
    assert!(s.doc_stale && s.undo_stack.is_empty());
    // Nothing more to undo.
    s.apply_input(&click(ToolbarAction::Undo));
    assert_eq!(doc(&s), before);
}

#[test]
fn arrow_is_drawn() {
    let mut s = editing();
    s.apply_input(&click(ToolbarAction::ToggleArrow));
    drag(&mut s, stroke(3, 3, 20, 15));
    let d = doc(&s);
    assert_eq!(d.get_pixel(3, 3), BLUE);
    assert_eq!(d.get_pixel(20, 15), BLUE);
    assert_eq!(d.get_pixel(17, 15), BLUE);
    assert_eq!(d.get_pixel(20, 12), BLUE);
}

#[test]
fn mosaic_ignores_color_and_width() {
    let mut a = editing();
    a.apply_input(&click(ToolbarAction::ToggleMosaic));
    drag(&mut a, stroke(2, 2, 18, 14));
    let mut b = editing();
    b.apply_input(&click(ToolbarAction::SetColor(RED)));
    b.apply_input(&click(ToolbarAction::SetWidth(4)));
    b.apply_input(&click(ToolbarAction::ToggleMosaic));
    drag(&mut b, stroke(2, 2, 18, 14));
    assert_eq!(doc(&a), doc(&b));
    assert_ne!(doc(&a), doc(&editing()));
    assert_eq!(a.undo_stack.len(), 1);
}

#[test]
fn blur_is_handed_out_and_taken_back() {
    let mut s = editing();
    let before = doc(&s);
    s.apply_input(&click(ToolbarAction::ToggleBlur));
    let job = drag(&mut s, stroke(2, 2, 18, 14)).unwrap();
    assert_eq!((job.x0, job.y0, job.x1, job.y1), (2, 2, 18, 14));
    assert_eq!(doc(&s), before);
    let part = s.blur_pixels(&job).unwrap();
    assert_eq!((part.width(), part.height()), (16, 12));
    assert_eq!(part.get_pixel(0, 0), before.get_pixel(2, 2));
    let mut soft = RgbaImage::new(16, 12);
    for y in 0..12 {
        for x in 0..16 {
            soft.put_pixel(x, y, GRAY);
        }
    }
    s.finish_blur(&job, &soft);
    assert_eq!(doc(&s).get_pixel(2, 2), GRAY);
    assert_eq!(doc(&s).get_pixel(1, 1), before.get_pixel(1, 1));
    s.undo();
    assert_eq!(doc(&s), before);
}

#[test]
fn effect_on_a_sliver_is_ignored() {
    let mut s = editing();
    let before = doc(&s);
    s.apply_input(&click(ToolbarAction::ToggleBlur));
    // Off the document but for one column.
    assert!(drag(&mut s, Stroke { ax: 29, ay: 2, bx: 60, by: 14, ..stroke(9, 2, 18, 14) }).is_none());
    s.apply_input(&click(ToolbarAction::ToggleMosaic));
    drag(&mut s, Stroke { ax: 29, ay: 2, bx: 60, by: 14, ..stroke(9, 2, 18, 14) });
    assert_eq!(doc(&s), before);
    assert!(s.undo_stack.is_empty());
}

#[test]
fn short_tool_drag_is_ignored() {
    let mut s = editing();
    let before = doc(&s);
    s.apply_input(&click(ToolbarAction::ToggleRect));
    drag(&mut s, stroke(2, 2, 6, 15));
    assert_eq!(doc(&s), before);
    assert!(s.tool_drag_start.is_none() && s.undo_stack.is_empty());
}

#[test]
fn pencil_collects_spaced_points() {
    let mut s = editing();
    s.apply_input(&click(ToolbarAction::TogglePencil));
    let down = |x: f32, gap: f32| FrameInput {
        canvas_down: true,
        latest: Some(at(x, 15.0)),
        pencil_gap: rank(gap),
        ..idle()
    };
    s.apply_input(&down(12.0, 0.0));
    s.apply_input(&down(12.5, 0.5));
    s.apply_input(&down(13.0, 1.0));
    s.apply_input(&down(16.0, 4.0));
    assert_eq!(s.pencil_points, vec![at(12.0, 15.0), at(16.0, 15.0)]);
    s.apply_input(&FrameInput {
        canvas_released: true,
        pencil_px: vec![(2, 5), (6, 5)],
        width_px: 0,
        ..idle()
    });
    assert!(s.pencil_points.is_empty());
    assert_eq!(doc(&s).get_pixel(4, 5), BLUE);
    assert_eq!(doc(&s).get_pixel(4, 6), BLUE);
    assert_ne!(doc(&s).get_pixel(4, 7), BLUE);
    assert_eq!(s.undo_stack.len(), 1);
}

#[test]
fn pencil_tap_draws_nothing() {
    let mut s = editing();
    let before = doc(&s);
    s.apply_input(&click(ToolbarAction::TogglePencil));
    s.apply_input(&FrameInput { canvas_down: true, latest: Some(at(15.0, 15.0)), ..idle() });
    s.apply_input(&FrameInput { canvas_released: true, pencil_px: vec![(5, 5)], ..idle() });
    assert_eq!(doc(&s), before);
    assert!(s.pencil_points.is_empty() && s.undo_stack.is_empty());
}

#[test]
fn tools_only_work_on_the_document() {
    let mut s = editing();
    s.apply_input(&click(ToolbarAction::ToggleRect));
    s.apply_input(&FrameInput { canvas_down: true, latest: Some(at(5.0, 15.0)), ..idle() });
    assert!(s.tool_drag_start.is_none());
    s.apply_input(&click(ToolbarAction::ToggleText));
    s.apply_input(&FrameInput { canvas_clicked: true, latest: Some(at(15.0, 35.0)), ..idle() });
    assert!(!s.text_editing);
}

fn writing() -> RegionSession {
    let mut s = editing();
    s.apply_input(&click(ToolbarAction::ToggleText));
    s.apply_input(&FrameInput { canvas_clicked: true, latest: Some(at(15.0, 15.0)), ..idle() });
    assert!(s.text_editing && s.text_wants_focus);
    assert_eq!(s.text_anchor, Some(at(15.0, 15.0)));
    s
}

#[test]
fn text_is_trimmed_and_handed_out() {
    let mut s = writing();
    assert!(s.text_frame("  Hi".to_string(), false, false, false).is_none());
    assert_eq!(s.text_buf, "  Hi");
    assert!(!s.text_wants_focus);
    let job = s.text_frame("  Hi there\u{3000}".to_string(), false, true, false).unwrap();
    assert_eq!(job.text, "Hi there");
    assert_eq!(job.anchor, at(15.0, 15.0));
    assert_eq!(job.color, BLUE);
    assert!(!s.text_editing && s.text_anchor.is_none() && s.text_buf.is_empty());
    // The drawn document is committed like any other.
    let mut drawn = doc(&s);
    drawn.put_pixel(6, 6, BLUE);
    s.commit_doc(drawn);
    assert_eq!(s.undo_stack.len(), 1);
    assert_eq!(doc(&s).get_pixel(6, 6), BLUE);
}

#[test]
fn losing_focus_commits_the_text() {
    let mut s = writing();
    assert!(s.text_frame("Hi".to_string(), true, false, false).is_some());
    // An empty text is dropped.
    let mut s = writing();
    assert!(s.text_frame(" \t ".to_string(), true, false, false).is_none());
    assert!(!s.text_editing);
}

#[test]
fn escape_cancels_the_text() {
    let mut s = writing();
    // Esc also takes the focus away from the input.
    assert!(s.text_frame("Hi".to_string(), true, false, true).is_none());
    assert!(s.text_editing);
    s.apply_input(&esc());
    assert!(!s.text_editing && s.text_buf.is_empty() && !s.finished);
    assert!(s.undo_stack.is_empty());
}

#[test]
fn text_frame_without_an_input_is_nothing() {
    let mut s = editing();
    assert!(s.text_frame("Hi".to_string(), true, true, false).is_none());
    assert!(s.text_buf.is_empty());
}

#[test]
fn new_selection_keeps_screenshot_and_style() {
    let mut s = editing();
    s.apply_input(&click(ToolbarAction::SetColor(RED)));
    s.apply_input(&click(ToolbarAction::SetWidth(4)));
    s.apply_input(&click(ToolbarAction::ToggleRect));
    drag(&mut s, stroke(2, 2, 20, 15));
    s.apply_input(&click(ToolbarAction::New));
    assert_eq!(s.phase, Phase::Select);
    assert_eq!(s.full_image, screenshot());
    assert_eq!((s.active_color, s.active_width), (RED, 4));
    assert_eq!(s.active_tool, Tool::NoTool);
    assert!(s.doc.is_none() && s.doc_rect.is_none() && s.undo_stack.is_empty());
}

#[test]
fn undo_keeps_the_newest_snapshots() {
    let mut s = editing();
    let plain = doc(&s);
    for i in 0..15u8 {
        let mut next = plain.clone();
        next.put_pixel(0, 0, Rgba { r: i, g: 0, b: 0, a: 255 });
        s.commit_doc(next);
    }
    assert_eq!(UNDO_CAP, 10);
    assert_eq!(s.undo_stack.len(), 10);
    assert_eq!(s.undo_bytes(), 10 * 4 * 30 * 20);
    for i in (4..14u8).rev() {
        s.undo();
        assert_eq!(doc(&s).get_pixel(0, 0).r, i);
    }
    assert!(s.undo_stack.is_empty());
}

#[test]
fn undo_respects_the_byte_budget() {
    // Each snapshot takes 100 MB: only two fit.
    let big = RgbaImage::new(5000, 5000);
    let mut s = RegionSession::new(RgbaImage::new(5, 5));
    let px = CropPx { x: 0, y: 0, w: 5, h: 5 };
    s.enter_edit(Rect { min: at(0.0, 0.0), max: at(5.0, 5.0) }, px);
    for _ in 0..4 {
        s.commit_doc(big.clone());
    }
    assert_eq!(s.undo_stack.len(), 2);
    assert_eq!(s.undo_bytes(), 200_000_000);
}
