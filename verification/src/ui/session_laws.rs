//! What a capture session does with each kind of input, told by what the user
//! sees: the document's pixels, the undo stack, the phase.

use crate::geometry::{Pos2, Rect};
use crate::imageops;
use crate::picture;
use crate::picture::{Picture, Rgba};
use crate::raster;
use crate::text;
use crate::ui::region_overlay;
use crate::ui::region_overlay::{
    BlurJob, CropPx, FrameInput, OutcomeView, Phase, SessionView, Stroke, Tool, ToolbarAction,
};
use vstd::prelude::*;

verus! {

/// The session is open and the input does not dismiss it.
pub open spec fn goes_on(s: SessionView, i: FrameInput) -> bool {
    s.inv() && !s.finished && !i.esc && !i.close_requested
}

/// Nothing happens on the canvas.
pub open spec fn canvas_rests(i: FrameInput) -> bool {
    !i.canvas_clicked && !i.canvas_down && !i.canvas_released
}

/// Both measures are numbers of more than four logical points.
pub open spec fn long_enough(extent_x: i32, extent_y: i32) -> bool {
    0x4080_0000 < extent_x <= 0x7f80_0000 && 0x4080_0000 < extent_y <= 0x7f80_0000
}

/// A selection is being dragged and is large enough to count.
pub open spec fn selection_counts(s: SessionView, i: FrameInput) -> bool {
    &&& s.drag_start is Some
    &&& s.drag_cur is Some
    &&& i.selection is Some
    &&& long_enough(i.selection->0.extent_x, i.selection->0.extent_y)
}

/// The rectangle of the screenshot has pixels.
pub open spec fn shows_something(s: SessionView, px: CropPx) -> bool {
    exists|x: int, y: int| #[trigger]
        s.full_image.inside(x, y) && imageops::side_covers(px.x as int, px.w as int, x)
            && imageops::side_covers(px.y as int, px.h as int, y)
}

/// `f` is `s` with the given part of the screenshot opened in the editor: the
/// part is the document, its place is `rect`, there is nothing to undo, no tool
/// is active and nothing is in flight; screenshot and style are kept.
pub open spec fn opened(f: SessionView, s: SessionView, rect: Rect, px: CropPx) -> bool {
    &&& f.phase is Edit
    &&& f.doc == Some(
        imageops::crop_of(s.full_image, px.x as int, px.y as int, px.w as int, px.h as int),
    )
    &&& f.doc_rect == Some(rect)
    &&& f.doc_stale
    &&& f.undo_stack.len() == 0
    &&& f.active_tool is NoTool
    &&& f.drag_start is None && f.drag_cur is None && f.hover_rect is None
    &&& f.tool_drag_start is None && f.tool_drag_cur is None
    &&& f.pencil_points.len() == 0
    &&& !f.text_editing && f.text_anchor is None && f.text_buf.len() == 0 && !f.text_wants_focus
    &&& f.full_image == s.full_image && f.origin_physical == s.origin_physical
    &&& f.active_color == s.active_color && f.active_width == s.active_width
    &&& !f.finished && f.result is None
}

/// `f` is `s` without a selection drag.
pub open spec fn let_go(f: SessionView, s: SessionView) -> bool {
    f == (SessionView { drag_start: None, drag_cur: None, ..s })
}

/// A selection that has pixels on the screenshot does not crop to nothing.
proof fn lemma_shows_something(s: SessionView, px: CropPx)
    ensures
        shows_something(s, px) <==> !imageops::crop_is_empty(
            s.full_image,
            px.x as int,
            px.y as int,
            px.w as int,
            px.h as int,
        ),
{
    let full = s.full_image;
    let (x, y) = (px.x as int, px.y as int);
    let (w, h) = (px.w as int, px.h as int);
    if shows_something(s, px) {
        let (u, v) = choose|u: int, v: int| #[trigger]
            full.inside(u, v) && imageops::side_covers(x, w, u) && imageops::side_covers(y, h, v);
        imageops::law_crop_holds_selection(full, x, y, w, h, u, v);
    }
    if !imageops::crop_is_empty(full, x, y, w, h) {
        let u = imageops::clamped(x, full.width as int);
        let v = imageops::clamped(y, full.height as int);
        assert(full.inside(u, v));
        assert(imageops::side_covers(x, w, u) && imageops::side_covers(y, h, v));
    }
}

/// A frame in which nothing happens changes nothing.
pub proof fn law_idle_frame_changes_nothing(s: SessionView, i: FrameInput)
    requires
        goes_on(s, i),
        canvas_rests(i),
        !i.enter && !i.primary_down && !i.released,
        i.action is None,
    ensures
        s.frame(i) == s,
        s.blur_job(i) is None,
{
}

/// While selecting, a held pointer starts the drag where it is, or extends the
/// drag that has started; nothing else changes.
pub proof fn law_held_pointer_drags_selection(s: SessionView, i: FrameInput)
    requires
        goes_on(s, i),
        s.phase is Select,
        !i.enter,
        i.primary_down,
    ensures
        s.frame(i).drag_cur == i.latest,
        s.drag_start is Some ==> s.frame(i).drag_start == s.drag_start,
        s.drag_start is None ==> s.frame(i).drag_start == i.latest,
        s.frame(i) == (SessionView {
            drag_start: s.frame(i).drag_start,
            drag_cur: s.frame(i).drag_cur,
            ..s
        }),
{
}

/// A selection reaches from where the drag started to where it is.
pub proof fn law_selection_reaches_both_ends(s: SessionView)
    ensures
        s.current_rect() is Some <==> s.drag_start is Some && s.drag_cur is Some,
        s.current_rect() is Some ==> s.current_rect() == Some(
            Rect::spanning(s.drag_start->0, s.drag_cur->0),
        ),
{
}

/// Letting go of a drag that is large enough opens what it covers of the
/// screenshot in the editor.
pub proof fn law_released_drag_opens_its_part(s: SessionView, i: FrameInput)
    requires
        goes_on(s, i),
        s.phase is Select,
        !i.enter && !i.primary_down && i.released,
        selection_counts(s, i),
        shows_something(s, i.selection->0.px),
    ensures
        opened(
            s.frame(i),
            s,
            Rect::spanning(s.drag_start->0, s.drag_cur->0),
            i.selection->0.px,
        ),
{
    lemma_shows_something(s, i.selection->0.px);
}

/// A click opens the window under the pointer in the editor: releasing the
/// pointer without a drag that is large enough, whether or not the press began
/// one, over a window of which the screenshot shows something.
pub proof fn law_click_opens_the_window(s: SessionView, i: FrameInput)
    requires
        goes_on(s, i),
        s.phase is Select,
        !i.enter && !i.primary_down && i.released,
        !selection_counts(s, i),
        i.snap is Some,
        shows_something(s, i.snap->0.px),
    ensures
        opened(s.frame(i), s, i.snap->0.rect, i.snap->0.px),
{
    lemma_shows_something(s, i.snap->0.px);
}

/// Releasing the pointer over nothing that can be opened only ends the drag:
/// a drag, or a window, of which the screenshot shows nothing, or no window.
pub proof fn law_release_over_nothing_lets_go(s: SessionView, i: FrameInput)
    requires
        goes_on(s, i),
        s.phase is Select,
        !i.enter && !i.primary_down && i.released,
        selection_counts(s, i) ==> !shows_something(s, i.selection->0.px),
        !selection_counts(s, i) && i.snap is Some ==> !shows_something(s, i.snap->0.px),
    ensures
        let_go(s.frame(i), s),
{
    if selection_counts(s, i) {
        lemma_shows_something(s, i.selection->0.px);
    } else if i.snap is Some {
        lemma_shows_something(s, i.snap->0.px);
    }
}

/// Enter opens a drag that is large enough, and else only ends it.
pub proof fn law_enter_confirms(s: SessionView, i: FrameInput)
    requires
        goes_on(s, i),
        s.phase is Select,
        i.enter && !i.primary_down && !i.released,
    ensures
        selection_counts(s, i) && shows_something(s, i.selection->0.px) ==> opened(
            s.frame(i),
            s,
            Rect::spanning(s.drag_start->0, s.drag_cur->0),
            i.selection->0.px,
        ),
        !(selection_counts(s, i) && shows_something(s, i.selection->0.px)) ==> let_go(
            s.frame(i),
            s,
        ),
{
    if i.selection is Some {
        lemma_shows_something(s, i.selection->0.px);
    }
}

/// Enter comes before the pointer: a frame with both is a frame with Enter
/// alone, and, if that opened nothing, one with the pointer alone.
pub proof fn law_enter_comes_first(s: SessionView, i: FrameInput)
    requires
        goes_on(s, i),
        s.phase is Select,
        i.enter,
    ensures
        ({
            let first = s.frame(FrameInput { primary_down: false, released: false, ..i });
            let rest = FrameInput { enter: false, ..i };
            &&& first.phase is Edit ==> s.frame(i) == first
            &&& first.phase is Select ==> s.frame(i) == first.frame(rest)
        }),
{
    region_overlay::law_frame_keeps_invariant(
        s,
        FrameInput { primary_down: false, released: false, ..i },
    );
}

/// Esc without a tool in use ends the session without an action and leaves the
/// document as it is; while selecting it always does.
pub proof fn law_escape_cancels(s: SessionView, i: FrameInput)
    requires
        s.inv(),
        !s.finished,
        i.esc || i.close_requested,
        s.phase is Select || i.close_requested || (s.tool_drag_start is None && s.tool_drag_cur is None
            && s.pencil_points.len() == 0 && !s.text_editing),
    ensures
        s.frame(i).finished,
        s.frame(i).result == Some(OutcomeView::Cancel),
        s.frame(i).doc == s.doc,
        s.frame(i).undo_stack == s.undo_stack,
        s.frame(i).phase == s.phase,
{
}

/// Esc with a tool in use drops what the tool has begun and nothing else.
pub proof fn law_escape_drops_the_tools_work(s: SessionView, i: FrameInput)
    requires
        s.inv(),
        !s.finished,
        i.esc && !i.close_requested,
        s.phase is Edit,
        s.tool_drag_start is Some || s.tool_drag_cur is Some || s.pencil_points.len() > 0
            || s.text_editing,
    ensures
        s.frame(i) == (SessionView {
            tool_drag_start: None,
            tool_drag_cur: None,
            pencil_points: Seq::empty(),
            text_editing: false,
            text_anchor: None,
            text_buf: Seq::empty(),
            text_wants_focus: false,
            ..s
        }),
{
}

/// The input is a click on the toolbar and nothing else.
pub open spec fn clicks(s: SessionView, i: FrameInput, action: ToolbarAction) -> bool {
    goes_on(s, i) && s.phase is Edit && canvas_rests(i) && i.action == Some(action)
}

/// One click on Undo takes back one change: the newest snapshot is the
/// document, the other snapshots stay, and nothing else changes.
pub proof fn law_undo_click_takes_back_one(s: SessionView, i: FrameInput)
    requires
        clicks(s, i, ToolbarAction::Undo),
    ensures
        s.undo_stack.len() > 0 ==> {
            let n = s.undo_stack.len() as int;
            &&& s.frame(i).doc == Some(s.undo_stack[n - 1])
            &&& s.frame(i).undo_stack.len() == n - 1
            &&& forall|k: int|
                0 <= k < n - 1 ==> #[trigger] s.frame(i).undo_stack[k] == s.undo_stack[k]
            &&& s.frame(i).doc_stale
            &&& s.frame(i) == (SessionView {
                doc: s.frame(i).doc,
                undo_stack: s.frame(i).undo_stack,
                doc_stale: true,
                ..s
            })
        },
        s.undo_stack.len() == 0 ==> s.frame(i) == s,
{
}

/// After two changes, one click on Undo shows the document between them, and a
/// second one the document before both.
pub proof fn law_undo_clicks_go_back_in_order(
    s: SessionView,
    first: Picture,
    second: Picture,
    i: FrameInput,
)
    requires
        s.inv(),
        s.phase is Edit,
        !s.finished,
        first.wf(),
        second.wf(),
        region_overlay::stack_fits(s.undo_stack.push(s.doc->0).push(first)),
        region_overlay::stack_fits(s.undo_stack.push(s.doc->0)),
        clicks(s.commit_doc(first).commit_doc(second), i, ToolbarAction::Undo),
    ensures
        ({
            let once = s.commit_doc(first).commit_doc(second).frame(i);
            &&& once.doc == Some(first)
            &&& once.frame(i).doc == s.doc
            &&& once.frame(i).undo_stack == s.undo_stack
        }),
{
    let changed = s.commit_doc(first).commit_doc(second);
    region_overlay::law_frame_keeps_invariant(changed, i);
    assert(changed.undo_stack.drop_last() =~= s.undo_stack.push(s.doc->0));
    assert(changed.undo_stack.drop_last().drop_last() =~= s.undo_stack);
}

/// A tool's button switches that tool on, or off if it is on, and drops what
/// another tool has begun; the document, the undo stack and the style stay.
pub proof fn law_tool_buttons(s: SessionView, i: FrameInput, action: ToolbarAction, tool: Tool)
    requires
        clicks(s, i, action),
        action == ToolbarAction::ToggleRect && tool == Tool::Rect || action
            == ToolbarAction::ToggleArrow && tool == Tool::Arrow || action
            == ToolbarAction::TogglePencil && tool == Tool::Pencil || action
            == ToolbarAction::ToggleText && tool == Tool::Text || action
            == ToolbarAction::ToggleBlur && tool == Tool::Blur || action
            == ToolbarAction::ToggleMosaic && tool == Tool::Mosaic,
    ensures
        s.active_tool == tool ==> s.frame(i).active_tool == Tool::NoTool,
        s.active_tool != tool ==> s.frame(i).active_tool == tool,
        s.frame(i) == (SessionView {
            active_tool: s.frame(i).active_tool,
            tool_drag_start: None,
            tool_drag_cur: None,
            pencil_points: Seq::empty(),
            text_editing: false,
            text_anchor: None,
            text_buf: Seq::empty(),
            text_wants_focus: false,
            ..s
        }),
{
}

/// A style button sets the color or the width, and nothing else.
pub proof fn law_style_buttons(s: SessionView, i: FrameInput, color: Rgba, width: u32)
    ensures
        clicks(s, i, ToolbarAction::SetColor(color)) ==> s.frame(i) == (SessionView {
            active_color: color,
            ..s
        }),
        clicks(s, i, ToolbarAction::SetWidth(width)) ==> s.frame(i) == (SessionView {
            active_width: width,
            ..s
        }),
{
}

/// New goes back to selecting on the same screenshot, with the same style and
/// nothing of the document left.
pub proof fn law_new_button(s: SessionView, i: FrameInput)
    requires
        goes_on(s, i),
        s.phase is Edit,
        i.action == Some(ToolbarAction::New),
    ensures
        s.frame(i) == (SessionView {
            phase: Phase::Select,
            doc: None,
            doc_stale: true,
            doc_rect: None,
            undo_stack: Seq::empty(),
            active_tool: Tool::NoTool,
            drag_start: None,
            drag_cur: None,
            hover_rect: None,
            tool_drag_start: None,
            tool_drag_cur: None,
            pencil_points: Seq::empty(),
            text_editing: false,
            text_anchor: None,
            text_buf: Seq::empty(),
            text_wants_focus: false,
            ..s
        }),
{
}

/// Pin, save, copy and cancel end the session with that outcome, whatever else
/// the frame holds, and leave the rest of it as it is.
pub proof fn law_final_buttons(s: SessionView, i: FrameInput)
    requires
        goes_on(s, i),
        s.phase is Edit,
    ensures
        i.action == Some(ToolbarAction::Pin) ==> s.frame(i) == (SessionView {
            finished: true,
            result: Some(OutcomeView::Pin(s.doc->0)),
            ..s
        }),
        i.action == Some(ToolbarAction::Save) ==> s.frame(i) == (SessionView {
            finished: true,
            result: Some(OutcomeView::Save(s.doc->0)),
            ..s
        }),
        i.action == Some(ToolbarAction::Copy) ==> s.frame(i) == (SessionView {
            finished: true,
            result: Some(OutcomeView::Copy(s.doc->0)),
            ..s
        }),
        i.action == Some(ToolbarAction::Cancel) ==> s.frame(i) == (SessionView {
            finished: true,
            result: Some(OutcomeView::Cancel),
            ..s
        }),
        i.action == Some(ToolbarAction::Pin) || i.action == Some(ToolbarAction::Save) || i.action
            == Some(ToolbarAction::Copy) || i.action == Some(ToolbarAction::Cancel) || i.action
            == Some(ToolbarAction::New) ==> s.blur_job(i) is None,
{
}

/// A toolbar click that leaves the session open and in the editor comes before
/// the canvas: a frame with both is one with the click alone and then one with
/// the canvas alone.
pub proof fn law_toolbar_comes_first(s: SessionView, i: FrameInput)
    requires
        goes_on(s, i),
        s.phase is Edit,
    ensures
        ({
            let first = s.frame(
                FrameInput {
                    canvas_clicked: false,
                    canvas_down: false,
                    canvas_released: false,
                    ..i
                },
            );
            let rest = FrameInput { action: None, ..i };
            first.phase is Edit && !first.finished ==> {
                &&& s.frame(i) == first.frame(rest)
                &&& s.blur_job(i) == first.blur_job(rest)
            }
        }),
{
}

/// The pointer is on the document.
pub open spec fn points_at_document(s: SessionView, i: FrameInput) -> bool {
    s.doc_rect is Some && i.latest is Some && s.doc_rect->0.covers(i.latest->0)
}

/// The canvas is held, with no toolbar click.
pub open spec fn holds_canvas(s: SessionView, i: FrameInput) -> bool {
    goes_on(s, i) && s.phase is Edit && i.action is None && i.canvas_down
}

/// The tool works on a dragged box.
pub open spec fn drags_a_box(tool: Tool) -> bool {
    tool == Tool::Rect || tool == Tool::Arrow || tool == Tool::Blur || tool == Tool::Mosaic
}

/// Holding the canvas with a box tool starts the drag where the pointer is, or
/// extends the drag that has started, as long as the pointer is on the
/// document; nothing is drawn yet.
pub proof fn law_held_canvas_drags_a_box(s: SessionView, i: FrameInput)
    requires
        holds_canvas(s, i),
        drags_a_box(s.active_tool),
    ensures
        points_at_document(s, i) ==> {
            &&& s.frame(i).tool_drag_cur == i.latest
            &&& s.tool_drag_start is None ==> s.frame(i).tool_drag_start == i.latest
            &&& s.tool_drag_start is Some ==> s.frame(i).tool_drag_start == s.tool_drag_start
        },
        s.frame(i) == (SessionView {
            tool_drag_start: s.frame(i).tool_drag_start,
            tool_drag_cur: s.frame(i).tool_drag_cur,
            ..s
        }),
        !points_at_document(s, i) ==> s.frame(i) == s,
        s.blur_job(i) is None,
{
}

/// Holding the canvas with the pencil adds the pointer's place to the stroke if
/// it is on the document and more than one logical point from the last one, or
/// the first; nothing is drawn yet.
pub proof fn law_held_canvas_extends_pencil(s: SessionView, i: FrameInput)
    requires
        holds_canvas(s, i),
        s.active_tool == Tool::Pencil,
    ensures
        points_at_document(s, i) && (s.pencil_points.len() == 0 || 0x3f80_0000 < i.pencil_gap
            <= 0x7f80_0000) ==> {
            &&& s.frame(i).pencil_points.len() == s.pencil_points.len() + 1
            &&& Some(s.frame(i).pencil_points.last()) == i.latest
            &&& forall|k: int|
                0 <= k < s.pencil_points.len() ==> #[trigger] s.frame(i).pencil_points[k]
                    == s.pencil_points[k]
        },
        !(points_at_document(s, i) && (s.pencil_points.len() == 0 || 0x3f80_0000 < i.pencil_gap
            <= 0x7f80_0000)) ==> s.frame(i) == s,
        s.frame(i) == (SessionView { pencil_points: s.frame(i).pencil_points, ..s }),
        s.blur_job(i) is None,
{
}

/// With no tool, or with the text tool, dragging on the canvas does nothing.
pub proof fn law_other_tools_do_not_drag(s: SessionView, i: FrameInput)
    requires
        goes_on(s, i),
        s.phase is Edit,
        i.action is None,
        s.active_tool == Tool::NoTool || (s.active_tool == Tool::Text && !i.canvas_clicked),
    ensures
        s.frame(i) == s,
        s.blur_job(i) is None,
{
}

/// A box drag of the active tool is let go, with no toolbar click.
pub open spec fn lets_go_of_box(s: SessionView, i: FrameInput) -> bool {
    &&& goes_on(s, i)
    &&& s.phase is Edit
    &&& i.action is None
    &&& !i.canvas_down && i.canvas_released
    &&& drags_a_box(s.active_tool)
    &&& s.tool_drag_start is Some && s.tool_drag_cur is Some
}

/// The drag is large enough to count.
pub open spec fn stroke_counts(i: FrameInput) -> bool {
    i.stroke is Some && long_enough(i.stroke->0.extent_x, i.stroke->0.extent_y)
}

/// The position lies in the box of the drag's two corners, the greater edges
/// not among it.
pub open spec fn in_box(m: Stroke, x: int, y: int) -> bool {
    &&& (m.ax <= x < m.bx || m.bx <= x < m.ax)
    &&& (m.ay <= y < m.by || m.by <= y < m.ay)
}

/// A change of the document has been committed: the document as it was is the
/// newest snapshot, the drag is over, and nothing else has changed.
pub open spec fn drew(f: SessionView, s: SessionView) -> bool {
    &&& f.doc is Some && f.doc->0.wf() && f.doc->0.same_size(s.doc->0)
    &&& f.undo_stack.len() > 0 && Some(f.undo_stack.last()) == s.doc
    &&& f.undo_stack == region_overlay::fitted(s.undo_stack.push(s.doc->0))
    &&& f == (SessionView {
        doc: f.doc,
        undo_stack: f.undo_stack,
        doc_stale: true,
        tool_drag_start: None,
        tool_drag_cur: None,
        pencil_points: Seq::empty(),
        ..s
    })
}

/// The drag is over and nothing else has changed.
pub open spec fn drew_nothing(f: SessionView, s: SessionView) -> bool {
    f == (SessionView { tool_drag_start: None, tool_drag_cur: None, ..s })
}

/// Letting go of a box drag that is too small, or of no known size, draws
/// nothing.
pub proof fn law_small_box_draws_nothing(s: SessionView, i: FrameInput)
    requires
        lets_go_of_box(s, i),
        !stroke_counts(i),
    ensures
        drew_nothing(s.frame(i), s),
        s.blur_job(i) is None,
{
}

/// Letting go of a rectangle draws its outline in the active color: of the
/// pixels in the box, those fewer than the stroke width from its edges. All
/// others stay, and the document before is the newest snapshot.
pub proof fn law_rectangle_draws_its_outline(s: SessionView, i: FrameInput, x: int, y: int)
    requires
        lets_go_of_box(s, i),
        stroke_counts(i),
        s.active_tool == Tool::Rect,
        s.doc->0.inside(x, y),
    ensures
        drew(s.frame(i), s),
        s.blur_job(i) is None,
        ({
            let m = i.stroke->0;
            let t: int = if m.width_px < 1 { 1 } else { m.width_px as int };
            let (l, r) = if m.ax < m.bx { (m.ax, m.bx) } else { (m.bx, m.ax) };
            let (u, d) = if m.ay < m.by { (m.ay, m.by) } else { (m.by, m.ay) };
            let on_outline = in_box(m, x, y) && (x - l < t || r - 1 - x < t || y - u < t || d - 1 - y
                < t);
            &&& on_outline ==> s.frame(i).doc->0.pixel(x, y) == s.active_color
            &&& !on_outline ==> s.frame(i).doc->0.pixel(x, y) == s.doc->0.pixel(x, y)
        }),
{
    let m = i.stroke->0;
    region_overlay::law_undo_stack_keeps_newest(s.undo_stack.push(s.doc->0));
    let ring = raster::border_ring(
        raster::smaller(m.ax as int, m.bx as int),
        raster::smaller(m.ay as int, m.by as int),
        raster::larger(m.ax as int, m.bx as int),
        raster::larger(m.ay as int, m.by as int),
        raster::larger(m.width_px as int, 1),
    );
    picture::lemma_painted(s.doc->0, ring, s.active_color, x, y);
    assert(s.frame(i) =~= (SessionView {
        doc: s.frame(i).doc,
        undo_stack: s.frame(i).undo_stack,
        doc_stale: true,
        tool_drag_start: None,
        tool_drag_cur: None,
        pencil_points: Seq::empty(),
        ..s
    }));
}

/// Letting go of an arrow draws, in the active color and at least one pixel
/// thick, the line from where the drag began to where it ended and, from there,
/// the two barbs; without length there are no barbs. Everything else stays.
pub proof fn law_arrow_draws_shaft_and_barbs(s: SessionView, i: FrameInput, x: int, y: int)
    requires
        lets_go_of_box(s, i),
        stroke_counts(i),
        s.active_tool == Tool::Arrow,
        s.doc->0.inside(x, y),
    ensures
        drew(s.frame(i), s),
        s.blur_job(i) is None,
        ({
            let m = i.stroke->0;
            let t: int = if m.width_px < 1 { 1 } else { m.width_px as int };
            let (ax, ay) = (m.ax as int, m.ay as int);
            let (bx, by) = (m.bx as int, m.by as int);
            let on_shaft = raster::thick_line(ax, ay, bx, by, t)(x, y);
            let on_barb = (ax != bx || ay != by) && (raster::thick_line(
                bx,
                by,
                m.barbs.ax as int,
                m.barbs.ay as int,
                t,
            )(x, y) || raster::thick_line(
                bx,
                by,
                m.barbs.bx as int,
                m.barbs.by as int,
                t,
            )(x, y));
            &&& on_shaft || on_barb ==> s.frame(i).doc->0.pixel(x, y) == s.active_color
            &&& !on_shaft && !on_barb ==> s.frame(i).doc->0.pixel(x, y) == s.doc->0.pixel(x, y)
        }),
{
    let m = i.stroke->0;
    region_overlay::law_undo_stack_keeps_newest(s.undo_stack.push(s.doc->0));
    let arrow = raster::arrow(
        m.ax as int,
        m.ay as int,
        m.bx as int,
        m.by as int,
        m.barbs,
        raster::larger(m.width_px as int, 1),
    );
    picture::lemma_painted(s.doc->0, arrow, s.active_color, x, y);
    assert(s.frame(i) =~= (SessionView {
        doc: s.frame(i).doc,
        undo_stack: s.frame(i).undo_stack,
        doc_stale: true,
        tool_drag_start: None,
        tool_drag_cur: None,
        pencil_points: Seq::empty(),
        ..s
    }));
}

/// The box of the drag, cut at the document's edges: its least corner and its
/// greatest, the greatest not in it.
pub open spec fn cut_box(p: Picture, m: Stroke) -> (int, int, int, int) {
    let (l, r) = if m.ax < m.bx { (m.ax as int, m.bx as int) } else { (m.bx as int, m.ax as int) };
    let (u, d) = if m.ay < m.by { (m.ay as int, m.by as int) } else { (m.by as int, m.ay as int) };
    (
        if l < 0 { 0 } else { l },
        if u < 0 { 0 } else { u },
        if r > p.width { p.width as int } else { r },
        if d > p.height { p.height as int } else { d },
    )
}

/// More than one column and more than one row of the document lie in the box.
pub open spec fn box_counts(p: Picture, m: Stroke) -> bool {
    let b = cut_box(p, m);
    b.2 - b.0 > 1 && b.3 - b.1 > 1
}

/// The cut box holds exactly the document's pixels that lie in the box.
proof fn lemma_cut_box(p: Picture, m: Stroke, x: int, y: int)
    requires
        p.inside(x, y),
    ensures
        in_box(m, x, y) <==> cut_box(p, m).0 <= x < cut_box(p, m).2 && cut_box(p, m).1 <= y
            < cut_box(p, m).3,
        region_overlay::drag_box(p, m) == cut_box(p, m),
{
}

/// Letting go of a mosaic drag changes only the dragged box: every pixel of the
/// document outside of it stays, and inside are the pixels of the pixelated
/// box, in blocks of at least two pixels. The document before is the newest
/// snapshot. A box of one column or row, or off the document, changes nothing.
pub proof fn law_mosaic_changes_only_the_box(s: SessionView, i: FrameInput, x: int, y: int)
    requires
        lets_go_of_box(s, i),
        stroke_counts(i),
        s.active_tool == Tool::Mosaic,
        s.doc->0.inside(x, y),
    ensures
        s.blur_job(i) is None,
        !box_counts(s.doc->0, i.stroke->0) ==> drew_nothing(s.frame(i), s),
        box_counts(s.doc->0, i.stroke->0) ==> {
            let (p, m) = (s.doc->0, i.stroke->0);
            let b = cut_box(p, m);
            let block: int = if m.block_px < 2 { 2 } else { m.block_px as int };
            let part = p.cropped(b.0, b.1, (b.2 - b.0) as nat, (b.3 - b.1) as nat);
            &&& drew(s.frame(i), s)
            &&& !in_box(m, x, y) ==> s.frame(i).doc->0.pixel(x, y) == p.pixel(x, y)
            &&& in_box(m, x, y) ==> s.frame(i).doc->0.pixel(x, y) == imageops::pixelated(
                part,
                block,
            ).pixel(x - b.0, y - b.1)
        },
{
    let (p, m) = (s.doc->0, i.stroke->0);
    region_overlay::law_undo_stack_keeps_newest(s.undo_stack.push(p));
    lemma_cut_box(p, m, x, y);
    if box_counts(p, m) {
        let b = cut_box(p, m);
        let block: int = if m.block_px < 2 { 2 } else { m.block_px as int };
        let part = imageops::region_part(p, b.0, b.1, b.2, b.3);
        assert(part == p.cropped(b.0, b.1, (b.2 - b.0) as nat, (b.3 - b.1) as nat));
        let blocks = imageops::pixelated(part, block);
        if in_box(m, x, y) {
            imageops::law_region_shows_part(p, b.0, b.1, b.2, b.3, blocks, x, y);
        } else {
            imageops::law_only_region_changes(p, b.0, b.1, b.2, b.3, blocks, x, y);
        }
        assert(s.frame(i) =~= (SessionView {
            doc: s.frame(i).doc,
            undo_stack: s.frame(i).undo_stack,
            doc_stale: true,
            tool_drag_start: None,
            tool_drag_cur: None,
            pencil_points: Seq::empty(),
            ..s
        }));
    }
}

/// Letting go of a blur drag asks for the dragged box to be blurred and ends
/// the drag; the document waits. A box of one column or row, or off the
/// document, asks for nothing.
pub proof fn law_blur_asks_for_the_box(s: SessionView, i: FrameInput)
    requires
        lets_go_of_box(s, i),
        stroke_counts(i),
        s.active_tool == Tool::Blur,
    ensures
        drew_nothing(s.frame(i), s),
        ({
            let b = cut_box(s.doc->0, i.stroke->0);
            &&& s.blur_job(i) is Some <==> box_counts(s.doc->0, i.stroke->0)
            &&& s.blur_job(i) matches Some(job) ==> job.x0 == b.0 && job.y0 == b.1 && job.x1 == b.2
                && job.y1 == b.3
        }),
{
}

/// Only letting go of a blur drag asks for a blur.
pub proof fn law_nothing_else_asks_for_a_blur(s: SessionView, i: FrameInput)
    requires
        goes_on(s, i),
        i.action is None,
        !(lets_go_of_box(s, i) && stroke_counts(i) && s.active_tool == Tool::Blur),
    ensures
        s.blur_job(i) is None,
{
}

/// A finished blur shows the blurred pixels in its box and leaves the rest of
/// the document; the document before is the newest snapshot.
pub proof fn law_finished_blur_changes_only_its_box(
    s: SessionView,
    job: BlurJob,
    blurred: Picture,
    x: int,
    y: int,
)
    requires
        s.doc is Some,
        s.doc->0.wf(),
        0 <= job.x0 < job.x1 <= s.doc->0.width,
        0 <= job.y0 < job.y1 <= s.doc->0.height,
        blurred.width == job.x1 - job.x0,
        blurred.height == job.y1 - job.y0,
        s.doc->0.inside(x, y),
    ensures
        ({
            let f = s.finish_blur(job, blurred);
            let inside = job.x0 <= x < job.x1 && job.y0 <= y < job.y1;
            &&& f.doc is Some && f.doc->0.same_size(s.doc->0)
            &&& inside ==> f.doc->0.pixel(x, y) == blurred.pixel(x - job.x0, y - job.y0)
            &&& !inside ==> f.doc->0.pixel(x, y) == s.doc->0.pixel(x, y)
            &&& f.undo_stack.len() > 0 && Some(f.undo_stack.last()) == s.doc
            &&& f == (SessionView {
                doc: f.doc,
                undo_stack: f.undo_stack,
                doc_stale: true,
                ..s
            })
        }),
{
    let p = s.doc->0;
    let (x0, y0, x1, y1) = (job.x0 as int, job.y0 as int, job.x1 as int, job.y1 as int);
    region_overlay::law_undo_stack_keeps_newest(s.undo_stack.push(p));
    if imageops::in_region(x0, y0, x1, y1, x, y) {
        imageops::law_region_shows_part(p, x0, y0, x1, y1, blurred, x, y);
    } else {
        imageops::law_only_region_changes(p, x0, y0, x1, y1, blurred, x, y);
    }
}

/// The line between point `k` and the next one, of thickness `t`, covers the
/// position.
pub open spec fn between_points(pts: Seq<(i32, i32)>, t: int, k: int, x: int, y: int) -> bool {
    raster::thick_line(
        pts[k].0 as int,
        pts[k].1 as int,
        pts[k + 1].0 as int,
        pts[k + 1].1 as int,
        t,
    )(x, y)
}

/// The line between some two consecutive points covers the position.
pub open spec fn on_stroke(pts: Seq<(i32, i32)>, t: int, x: int, y: int) -> bool {
    exists|k: int| 0 <= k && k + 1 < pts.len() && #[trigger] between_points(pts, t, k, x, y)
}

/// Letting go of the pencil joins all points of the stroke by lines in the
/// active color, at least one pixel thick, and leaves the rest of the document.
/// A stroke of fewer than two points draws nothing. The stroke is over.
pub proof fn law_pencil_joins_all_points(s: SessionView, i: FrameInput, x: int, y: int)
    requires
        goes_on(s, i),
        s.phase is Edit,
        i.action is None,
        !i.canvas_down && i.canvas_released,
        s.active_tool == Tool::Pencil,
        s.doc->0.inside(x, y),
    ensures
        s.blur_job(i) is None,
        s.frame(i).pencil_points.len() == 0,
        s.pencil_points.len() < 2 ==> s.frame(i) == (SessionView {
            pencil_points: Seq::empty(),
            ..s
        }),
        s.pencil_points.len() >= 2 && i.pencil_px@.len() >= 2 ==> {
            let t: int = if i.width_px < 1 { 1 } else { i.width_px as int };
            &&& drew(s.frame(i), s)
            &&& on_stroke(i.pencil_px@, t, x, y) ==> s.frame(i).doc->0.pixel(x, y)
                == s.active_color
            &&& !on_stroke(i.pencil_px@, t, x, y) ==> s.frame(i).doc->0.pixel(x, y)
                == s.doc->0.pixel(x, y)
        },
{
    let p = s.doc->0;
    let pts = i.pencil_px@;
    let t: int = if i.width_px < 1 { 1 } else { i.width_px as int };
    region_overlay::law_undo_stack_keeps_newest(s.undo_stack.push(p));
    assert(s.act(i.action) == s);
    assert(s.frame(i) == s.pencil_tool(i));
    if s.pencil_points.len() >= 2 && pts.len() >= 2 {
        assert(s.frame(i).doc->0 == p.painted(raster::polyline(pts, t), s.active_color));
        if on_stroke(pts, t, x, y) {
            let k = choose|k: int|
                0 <= k && k + 1 < pts.len() && #[trigger] between_points(pts, t, k, x, y);
            raster::law_polyline_joins_all_points(p, pts, t, s.active_color, k, x, y);
        } else {
            assert forall|k: int| 0 <= k && k + 1 < pts.len() implies !(
            #[trigger] raster::thick_line(
                pts[k].0 as int,
                pts[k].1 as int,
                pts[k + 1].0 as int,
                pts[k + 1].1 as int,
                t,
            ))(x, y) by {
                assert(!between_points(pts, t, k, x, y));
            }
            raster::law_polyline_draws_nothing_else(p, pts, t, s.active_color, x, y);
        }
        assert(s.frame(i) =~= (SessionView {
            doc: s.frame(i).doc,
            undo_stack: s.frame(i).undo_stack,
            doc_stale: true,
            tool_drag_start: None,
            tool_drag_cur: None,
            pencil_points: Seq::empty(),
            ..s
        }));
    }
}

/// A click on the document with the text tool opens an empty text input there,
/// which is to get the keyboard; while one is open, or beside the document, a
/// click does nothing.
pub proof fn law_click_opens_a_text_input(s: SessionView, i: FrameInput)
    requires
        goes_on(s, i),
        s.phase is Edit,
        i.action is None,
        s.active_tool == Tool::Text,
        i.canvas_clicked,
    ensures
        !s.text_editing && points_at_document(s, i) ==> s.frame(i) == (SessionView {
            text_anchor: i.latest,
            text_buf: Seq::empty(),
            text_editing: true,
            text_wants_focus: true,
            ..s
        }),
        s.text_editing || !points_at_document(s, i) ==> s.frame(i) == s,
        s.blur_job(i) is None,
{
}

/// Typing changes only the text; closing the input leaves nothing of it and
/// changes nothing else.
pub proof fn law_text_input_is_apart(s: SessionView, buf: Seq<char>)
    ensures
        s.text_typed(buf) == (SessionView { text_buf: buf, text_wants_focus: false, ..s }),
        s.text_typed(buf).clear_text() == s.clear_text(),
        s.clear_text() == (SessionView {
            text_editing: false,
            text_anchor: None,
            text_buf: Seq::empty(),
            text_wants_focus: false,
            ..s
        }),
        s.clear_text().clear_text() == s.clear_text(),
        !s.clear_text().text_open(),
{
}

/// A text input is shown exactly while the text tool of the editor has one
/// open.
pub proof fn law_text_input_shows_while_editing(s: SessionView)
    requires
        s.inv(),
    ensures
        s.text_open() <==> s.phase is Edit && s.active_tool == Tool::Text && s.text_editing,
{
}

/// A text is drawn exactly if it holds more than white space and has a place on
/// a document.
pub proof fn law_blank_text_is_not_drawn(s: SessionView)
    ensures
        s.text_due() <==> s.text_anchor is Some && s.doc is Some && s.doc_rect is Some && exists|
            k: int,
        |
            0 <= k < s.text_buf.len() && !text::is_white_space(#[trigger] s.text_buf[k]),
{
    text::law_trimmed_is_empty_for_blanks(s.text_buf);
}

/// The window under the pointer is remembered exactly while selecting and not
/// dragging; nothing else changes.
pub proof fn law_hover_while_not_dragging(s: SessionView, under: Option<Rect>)
    ensures
        s.phase is Select && s.drag_start is None ==> s.hover(under) == (SessionView {
            hover_rect: under,
            ..s
        }),
        s.phase is Edit || s.drag_start is Some ==> s.hover(under) == (SessionView {
            hover_rect: None,
            ..s
        }),
{
}

/// Committing a document puts it in place of the one before, which becomes the
/// newest snapshot; nothing else changes.
pub proof fn law_commit_keeps_the_document_before(s: SessionView, new_doc: Picture)
    requires
        s.doc is Some,
    ensures
        ({
            let f = s.commit_doc(new_doc);
            &&& f.doc == Some(new_doc)
            &&& f.doc_stale
            &&& f.undo_stack.len() > 0
            &&& Some(f.undo_stack.last()) == s.doc
            &&& f.undo_stack.len() <= s.undo_stack.len() + 1
            &&& f == (SessionView {
                doc: f.doc,
                undo_stack: f.undo_stack,
                doc_stale: true,
                ..s
            })
        }),
{
    region_overlay::law_undo_stack_keeps_newest(s.undo_stack.push(s.doc->0));
}

/// The bytes of snapshots add up, four for each pixel.
pub proof fn law_snapshot_bytes_add_up(stack: Seq<Picture>, p: Picture)
    ensures
        region_overlay::stack_bytes(Seq::empty()) == 0,
        region_overlay::stack_bytes(stack.push(p)) == region_overlay::stack_bytes(stack) + 4 * (
        p.width * p.height),
{
    assert(stack.push(p).drop_last() =~= stack);
}

/// Snapshots are dropped only where they have to be: with at most ten that take
/// at most 256 MiB together, or with a single one, all stay.
pub proof fn law_snapshots_stay_while_they_fit(stack: Seq<Picture>)
    ensures
        stack.len() <= 10 && region_overlay::stack_bytes(stack) <= 0x1000_0000
            ==> region_overlay::fitted(stack) == stack,
        stack.len() <= 1 ==> region_overlay::fitted(stack) == stack,
        region_overlay::fitted(stack).len() <= 10,
        region_overlay::fitted(stack).len() > 1 ==> region_overlay::stack_bytes(
            region_overlay::fitted(stack),
        ) <= 0x1000_0000,
{
    region_overlay::law_undo_stack_keeps_newest(stack);
}

/// No snapshot is dropped that could have stayed: with one more of the stack's
/// the snapshots would be too many or take too many bytes.
pub proof fn law_snapshots_are_dropped_sparingly(stack: Seq<Picture>)
    requires
        region_overlay::fitted(stack).len() < stack.len(),
    ensures
        ({
            let n = region_overlay::fitted(stack).len() + 1;
            let more = stack.subrange(stack.len() - n, stack.len() as int);
            n > 10 || region_overlay::stack_bytes(more) > 0x1000_0000
        }),
    decreases stack.len(),
{
    let rest = stack.subrange(1, stack.len() as int);
    if region_overlay::fitted(rest).len() < rest.len() {
        law_snapshots_are_dropped_sparingly(rest);
        let n = region_overlay::fitted(rest).len() + 1;
        assert(rest.subrange(rest.len() - n, rest.len() as int) =~= stack.subrange(
            stack.len() - n,
            stack.len() as int,
        ));
    } else {
        region_overlay::law_undo_stack_keeps_newest(rest);
        assert(stack.subrange(0, stack.len() as int) =~= stack);
    }
}

/// Opening a part of the screenshot is what every way into the editor does; a
/// part without pixels is not opened.
pub proof fn law_opening_a_part(s: SessionView, rect: Rect, px: CropPx)
    requires
        s.inv(),
        !s.finished,
    ensures
        shows_something(s, px) ==> opened(s.enter_edit(rect, px), s, rect, px),
        !shows_something(s, px) ==> s.enter_edit(rect, px) == s,
{
    lemma_shows_something(s, px);
}

} // verus!
