//! Region-selection overlay and in-place editor: the session's state and what
//! each frame's input does to it.
//!
//! Two phases share one session:
//! - [`Phase::Select`]: a frozen screenshot with a draggable crop box. Esc
//!   cancels; releasing a real drag, clicking a window, or Enter confirms and
//!   moves on to [`Phase::Edit`].
//! - [`Phase::Edit`]: the cropped selection is the document. A toolbar offers
//!   the annotation tools and the terminal actions.
//!
//! Positions are kept in logical overlay coordinates. What has to be drawn is
//! handed in as physical pixels, measured by the caller from the session's own
//! positions before the frame's input is applied.

use crate::geometry;
use crate::geometry::{Pos2, Rect};
use crate::imageops;
use crate::picture;
use crate::picture::{Picture, Rgba, RgbaImage};
use crate::raster;
use crate::raster::Barbs;
use crate::text;
use vstd::prelude::*;

verus! {

/// Minimum drag size below which a selection or a stroke is ignored: the rank
/// of four logical points.
pub const MIN_DRAG: i32 = 0x4080_0000;

/// Minimum distance between two points of a freehand stroke: the rank of one
/// logical point.
pub const PENCIL_SPACING: i32 = 0x3f80_0000;

/// Maximum number of document snapshots kept for undo.
pub const UNDO_CAP: usize = 10;

/// Soft byte budget of the undo stack. The oldest snapshots are dropped once
/// it is exceeded, in addition to the [`UNDO_CAP`] count limit.
pub const UNDO_BYTES_BUDGET: usize = 256 * 1024 * 1024;

/// Default annotation stroke width, in logical pixels.
pub const ACTIVE_WIDTH_DEFAULT: u32 = 2;

/// Default annotation color.
pub open spec fn active_color_default() -> Rgba {
    Rgba { r: 0x26, g: 0x8b, b: 0xd2, a: 255 }
}

/// Overlay phase.
#[derive(Clone, Copy, Debug, PartialEq, Eq, Structural)]
pub enum Phase {
    /// Drag to select, hover to snap to a window, Enter to confirm.
    Select,
    /// The cropped selection is the editable canvas.
    Edit,
}

/// Active annotation tool. The default is no tool.
#[derive(Clone, Copy, Debug, PartialEq, Eq, Structural)]
pub enum Tool {
    /// No annotation tool active.
    NoTool,
    /// Rectangle outline.
    Rect,
    /// Line with a chevron head.
    Arrow,
    /// Freehand polyline.
    Pencil,
    /// In-place single-line text.
    Text,
    /// Gaussian blur of the dragged region.
    Blur,
    /// Pixelation of the dragged region.
    Mosaic,
}

/// Terminal outcome produced by the editor.
#[derive(Debug)]
pub enum EditorOutcome {
    /// Float the document as a pinned window.
    Pin(RgbaImage),
    /// Save the document as PNG.
    Save(RgbaImage),
    /// Copy the document to the system clipboard.
    Copy(RgbaImage),
    /// No action.
    Cancel,
}

/// Model of an [`EditorOutcome`].
pub enum OutcomeView {
    Pin(Picture),
    Save(Picture),
    Copy(Picture),
    Cancel,
}

impl View for EditorOutcome {
    type V = OutcomeView;

    open spec fn view(&self) -> OutcomeView {
        match *self {
            EditorOutcome::Pin(img) => OutcomeView::Pin(img@),
            EditorOutcome::Save(img) => OutcomeView::Save(img@),
            EditorOutcome::Copy(img) => OutcomeView::Copy(img@),
            EditorOutcome::Cancel => OutcomeView::Cancel,
        }
    }
}

/// A click on the floating toolbar.
#[derive(Clone, Copy, Debug, PartialEq, Eq, Structural)]
pub enum ToolbarAction {
    New,
    ToggleRect,
    ToggleArrow,
    TogglePencil,
    ToggleText,
    ToggleBlur,
    ToggleMosaic,
    SetColor(Rgba),
    SetWidth(u32),
    Undo,
    Pin,
    Save,
    Copy,
    Cancel,
}

/// A rectangle of the screenshot in physical pixels.
#[derive(Clone, Copy, Debug, PartialEq, Eq, Structural)]
pub struct CropPx {
    pub x: i32,
    pub y: i32,
    pub w: i32,
    pub h: i32,
}

/// The current selection, measured: the ranks of its logical sides, and where
/// it lies on the screenshot.
#[derive(Clone, Copy, Debug, PartialEq, Eq, Structural)]
pub struct Selection {
    pub extent_x: i32,
    pub extent_y: i32,
    pub px: CropPx,
}

/// The window under the pointer: its place on the overlay and on the
/// screenshot.
#[derive(Clone, Copy, Debug, PartialEq, Eq, Structural)]
pub struct Snap {
    pub rect: Rect,
    pub px: CropPx,
}

/// The current tool drag, measured: the ranks of its logical sides, its two
/// corners on the document, the ends of an arrowhead's barbs, the stroke width
/// that holds after the frame's toolbar action, and the mosaic block, all in
/// physical pixels.
#[derive(Clone, Copy, Debug, PartialEq, Eq, Structural)]
pub struct Stroke {
    pub extent_x: i32,
    pub extent_y: i32,
    pub ax: i32,
    pub ay: i32,
    pub bx: i32,
    pub by: i32,
    pub barbs: Barbs,
    pub width_px: i32,
    pub block_px: u32,
}

/// What happened since the last frame.
#[derive(Debug)]
pub struct FrameInput {
    pub esc: bool,
    pub close_requested: bool,
    pub enter: bool,
    pub primary_down: bool,
    pub released: bool,
    /// Latest pointer position.
    pub latest: Option<Pos2>,
    pub canvas_clicked: bool,
    pub canvas_down: bool,
    pub canvas_released: bool,
    pub action: Option<ToolbarAction>,
    /// Measures of the session's current selection, if it has one.
    pub selection: Option<Selection>,
    /// Window under the pointer, if any.
    pub snap: Option<Snap>,
    /// Measures of the session's current tool drag, if it has one.
    pub stroke: Option<Stroke>,
    /// Rank of the distance from the last freehand point to the pointer.
    pub pencil_gap: i32,
    /// The freehand points on the document, in physical pixels.
    pub pencil_px: Vec<(i32, i32)>,
    /// The stroke width that holds after the toolbar action, in physical
    /// pixels.
    pub width_px: i32,
}

/// A region of the document that is to be blurred.
#[derive(Clone, Copy, Debug, PartialEq, Eq, Structural)]
pub struct BlurJob {
    pub x0: i32,
    pub y0: i32,
    pub x1: i32,
    pub y1: i32,
}

/// A text that is to be drawn on the document.
#[derive(Debug)]
pub struct TextJob {
    pub anchor: Pos2,
    pub text: String,
    pub color: Rgba,
}

/// State of one capture, from the frozen screenshot to the outcome.
#[derive(Debug)]
pub struct RegionSession {
    /// Full screenshot.
    pub full_image: RgbaImage,
    /// The overlay's top-left in physical virtual-screen pixels.
    pub origin_physical: (i32, i32),
    /// Current phase.
    pub phase: Phase,
    /// Drag origin while dragging a selection.
    pub drag_start: Option<Pos2>,
    /// Current pointer while dragging a selection.
    pub drag_cur: Option<Pos2>,
    /// Window under the pointer while not dragging.
    pub hover_rect: Option<Rect>,
    /// Active annotation tool.
    pub active_tool: Tool,
    /// Annotation color.
    pub active_color: Rgba,
    /// Annotation stroke width in logical pixels.
    pub active_width: u32,
    /// The cropped document.
    pub doc: Option<RgbaImage>,
    /// The document no longer matches what was last uploaded for display.
    pub doc_stale: bool,
    /// Where the document is shown on the overlay.
    pub doc_rect: Option<Rect>,
    /// Document snapshots for undo, oldest first.
    pub undo_stack: Vec<RgbaImage>,
    /// Drag origin of the rectangle, arrow, blur and mosaic tools.
    pub tool_drag_start: Option<Pos2>,
    /// Current pointer of the rectangle, arrow, blur and mosaic tools.
    pub tool_drag_cur: Option<Pos2>,
    /// Points of the freehand stroke.
    pub pencil_points: Vec<Pos2>,
    /// Where the in-progress text starts.
    pub text_anchor: Option<Pos2>,
    /// The in-progress text.
    pub text_buf: String,
    /// A text input is open.
    pub text_editing: bool,
    /// The text input still has to get the keyboard focus.
    pub text_wants_focus: bool,
    /// The session is done.
    pub finished: bool,
    /// Its outcome, once done.
    pub result: Option<EditorOutcome>,
}

/// Model of a [`RegionSession`].
#[verifier::ext_equal]
pub struct SessionView {
    pub full_image: Picture,
    pub origin_physical: (i32, i32),
    pub phase: Phase,
    pub drag_start: Option<Pos2>,
    pub drag_cur: Option<Pos2>,
    pub hover_rect: Option<Rect>,
    pub active_tool: Tool,
    pub active_color: Rgba,
    pub active_width: u32,
    pub doc: Option<Picture>,
    pub doc_stale: bool,
    pub doc_rect: Option<Rect>,
    pub undo_stack: Seq<Picture>,
    pub tool_drag_start: Option<Pos2>,
    pub tool_drag_cur: Option<Pos2>,
    pub pencil_points: Seq<Pos2>,
    pub text_anchor: Option<Pos2>,
    pub text_buf: Seq<char>,
    pub text_editing: bool,
    pub text_wants_focus: bool,
    pub finished: bool,
    pub result: Option<OutcomeView>,
}

/// The pictures of a stack of images.
pub open spec fn pictures(stack: Seq<RgbaImage>) -> Seq<Picture> {
    Seq::new(stack.len(), |i: int| stack[i]@)
}

impl View for RegionSession {
    type V = SessionView;

    open spec fn view(&self) -> SessionView {
        SessionView {
            full_image: self.full_image@,
            origin_physical: self.origin_physical,
            phase: self.phase,
            drag_start: self.drag_start,
            drag_cur: self.drag_cur,
            hover_rect: self.hover_rect,
            active_tool: self.active_tool,
            active_color: self.active_color,
            active_width: self.active_width,
            doc: match self.doc {
                Some(img) => Some(img@),
                None => None,
            },
            doc_stale: self.doc_stale,
            doc_rect: self.doc_rect,
            undo_stack: pictures(self.undo_stack@),
            tool_drag_start: self.tool_drag_start,
            tool_drag_cur: self.tool_drag_cur,
            pencil_points: self.pencil_points@,
            text_anchor: self.text_anchor,
            text_buf: self.text_buf@,
            text_editing: self.text_editing,
            text_wants_focus: self.text_wants_focus,
            finished: self.finished,
            result: match self.result {
                Some(outcome) => Some(outcome@),
                None => None,
            },
        }
    }
}

/// Bytes of a document snapshot.
pub open spec fn picture_bytes(p: Picture) -> nat {
    4 * (p.width * p.height)
}

/// Bytes of a stack of snapshots.
pub open spec fn stack_bytes(stack: Seq<Picture>) -> nat
    decreases stack.len(),
{
    if stack.len() == 0 {
        0
    } else {
        stack_bytes(stack.drop_last()) + picture_bytes(stack.last())
    }
}

/// The stack respects both limits; a single snapshot may exceed the budget.
pub open spec fn stack_fits(stack: Seq<Picture>) -> bool {
    &&& stack.len() <= UNDO_CAP
    &&& stack_bytes(stack) <= UNDO_BYTES_BUDGET || stack.len() <= 1
}

/// The stack with its oldest snapshots dropped until it respects both limits.
pub open spec fn fitted(stack: Seq<Picture>) -> Seq<Picture>
    decreases stack.len(),
{
    if stack.len() == 0 || stack_fits(stack) {
        stack
    } else {
        fitted(stack.subrange(1, stack.len() as int))
    }
}

/// Both sides of a drag are numbers and exceed [`MIN_DRAG`].
pub open spec fn is_real_drag(extent_x: i32, extent_y: i32) -> bool {
    geometry::more_than(extent_x, MIN_DRAG) && geometry::more_than(extent_y, MIN_DRAG)
}

/// Whether both sides of a drag are numbers and exceed [`MIN_DRAG`].
fn real_drag(extent_x: i32, extent_y: i32) -> (r: bool)
    ensures
        r == is_real_drag(extent_x, extent_y),
{
    geometry::exceeds(extent_x, MIN_DRAG) && geometry::exceeds(extent_y, MIN_DRAG)
}

/// The tools that work on a dragged box.
pub open spec fn is_drag_tool(tool: Tool) -> bool {
    tool is Rect || tool is Arrow || tool is Blur || tool is Mosaic
}

/// The document side as the largest coordinate that a drag may reach.
pub open spec fn side_limit(side: nat) -> int {
    if side > i32::MAX {
        i32::MAX as int
    } else {
        side as int
    }
}

/// The document region of a drag: its corners sorted and cut at the
/// document's edges.
pub open spec fn drag_box(p: Picture, s: Stroke) -> (int, int, int, int) {
    (
        raster::larger(raster::smaller(s.ax as int, s.bx as int), 0),
        raster::larger(raster::smaller(s.ay as int, s.by as int), 0),
        raster::smaller(raster::larger(s.ax as int, s.bx as int), side_limit(p.width)),
        raster::smaller(raster::larger(s.ay as int, s.by as int), side_limit(p.height)),
    )
}

/// The document region of a drag is more than one pixel wide and tall.
pub open spec fn drag_box_counts(p: Picture, s: Stroke) -> bool {
    let b = drag_box(p, s);
    b.2 - b.0 > 1 && b.3 - b.1 > 1
}

impl SessionView {
    /// What every session keeps between frames.
    pub open spec fn inv(self) -> bool {
        &&& self.full_image.wf()
        &&& self.doc matches Some(p) ==> p.wf()
        &&& forall|i: int| 0 <= i < self.undo_stack.len() ==> (#[trigger] self.undo_stack[i]).wf()
        // There is a document, and a place for it, exactly in the edit phase.
        &&& self.phase is Edit <==> self.doc is Some
        &&& self.phase is Edit <==> self.doc_rect is Some
        // Each phase's interaction state is empty in the other phase.
        &&& self.phase is Select ==> {
            &&& self.undo_stack.len() == 0
            &&& self.active_tool is NoTool
        }
        &&& self.phase is Edit ==> {
            &&& self.drag_start is None
            &&& self.drag_cur is None
            &&& self.hover_rect is None
        }
        // Interaction state belongs to the active tool.
        &&& self.tool_drag_start is Some || self.tool_drag_cur is Some ==> is_drag_tool(
            self.active_tool,
        )
        &&& self.pencil_points.len() > 0 ==> self.active_tool is Pencil
        &&& self.text_editing ==> self.active_tool is Text && self.text_anchor is Some
        // The undo stack is bounded.
        &&& stack_fits(self.undo_stack)
        // A session is done exactly when it has an outcome.
        &&& self.finished <==> self.result is Some
    }

    /// The current selection, if any.
    pub open spec fn current_rect(self) -> Option<Rect> {
        match (self.drag_start, self.drag_cur) {
            (Some(a), Some(b)) => Some(Rect::spanning(a, b)),
            _ => None,
        }
    }

    /// No tool interaction in flight.
    pub open spec fn cancel_in_progress(self) -> SessionView {
        SessionView {
            tool_drag_start: None,
            tool_drag_cur: None,
            pencil_points: Seq::empty(),
            text_editing: false,
            text_anchor: None,
            text_buf: Seq::empty(),
            text_wants_focus: false,
            ..self
        }
    }

    /// A tool interaction is in flight.
    pub open spec fn in_progress(self) -> bool {
        ||| self.tool_drag_start is Some
        ||| self.tool_drag_cur is Some
        ||| self.pencil_points.len() > 0
        ||| self.text_editing
    }

    /// No selection drag in flight.
    pub open spec fn clear_drag(self) -> SessionView {
        SessionView { drag_start: None, drag_cur: None, ..self }
    }

    /// The document replaced, its previous state on the undo stack.
    pub open spec fn commit_doc(self, new_doc: Picture) -> SessionView {
        SessionView {
            undo_stack: match self.doc {
                Some(before) => fitted(self.undo_stack.push(before)),
                None => self.undo_stack,
            },
            doc: Some(new_doc),
            doc_stale: true,
            ..self
        }
    }

    /// The newest snapshot back as the document.
    pub open spec fn undo(self) -> SessionView {
        if self.undo_stack.len() == 0 {
            self
        } else {
            SessionView {
                doc: Some(self.undo_stack.last()),
                undo_stack: self.undo_stack.drop_last(),
                doc_stale: true,
                ..self
            }
        }
    }

    /// The selection cropped and opened in the editor; unchanged if the crop
    /// is empty.
    pub open spec fn enter_edit(self, sel: Rect, px: CropPx) -> SessionView {
        if imageops::crop_is_empty(
            self.full_image,
            px.x as int,
            px.y as int,
            px.w as int,
            px.h as int,
        ) {
            self
        } else {
            SessionView {
                doc: Some(
                    imageops::crop_of(
                        self.full_image,
                        px.x as int,
                        px.y as int,
                        px.w as int,
                        px.h as int,
                    ),
                ),
                doc_stale: true,
                doc_rect: Some(sel),
                undo_stack: Seq::empty(),
                active_tool: Tool::NoTool,
                hover_rect: None,
                drag_start: None,
                drag_cur: None,
                phase: Phase::Edit,
                ..self.cancel_in_progress()
            }
        }
    }

    /// Back to selecting, on the same screenshot.
    pub open spec fn new_selection(self) -> SessionView {
        SessionView {
            phase: Phase::Select,
            doc: None,
            doc_stale: true,
            doc_rect: None,
            undo_stack: Seq::empty(),
            active_tool: Tool::NoTool,
            drag_start: None,
            drag_cur: None,
            hover_rect: None,
            ..self.cancel_in_progress()
        }
    }

    /// Done, with an outcome.
    pub open spec fn finish(self, outcome: OutcomeView) -> SessionView {
        SessionView { finished: true, result: Some(outcome), ..self }
    }

    /// A tool switched on, or off if it was active.
    pub open spec fn toggle_tool(self, tool: Tool) -> SessionView {
        SessionView {
            active_tool: if self.active_tool == tool {
                Tool::NoTool
            } else {
                tool
            },
            ..self.cancel_in_progress()
        }
    }

    /// Esc or a close request: the first Esc during a tool interaction only
    /// cancels that interaction; anything else ends the session.
    pub open spec fn dismiss(self, close_requested: bool) -> SessionView {
        let quiet = self.clear_drag().cancel_in_progress();
        if self.phase is Edit && !close_requested && self.in_progress() {
            quiet
        } else {
            quiet.finish(OutcomeView::Cancel)
        }
    }

    /// Enter: open the current selection if it is real, and drop the drag.
    pub open spec fn confirm(self, i: FrameInput) -> SessionView {
        let opened = match (self.current_rect(), i.selection) {
            (Some(sel), Some(m)) => if is_real_drag(m.extent_x, m.extent_y) {
                self.enter_edit(sel, m.px)
            } else {
                self
            },
            _ => self,
        };
        opened.clear_drag()
    }

    /// Pointer released: open a real selection, else the window under the
    /// pointer; drop the drag.
    pub open spec fn release(self, i: FrameInput) -> SessionView {
        let snapped = match i.snap {
            Some(w) => self.enter_edit(w.rect, w.px),
            None => self,
        };
        let opened = match (self.current_rect(), i.selection) {
            (Some(sel), Some(m)) => if is_real_drag(m.extent_x, m.extent_y) {
                self.enter_edit(sel, m.px)
            } else {
                snapped
            },
            _ => snapped,
        };
        opened.clear_drag()
    }

    /// Pointer held: start or extend the selection drag.
    pub open spec fn drag_selection(self, i: FrameInput) -> SessionView {
        SessionView {
            drag_start: if self.drag_start is None {
                i.latest
            } else {
                self.drag_start
            },
            drag_cur: i.latest,
            ..self
        }
    }

    /// One frame of the select phase.
    pub open spec fn select_frame(self, i: FrameInput) -> SessionView {
        let s = if i.enter {
            self.confirm(i)
        } else {
            self
        };
        if s.phase is Edit {
            s
        } else if i.primary_down {
            s.drag_selection(i)
        } else if i.released {
            s.release(i)
        } else {
            s
        }
    }

    /// A toolbar action that ends the frame.
    pub open spec fn ends_frame(action: Option<ToolbarAction>) -> bool {
        match action {
            Some(ToolbarAction::New) => true,
            Some(ToolbarAction::Pin) => true,
            Some(ToolbarAction::Save) => true,
            Some(ToolbarAction::Copy) => true,
            Some(ToolbarAction::Cancel) => true,
            _ => false,
        }
    }

    /// A toolbar action applied.
    pub open spec fn act(self, action: Option<ToolbarAction>) -> SessionView {
        match action {
            None => self,
            Some(ToolbarAction::New) => self.new_selection(),
            Some(ToolbarAction::ToggleRect) => self.toggle_tool(Tool::Rect),
            Some(ToolbarAction::ToggleArrow) => self.toggle_tool(Tool::Arrow),
            Some(ToolbarAction::TogglePencil) => self.toggle_tool(Tool::Pencil),
            Some(ToolbarAction::ToggleText) => self.toggle_tool(Tool::Text),
            Some(ToolbarAction::ToggleBlur) => self.toggle_tool(Tool::Blur),
            Some(ToolbarAction::ToggleMosaic) => self.toggle_tool(Tool::Mosaic),
            Some(ToolbarAction::SetColor(c)) => SessionView { active_color: c, ..self },
            Some(ToolbarAction::SetWidth(w)) => SessionView { active_width: w, ..self },
            Some(ToolbarAction::Undo) => self.undo(),
            Some(ToolbarAction::Pin) => match self.doc {
                Some(p) => self.finish(OutcomeView::Pin(p)),
                None => self,
            },
            Some(ToolbarAction::Save) => match self.doc {
                Some(p) => self.finish(OutcomeView::Save(p)),
                None => self,
            },
            Some(ToolbarAction::Copy) => match self.doc {
                Some(p) => self.finish(OutcomeView::Copy(p)),
                None => self,
            },
            Some(ToolbarAction::Cancel) => self.finish(OutcomeView::Cancel),
        }
    }

    /// The pointer is on the document.
    pub open spec fn on_document(self, i: FrameInput) -> bool {
        match (self.doc_rect, i.latest) {
            (Some(r), Some(p)) => r.covers(p),
            _ => false,
        }
    }

    /// The stroke of a finished drag drawn on the document. A blur is left to
    /// [`SessionView::blur_job`].
    pub open spec fn stroke_drawn(self, s: Stroke) -> SessionView {
        match self.doc {
            None => self,
            Some(p) => match self.active_tool {
                Tool::Rect => self.commit_doc(
                    p.painted(
                        raster::border_ring(
                            raster::smaller(s.ax as int, s.bx as int),
                            raster::smaller(s.ay as int, s.by as int),
                            raster::larger(s.ax as int, s.bx as int),
                            raster::larger(s.ay as int, s.by as int),
                            raster::larger(s.width_px as int, 1),
                        ),
                        self.active_color,
                    ),
                ),
                Tool::Arrow => self.commit_doc(
                    p.painted(
                        raster::arrow(
                            s.ax as int,
                            s.ay as int,
                            s.bx as int,
                            s.by as int,
                            s.barbs,
                            raster::larger(s.width_px as int, 1),
                        ),
                        self.active_color,
                    ),
                ),
                Tool::Mosaic => if drag_box_counts(p, s) {
                    let b = drag_box(p, s);
                    self.commit_doc(
                        imageops::region_replaced(
                            p,
                            b.0,
                            b.1,
                            b.2,
                            b.3,
                            imageops::pixelated(
                                imageops::region_part(p, b.0, b.1, b.2, b.3),
                                raster::larger(s.block_px as int, 2),
                            ),
                        ),
                    )
                } else {
                    self
                },
                _ => self,
            },
        }
    }

    /// The box-drag tools: extend the drag on the document, or finish it.
    pub open spec fn box_tool(self, i: FrameInput) -> SessionView {
        if i.canvas_down {
            if self.on_document(i) {
                SessionView {
                    tool_drag_start: if self.tool_drag_start is None {
                        i.latest
                    } else {
                        self.tool_drag_start
                    },
                    tool_drag_cur: i.latest,
                    ..self
                }
            } else {
                self
            }
        } else if i.canvas_released && self.tool_drag_start is Some && self.tool_drag_cur is Some {
            let drawn = match i.stroke {
                Some(s) => if is_real_drag(s.extent_x, s.extent_y) {
                    self.stroke_drawn(s)
                } else {
                    self
                },
                None => self,
            };
            SessionView { tool_drag_start: None, tool_drag_cur: None, ..drawn }
        } else {
            self
        }
    }

    /// The freehand tool: extend the stroke on the document, or finish it.
    pub open spec fn pencil_tool(self, i: FrameInput) -> SessionView {
        if i.canvas_down {
            if self.on_document(i) && (self.pencil_points.len() == 0 || geometry::more_than(
                i.pencil_gap,
                PENCIL_SPACING,
            )) {
                SessionView {
                    pencil_points: self.pencil_points.push(i.latest->0),
                    ..self
                }
            } else {
                self
            }
        } else if i.canvas_released {
            let drawn = match self.doc {
                Some(p) => if self.pencil_points.len() >= 2 {
                    self.commit_doc(
                        p.painted(
                            raster::polyline(
                                i.pencil_px@,
                                raster::larger(i.width_px as int, 1),
                            ),
                            self.active_color,
                        ),
                    )
                } else {
                    self
                },
                None => self,
            };
            SessionView { pencil_points: Seq::empty(), ..drawn }
        } else {
            self
        }
    }

    /// The text tool: a click on the document opens a new input there.
    pub open spec fn text_tool(self, i: FrameInput) -> SessionView {
        if !self.text_editing && i.canvas_clicked && self.on_document(i) {
            SessionView {
                text_anchor: i.latest,
                text_buf: Seq::empty(),
                text_editing: true,
                text_wants_focus: true,
                ..self
            }
        } else {
            self
        }
    }

    /// The active tool's share of a frame.
    pub open spec fn use_tool(self, i: FrameInput) -> SessionView {
        if is_drag_tool(self.active_tool) {
            self.box_tool(i)
        } else if self.active_tool is Pencil {
            self.pencil_tool(i)
        } else if self.active_tool is Text {
            self.text_tool(i)
        } else {
            self
        }
    }

    /// One frame of the edit phase.
    pub open spec fn edit_frame(self, i: FrameInput) -> SessionView {
        let s = self.act(i.action);
        if SessionView::ends_frame(i.action) {
            s
        } else {
            s.use_tool(i)
        }
    }

    /// One frame.
    pub open spec fn frame(self, i: FrameInput) -> SessionView {
        if self.finished {
            self
        } else if i.esc || i.close_requested {
            self.dismiss(i.close_requested)
        } else if self.phase is Select {
            self.select_frame(i)
        } else {
            self.edit_frame(i)
        }
    }

    /// The region that a frame leaves to be blurred.
    pub open spec fn blur_job(self, i: FrameInput) -> Option<BlurJob> {
        let s = self.act(i.action);
        match (s.doc, i.stroke) {
            (Some(p), Some(m)) => if !self.finished && !i.esc && !i.close_requested
                && self.phase is Edit && !SessionView::ends_frame(i.action) && s.active_tool is Blur
                && !i.canvas_down && i.canvas_released && s.tool_drag_start is Some
                && s.tool_drag_cur is Some && is_real_drag(m.extent_x, m.extent_y)
                && drag_box_counts(p, m) {
                let b = drag_box(p, m);
                Some(BlurJob { x0: b.0 as i32, y0: b.1 as i32, x1: b.2 as i32, y1: b.3 as i32 })
            } else {
                None
            },
            _ => None,
        }
    }

    /// A blurred region put back into the document.
    pub open spec fn finish_blur(self, job: BlurJob, blurred: Picture) -> SessionView {
        match self.doc {
            Some(p) => self.commit_doc(
                imageops::region_replaced(
                    p,
                    job.x0 as int,
                    job.y0 as int,
                    job.x1 as int,
                    job.y1 as int,
                    blurred,
                ),
            ),
            None => self,
        }
    }

    /// The text state cleared.
    pub open spec fn clear_text(self) -> SessionView {
        SessionView {
            text_editing: false,
            text_anchor: None,
            text_buf: Seq::empty(),
            text_wants_focus: false,
            ..self
        }
    }

    /// The text that committing leaves to be drawn: the trimmed buffer, unless
    /// it is empty.
    pub open spec fn text_due(self) -> bool {
        &&& self.text_anchor is Some
        &&& self.doc_rect is Some
        &&& self.doc is Some
        &&& text::trimmed(self.text_buf).len() > 0
    }

    /// A text input is shown.
    pub open spec fn text_open(self) -> bool {
        &&& self.phase is Edit
        &&& self.active_tool is Text
        &&& self.text_editing
        &&& self.text_anchor is Some
    }

    /// What the text input left in its buffer.
    pub open spec fn text_typed(self, buf: Seq<char>) -> SessionView {
        SessionView { text_buf: buf, text_wants_focus: false, ..self }
    }

    /// The window under the pointer, remembered while nothing is dragged.
    pub open spec fn hover(self, under: Option<Rect>) -> SessionView {
        SessionView {
            hover_rect: if self.phase is Select && self.drag_start is None {
                under
            } else {
                None
            },
            ..self
        }
    }
}

/// Dropping oldest snapshots ends in a stack that respects both limits, and
/// what is left are the newest snapshots, in order.
pub proof fn law_undo_stack_keeps_newest(stack: Seq<Picture>)
    ensures
        stack_fits(fitted(stack)),
        fitted(stack).len() <= stack.len(),
        stack.len() > 0 ==> fitted(stack).len() > 0,
        fitted(stack) == stack.subrange(
            stack.len() - fitted(stack).len(),
            stack.len() as int,
        ),
    decreases stack.len(),
{
    if stack.len() == 0 || stack_fits(stack) {
        assert(stack.subrange(0, stack.len() as int) =~= stack);
    } else {
        let rest = stack.subrange(1, stack.len() as int);
        law_undo_stack_keeps_newest(rest);
        let n = fitted(rest).len();
        assert(rest.subrange(rest.len() - n, rest.len() as int) =~= stack.subrange(
            stack.len() - n,
            stack.len() as int,
        ));
    }
}

/// A snapshot more or less changes the byte count by its own size.
proof fn lemma_stack_bytes_push(stack: Seq<Picture>, p: Picture)
    ensures
        stack_bytes(stack.push(p)) == stack_bytes(stack) + picture_bytes(p),
{
    assert(stack.push(p).drop_last() =~= stack);
}

/// A session's invariant survives dropping the newest snapshot.
proof fn lemma_stack_fits_less(stack: Seq<Picture>)
    requires
        stack.len() > 0,
        stack_fits(stack),
    ensures
        stack_fits(stack.drop_last()),
{
}

proof fn lemma_commit_keeps(s: SessionView, p: Picture)
    requires
        s.inv(),
        s.doc is Some,
        p.wf(),
    ensures
        s.commit_doc(p).inv(),
{
    let pushed = s.undo_stack.push(s.doc->0);
    law_undo_stack_keeps_newest(pushed);
    let r = s.commit_doc(p);
    assert forall|i: int| 0 <= i < r.undo_stack.len() implies (#[trigger] r.undo_stack[i]).wf() by {
        assert(r.undo_stack[i] == pushed[pushed.len() - r.undo_stack.len() + i]);
    }
}

proof fn lemma_act_keeps(s: SessionView, action: Option<ToolbarAction>)
    requires
        s.inv(),
        s.phase is Edit,
        !s.finished,
    ensures
        s.act(action).inv(),
        !SessionView::ends_frame(action) ==> s.act(action).phase is Edit && !s.act(action).finished,
{
    if s.undo_stack.len() > 0 {
        lemma_stack_fits_less(s.undo_stack);
    }
}

proof fn lemma_use_tool_keeps(s: SessionView, i: FrameInput)
    requires
        s.inv(),
        s.phase is Edit,
        !s.finished,
    ensures
        s.use_tool(i).inv(),
{
    let p = s.doc->0;
    assert forall|q: Picture| #[trigger] q.wf() implies s.commit_doc(q).inv() by {
        lemma_commit_keeps(s, q);
    }
    if let Some(m) = i.stroke {
        let ring = raster::border_ring(
            raster::smaller(m.ax as int, m.bx as int),
            raster::smaller(m.ay as int, m.by as int),
            raster::larger(m.ax as int, m.bx as int),
            raster::larger(m.ay as int, m.by as int),
            raster::larger(m.width_px as int, 1),
        );
        let arrow = raster::arrow(
            m.ax as int,
            m.ay as int,
            m.bx as int,
            m.by as int,
            m.barbs,
            raster::larger(m.width_px as int, 1),
        );
        assert(p.painted(ring, s.active_color).wf());
        assert(p.painted(arrow, s.active_color).wf());
        let b = drag_box(p, m);
        let part = imageops::pixelated(
            imageops::region_part(p, b.0, b.1, b.2, b.3),
            raster::larger(m.block_px as int, 2),
        );
        assert(imageops::region_replaced(p, b.0, b.1, b.2, b.3, part).wf());
        assert(s.stroke_drawn(m).inv());
    }
    let line = raster::polyline(i.pencil_px@, raster::larger(i.width_px as int, 1));
    assert(p.painted(line, s.active_color).wf());
}

/// Every frame keeps the session's invariant.
pub proof fn law_frame_keeps_invariant(s: SessionView, i: FrameInput)
    requires
        s.inv(),
    ensures
        s.frame(i).inv(),
{
    if s.finished || i.esc || i.close_requested {
    } else if s.phase is Select {
        assert forall|sel: Rect, px: CropPx| (#[trigger] s.enter_edit(sel, px)).inv() by {}
    } else {
        lemma_act_keeps(s, i.action);
        if !SessionView::ends_frame(i.action) {
            lemma_use_tool_keeps(s.act(i.action), i);
        }
    }
}

impl EditorOutcome {
    /// The outcome's image, if any, is well-formed.
    pub open spec fn wf(self) -> bool {
        match self {
            EditorOutcome::Pin(img) => img.wf(),
            EditorOutcome::Save(img) => img.wf(),
            EditorOutcome::Copy(img) => img.wf(),
            EditorOutcome::Cancel => true,
        }
    }
}

/// Clone an optional image.
fn clone_doc(doc: &Option<RgbaImage>) -> (r: Option<RgbaImage>)
    ensures
        r is Some <==> doc is Some,
        r matches Some(img) ==> img@ == (*doc)->0@ && img.wf() == (*doc)->0.wf(),
{
    match doc {
        Some(img) => Some(img.clone()),
        None => None,
    }
}

impl RegionSession {
    /// The images are well-formed and the model keeps its invariant.
    pub open spec fn wf(self) -> bool {
        &&& self.images_wf()
        &&& self@.inv()
    }

    /// All images are well-formed.
    pub open spec fn images_wf(self) -> bool {
        &&& self.full_image.wf()
        &&& self.doc matches Some(img) ==> img.wf()
        &&& forall|i: int| 0 <= i < self.undo_stack@.len() ==> (#[trigger] self.undo_stack@[i]).wf()
        &&& self.result matches Some(outcome) ==> outcome.wf()
    }

    /// A session over a screenshot, ready for selecting.
    pub fn new(full_image: RgbaImage) -> (r: RegionSession)
        requires
            full_image.wf(),
        ensures
            r.wf(),
            r@ == (SessionView {
                full_image: full_image@,
                origin_physical: (0, 0),
                phase: Phase::Select,
                drag_start: None,
                drag_cur: None,
                hover_rect: None,
                active_tool: Tool::NoTool,
                active_color: active_color_default(),
                active_width: ACTIVE_WIDTH_DEFAULT,
                doc: None,
                doc_stale: false,
                doc_rect: None,
                undo_stack: Seq::empty(),
                tool_drag_start: None,
                tool_drag_cur: None,
                pencil_points: Seq::empty(),
                text_anchor: None,
                text_buf: Seq::empty(),
                text_editing: false,
                text_wants_focus: false,
                finished: false,
                result: None,
            }),
    {
        proof {
            full_image.lemma_wf();
        }
        let r = RegionSession {
            full_image,
            origin_physical: (0, 0),
            phase: Phase::Select,
            drag_start: None,
            drag_cur: None,
            hover_rect: None,
            active_tool: Tool::NoTool,
            active_color: Rgba { r: 0x26, g: 0x8b, b: 0xd2, a: 255 },
            active_width: ACTIVE_WIDTH_DEFAULT,
            doc: None,
            doc_stale: false,
            doc_rect: None,
            undo_stack: Vec::new(),
            tool_drag_start: None,
            tool_drag_cur: None,
            pencil_points: Vec::new(),
            text_anchor: None,
            text_buf: String::new(),
            text_editing: false,
            text_wants_focus: false,
            finished: false,
            result: None,
        };
        assert(r@.undo_stack =~= Seq::empty());
        assert(r@.pencil_points =~= Seq::empty());
        r
    }

    /// Current selection, if any.
    pub fn current_rect(&self) -> (r: Option<Rect>)
        ensures
            r == self@.current_rect(),
    {
        match (self.drag_start, self.drag_cur) {
            (Some(a), Some(b)) => Some(Rect::from_two_pos(a, b)),
            _ => None,
        }
    }

    /// What the select phase highlights: the selection, else the window under
    /// the pointer.
    pub fn preview_rect(&self) -> (r: Option<Rect>)
        ensures
            r == if self@.current_rect() is Some {
                self@.current_rect()
            } else {
                self@.hover_rect
            },
    {
        match self.current_rect() {
            Some(sel) => Some(sel),
            None => self.hover_rect,
        }
    }

    /// Remember the window under the pointer while nothing is dragged.
    pub fn update_hover(&mut self, under: Option<Rect>)
        requires
            old(self).wf(),
        ensures
            final(self).wf(),
            final(self)@ == old(self)@.hover(under),
    {
        self.hover_rect = match self.phase {
            Phase::Select => if self.drag_start.is_none() {
                under
            } else {
                None
            },
            Phase::Edit => None,
        };
    }

    /// Clear all in-progress tool interaction: a drag in flight, a freehand
    /// stroke, or an open text input.
    pub fn cancel_in_progress(&mut self)
        requires
            old(self).wf(),
        ensures
            final(self).wf(),
            final(self)@ == old(self)@.cancel_in_progress(),
    {
        self.tool_drag_start = None;
        self.tool_drag_cur = None;
        self.pencil_points = Vec::new();
        self.text_editing = false;
        self.text_anchor = None;
        self.text_buf = String::new();
        self.text_wants_focus = false;
        assert(self@ =~= old(self)@.cancel_in_progress());
    }

    /// The displayed document has been uploaded.
    pub fn doc_uploaded(&mut self)
        requires
            old(self).wf(),
        ensures
            final(self).wf(),
            final(self)@ == (SessionView { doc_stale: false, ..old(self)@ }),
    {
        self.doc_stale = false;
    }

    /// Total bytes held in the undo stack.
    pub fn undo_bytes(&self) -> (r: u128)
        requires
            self.images_wf(),
        ensures
            r == stack_bytes(self@.undo_stack),
    {
        let count: usize = self.undo_stack.len();
        let mut sum: u128 = 0;
        let mut i: usize = 0;
        while i < count
            invariant
                self.images_wf(),
                count == self.undo_stack@.len(),
                i <= count,
                sum == stack_bytes(self@.undo_stack.subrange(0, i as int)),
                sum <= i * 0x4000_0000_0000_0000,
            decreases count - i,
        {
            let bytes: usize = self.undo_stack[i].as_raw().len();
            proof {
                let all = self@.undo_stack;
                self.undo_stack@[i as int].lemma_wf();
                assert(all.subrange(0, i + 1) =~= all.subrange(0, i as int).push(all[i as int]));
                lemma_stack_bytes_push(all.subrange(0, i as int), all[i as int]);
                assert(i * 0x4000_0000_0000_0000 <= usize::MAX * 0x4000_0000_0000_0000)
                    by (nonlinear_arith)
                    requires
                        i <= usize::MAX,
                ;
                assert((i + 1) * 0x4000_0000_0000_0000 == i * 0x4000_0000_0000_0000
                    + 0x4000_0000_0000_0000) by (nonlinear_arith);
            }
            sum = sum + bytes as u128;
            i = i + 1;
        }
        assert(self@.undo_stack.subrange(0, count as int) =~= self@.undo_stack);
        sum
    }

    /// Commit a changed document: the current one goes onto the undo stack,
    /// bounded by count and by bytes, and the new one takes its place.
    pub fn commit_doc(&mut self, new_doc: RgbaImage)
        requires
            old(self).wf(),
            old(self)@.doc is Some,
            new_doc.wf(),
        ensures
            final(self).wf(),
            final(self)@ == old(self)@.commit_doc(new_doc@),
    {
        proof {
            new_doc.lemma_wf();
            lemma_commit_keeps(self@, new_doc@);
        }
        if let Some(before) = self.doc.take() {
            let ghost pushed = self@.undo_stack.push(before@);
            self.undo_stack.push(before);
            assert(self@.undo_stack =~= pushed);
            while self.undo_stack.len() > UNDO_CAP
                invariant
                    self.images_wf(),
                    self.doc is None,
                    fitted(self@.undo_stack) == fitted(pushed),
                    self@ == (SessionView { undo_stack: self@.undo_stack, doc: None, ..old(self)@ }),
                decreases self.undo_stack@.len(),
            {
                let ghost stack = self@.undo_stack;
                self.undo_stack.remove(0);
                assert(self@.undo_stack =~= stack.subrange(1, stack.len() as int));
            }
            while self.undo_stack.len() > 1 && self.undo_bytes() > UNDO_BYTES_BUDGET as u128
                invariant
                    self.images_wf(),
                    self.doc is None,
                    self@.undo_stack.len() <= UNDO_CAP,
                    fitted(self@.undo_stack) == fitted(pushed),
                    self@ == (SessionView { undo_stack: self@.undo_stack, doc: None, ..old(self)@ }),
                decreases self.undo_stack@.len(),
            {
                let ghost stack = self@.undo_stack;
                self.undo_stack.remove(0);
                assert(self@.undo_stack =~= stack.subrange(1, stack.len() as int));
            }
            assert(stack_fits(self@.undo_stack));
        }
        self.doc = Some(new_doc);
        self.doc_stale = true;
        assert(self@ =~= old(self)@.commit_doc(new_doc@));
    }

    /// Put the newest snapshot back as the document; nothing to undo changes
    /// nothing.
    pub fn undo(&mut self)
        requires
            old(self).wf(),
        ensures
            final(self).wf(),
            final(self)@ == old(self)@.undo(),
    {
        proof {
            if self@.undo_stack.len() > 0 {
                lemma_stack_fits_less(self@.undo_stack);
            }
        }
        if let Some(before) = self.undo_stack.pop() {
            self.doc = Some(before);
            self.doc_stale = true;
            assert(self@.undo_stack =~= old(self)@.undo_stack.drop_last());
            assert(self@ =~= old(self)@.undo());
        } else {
            assert(self@ =~= old(self)@.undo());
        }
    }

    /// Move from selecting to editing: the selection is cropped and becomes
    /// the document. An empty crop changes nothing.
    pub fn enter_edit(&mut self, sel: Rect, px: CropPx)
        requires
            old(self).wf(),
        ensures
            final(self).wf(),
            final(self)@ == old(self)@.enter_edit(sel, px),
    {
        let cropped = match imageops::crop(&self.full_image, px.x, px.y, px.w, px.h) {
            Some(img) => img,
            None => {
                return;
            },
        };
        proof {
            cropped.lemma_wf();
        }
        self.cancel_in_progress();
        self.doc = Some(cropped);
        self.doc_stale = true;
        self.doc_rect = Some(sel);
        self.undo_stack = Vec::new();
        self.active_tool = Tool::NoTool;
        self.hover_rect = None;
        self.drag_start = None;
        self.drag_cur = None;
        self.phase = Phase::Edit;
        assert(self@ =~= old(self)@.enter_edit(sel, px));
    }

    /// Back to selecting, on the same screenshot.
    pub fn new_selection(&mut self)
        requires
            old(self).wf(),
        ensures
            final(self).wf(),
            final(self)@ == old(self)@.new_selection(),
    {
        self.cancel_in_progress();
        self.phase = Phase::Select;
        self.doc = None;
        self.doc_stale = true;
        self.doc_rect = None;
        self.undo_stack = Vec::new();
        self.active_tool = Tool::NoTool;
        self.drag_start = None;
        self.drag_cur = None;
        self.hover_rect = None;
        assert(self@ =~= old(self)@.new_selection());
    }

    /// Switch a tool on, or off if it is active. Any interaction in flight is
    /// cancelled first.
    pub fn toggle_tool(&mut self, tool: Tool)
        requires
            old(self).wf(),
            old(self)@.phase is Edit,
        ensures
            final(self).wf(),
            final(self)@ == old(self)@.toggle_tool(tool),
    {
        self.cancel_in_progress();
        self.active_tool = if self.active_tool == tool {
            Tool::NoTool
        } else {
            tool
        };
        assert(self@ =~= old(self)@.toggle_tool(tool));
    }

    /// Apply a toolbar action.
    pub fn act(&mut self, action: Option<ToolbarAction>)
        requires
            old(self).wf(),
            old(self)@.phase is Edit,
            !old(self)@.finished,
        ensures
            final(self).wf(),
            final(self)@ == old(self)@.act(action),
    {
        proof {
            lemma_act_keeps(self@, action);
        }
        match action {
            None => {},
            Some(ToolbarAction::New) => {
                self.new_selection();
            },
            Some(ToolbarAction::ToggleRect) => {
                self.toggle_tool(Tool::Rect);
            },
            Some(ToolbarAction::ToggleArrow) => {
                self.toggle_tool(Tool::Arrow);
            },
            Some(ToolbarAction::TogglePencil) => {
                self.toggle_tool(Tool::Pencil);
            },
            Some(ToolbarAction::ToggleText) => {
                self.toggle_tool(Tool::Text);
            },
            Some(ToolbarAction::ToggleBlur) => {
                self.toggle_tool(Tool::Blur);
            },
            Some(ToolbarAction::ToggleMosaic) => {
                self.toggle_tool(Tool::Mosaic);
            },
            Some(ToolbarAction::SetColor(c)) => {
                self.active_color = c;
            },
            Some(ToolbarAction::SetWidth(w)) => {
                self.active_width = w;
            },
            Some(ToolbarAction::Undo) => {
                self.undo();
            },
            Some(ToolbarAction::Pin) => {
                if let Some(img) = clone_doc(&self.doc) {
                    self.finished = true;
                    self.result = Some(EditorOutcome::Pin(img));
                }
            },
            Some(ToolbarAction::Save) => {
                if let Some(img) = clone_doc(&self.doc) {
                    self.finished = true;
                    self.result = Some(EditorOutcome::Save(img));
                }
            },
            Some(ToolbarAction::Copy) => {
                if let Some(img) = clone_doc(&self.doc) {
                    self.finished = true;
                    self.result = Some(EditorOutcome::Copy(img));
                }
            },
            Some(ToolbarAction::Cancel) => {
                self.finished = true;
                self.result = Some(EditorOutcome::Cancel);
            },
        }
        assert(self@ =~= old(self)@.act(action));
    }

    /// Esc or a close request.
    fn dismiss(&mut self, close_requested: bool)
        requires
            old(self).wf(),
            !old(self)@.finished,
        ensures
            final(self).wf(),
            final(self)@ == old(self)@.dismiss(close_requested),
    {
        let editing = match self.phase {
            Phase::Edit => true,
            Phase::Select => false,
        };
        let in_progress = editing && !close_requested && (self.tool_drag_start.is_some()
            || self.tool_drag_cur.is_some() || self.pencil_points.len() > 0 || self.text_editing);
        self.drag_start = None;
        self.drag_cur = None;
        self.cancel_in_progress();
        if !in_progress {
            self.finished = true;
            self.result = Some(EditorOutcome::Cancel);
        }
        assert(self@ =~= old(self)@.dismiss(close_requested));
    }

    /// One frame of the select phase.
    fn select_frame(&mut self, input: &FrameInput)
        requires
            old(self).wf(),
            old(self)@.phase is Select,
            !old(self)@.finished,
        ensures
            final(self).wf(),
            final(self)@ == old(self)@.select_frame(*input),
    {
        if input.enter {
            if let Some(sel) = self.current_rect() {
                if let Some(m) = input.selection {
                    if real_drag(m.extent_x, m.extent_y) {
                        self.enter_edit(sel, m.px);
                    }
                }
            }
            self.drag_start = None;
            self.drag_cur = None;
            assert(self@ =~= old(self)@.confirm(*input));
            match self.phase {
                Phase::Edit => {
                    return;
                },
                Phase::Select => {},
            }
        }
        let ghost s = self@;
        if input.primary_down {
            if self.drag_start.is_none() {
                self.drag_start = input.latest;
            }
            self.drag_cur = input.latest;
            assert(self@ =~= s.drag_selection(*input));
        } else if input.released {
            let mut dragged = false;
            if let Some(sel) = self.current_rect() {
                if let Some(m) = input.selection {
                    if real_drag(m.extent_x, m.extent_y) {
                        dragged = true;
                        self.enter_edit(sel, m.px);
                    }
                }
            }
            if !dragged {
                if let Some(w) = input.snap {
                    self.enter_edit(w.rect, w.px);
                }
            }
            self.drag_start = None;
            self.drag_cur = None;
            assert(self@ =~= s.release(*input));
        }
    }

    /// The pointer's position, if it is on the document.
    fn pointer_on_document(&self, input: &FrameInput) -> (r: Option<Pos2>)
        ensures
            r is Some <==> self@.on_document(*input),
            r is Some ==> r == input.latest,
    {
        match (self.doc_rect, input.latest) {
            (Some(rect), Some(p)) => if rect.contains(p) {
                Some(p)
            } else {
                None
            },
            _ => None,
        }
    }

    /// Draw the stroke of a finished drag. A blur is returned as a region to
    /// be blurred.
    fn draw_stroke(&mut self, m: &Stroke) -> (r: Option<BlurJob>)
        requires
            old(self).wf(),
            old(self)@.phase is Edit,
        ensures
            final(self).wf(),
            final(self)@ == old(self)@.stroke_drawn(*m),
            ({
                let p = old(self)@.doc->0;
                let b = drag_box(p, *m);
                &&& r is Some <==> old(self)@.active_tool is Blur && drag_box_counts(p, *m)
                &&& r matches Some(job) ==> job == (BlurJob {
                    x0: b.0 as i32,
                    y0: b.1 as i32,
                    x1: b.2 as i32,
                    y1: b.3 as i32,
                })
            }),
    {
        let mut nd = match clone_doc(&self.doc) {
            Some(img) => img,
            None => {
                return None;
            },
        };
        proof {
            nd.lemma_wf();
        }
        let w: i32 = if nd.width() > i32::MAX as u32 { i32::MAX } else { nd.width() as i32 };
        let h: i32 = if nd.height() > i32::MAX as u32 { i32::MAX } else { nd.height() as i32 };
        match self.active_tool {
            Tool::Rect => {
                raster::rasterize_rect(
                    &mut nd,
                    m.ax,
                    m.ay,
                    m.bx,
                    m.by,
                    m.width_px,
                    self.active_color,
                );
                self.commit_doc(nd);
                None
            },
            Tool::Arrow => {
                raster::rasterize_arrow(
                    &mut nd,
                    m.ax,
                    m.ay,
                    m.bx,
                    m.by,
                    m.barbs,
                    m.width_px,
                    self.active_color,
                );
                self.commit_doc(nd);
                None
            },
            Tool::Blur => match imageops::drag_region_physical(m.ax, m.ay, m.bx, m.by, w, h) {
                Some((x0, y0, x1, y1)) => Some(BlurJob { x0, y0, x1, y1 }),
                None => None,
            },
            Tool::Mosaic => {
                if let Some((x0, y0, x1, y1)) = imageops::drag_region_physical(
                    m.ax,
                    m.ay,
                    m.bx,
                    m.by,
                    w,
                    h,
                ) {
                    let block: u32 = if m.block_px < 2 { 2 } else { m.block_px };
                    let changed = imageops::apply_mosaic_region(&nd, x0, y0, x1, y1, block);
                    self.commit_doc(changed);
                }
                None
            },
            _ => None,
        }
    }

    /// The box-drag tools' share of a frame.
    fn box_tool(&mut self, input: &FrameInput) -> (r: Option<BlurJob>)
        requires
            old(self).wf(),
            old(self)@.phase is Edit,
            is_drag_tool(old(self)@.active_tool),
        ensures
            final(self).wf(),
            final(self)@ == old(self)@.box_tool(*input),
            ({
                let s = old(self)@;
                let p = s.doc->0;
                let b = drag_box(p, input.stroke->0);
                &&& r is Some <==> {
                    &&& s.active_tool is Blur
                    &&& !input.canvas_down
                    &&& input.canvas_released
                    &&& s.tool_drag_start is Some
                    &&& s.tool_drag_cur is Some
                    &&& input.stroke is Some
                    &&& is_real_drag(input.stroke->0.extent_x, input.stroke->0.extent_y)
                    &&& drag_box_counts(p, input.stroke->0)
                }
                &&& r matches Some(job) ==> job == (BlurJob {
                    x0: b.0 as i32,
                    y0: b.1 as i32,
                    x1: b.2 as i32,
                    y1: b.3 as i32,
                })
            }),
    {
        let mut job: Option<BlurJob> = None;
        if input.canvas_down {
            if let Some(p) = self.pointer_on_document(input) {
                if self.tool_drag_start.is_none() {
                    self.tool_drag_start = Some(p);
                }
                self.tool_drag_cur = Some(p);
            }
        } else if input.canvas_released && self.tool_drag_start.is_some()
            && self.tool_drag_cur.is_some() {
            if let Some(m) = input.stroke {
                if real_drag(m.extent_x, m.extent_y) {
                    job = self.draw_stroke(&m);
                }
            }
            self.tool_drag_start = None;
            self.tool_drag_cur = None;
        }
        assert(self@ =~= old(self)@.box_tool(*input));
        job
    }

    /// The freehand tool's share of a frame.
    fn pencil_tool(&mut self, input: &FrameInput)
        requires
            old(self).wf(),
            old(self)@.phase is Edit,
            old(self)@.active_tool is Pencil,
        ensures
            final(self).wf(),
            final(self)@ == old(self)@.pencil_tool(*input),
    {
        if input.canvas_down {
            if let Some(p) = self.pointer_on_document(input) {
                if self.pencil_points.len() == 0 || geometry::exceeds(
                    input.pencil_gap,
                    PENCIL_SPACING,
                ) {
                    self.pencil_points.push(p);
                }
            }
        } else if input.canvas_released {
            if self.pencil_points.len() >= 2 {
                if let Some(mut nd) = clone_doc(&self.doc) {
                    raster::rasterize_pencil(
                        &mut nd,
                        &input.pencil_px,
                        input.width_px,
                        self.active_color,
                    );
                    self.commit_doc(nd);
                }
            }
            self.pencil_points = Vec::new();
        }
        assert(self@ =~= old(self)@.pencil_tool(*input));
    }

    /// The text tool's share of a frame.
    fn text_tool(&mut self, input: &FrameInput)
        requires
            old(self).wf(),
            old(self)@.phase is Edit,
            old(self)@.active_tool is Text,
        ensures
            final(self).wf(),
            final(self)@ == old(self)@.text_tool(*input),
    {
        if !self.text_editing && input.canvas_clicked {
            if let Some(p) = self.pointer_on_document(input) {
                self.text_anchor = Some(p);
                self.text_buf = String::new();
                self.text_editing = true;
                self.text_wants_focus = true;
            }
        }
        assert(self@ =~= old(self)@.text_tool(*input));
    }

    /// Apply one frame's input. A finished session takes no more input.
    ///
    /// A blur that the frame asks for is returned as a region of the document:
    /// the caller blurs its pixels and hands them to
    /// [`RegionSession::finish_blur`].
    pub fn apply_input(&mut self, input: &FrameInput) -> (r: Option<BlurJob>)
        requires
            old(self).wf(),
        ensures
            final(self).wf(),
            final(self)@ == old(self)@.frame(*input),
            r == old(self)@.blur_job(*input),
    {
        if self.finished {
            return None;
        }
        if input.esc || input.close_requested {
            self.dismiss(input.close_requested);
            return None;
        }
        match self.phase {
            Phase::Select => {
                self.select_frame(input);
                None
            },
            Phase::Edit => {
                proof {
                    lemma_act_keeps(self@, input.action);
                }
                self.act(input.action);
                match input.action {
                    Some(ToolbarAction::New)
                    | Some(ToolbarAction::Pin)
                    | Some(ToolbarAction::Save)
                    | Some(ToolbarAction::Copy)
                    | Some(ToolbarAction::Cancel) => {
                        return None;
                    },
                    _ => {},
                }
                match self.active_tool {
                    Tool::NoTool => None,
                    Tool::Rect | Tool::Arrow | Tool::Blur | Tool::Mosaic => self.box_tool(input),
                    Tool::Pencil => {
                        self.pencil_tool(input);
                        None
                    },
                    Tool::Text => {
                        self.text_tool(input);
                        None
                    },
                }
            },
        }
    }

    /// The document's pixels that a blur works on.
    pub fn blur_pixels(&self, job: &BlurJob) -> (r: Option<RgbaImage>)
        requires
            self.wf(),
        ensures
            r is Some <==> self@.doc is Some && !imageops::region_is_empty(
                self@.doc->0,
                job.x0 as int,
                job.y0 as int,
                job.x1 as int,
                job.y1 as int,
            ),
            r matches Some(part) ==> part.wf() && part@ == imageops::region_part(
                self@.doc->0,
                job.x0 as int,
                job.y0 as int,
                job.x1 as int,
                job.y1 as int,
            ),
    {
        match &self.doc {
            Some(img) => imageops::blur_source(img, job.x0, job.y0, job.x1, job.y1),
            None => None,
        }
    }

    /// Commit a blur: the blurred pixels replace those of
    /// [`RegionSession::blur_pixels`].
    pub fn finish_blur(&mut self, job: &BlurJob, blurred: &RgbaImage)
        requires
            old(self).wf(),
            blurred.wf(),
            old(self)@.doc matches Some(p) ==> imageops::region_is_empty(
                p,
                job.x0 as int,
                job.y0 as int,
                job.x1 as int,
                job.y1 as int,
            ) || blurred@.same_size(
                imageops::region_part(
                    p,
                    job.x0 as int,
                    job.y0 as int,
                    job.x1 as int,
                    job.y1 as int,
                ),
            ),
        ensures
            final(self).wf(),
            final(self)@ == old(self)@.finish_blur(*job, blurred@),
    {
        let changed = match &self.doc {
            Some(img) => imageops::apply_blur_region(
                img,
                job.x0,
                job.y0,
                job.x1,
                job.y1,
                blurred,
            ),
            None => {
                return;
            },
        };
        self.commit_doc(changed);
    }

    /// Close the text input. Its trimmed text is returned to be drawn, unless
    /// it is empty.
    pub fn commit_text(&mut self) -> (r: Option<TextJob>)
        requires
            old(self).wf(),
        ensures
            final(self).wf(),
            final(self)@ == old(self)@.clear_text(),
            r is Some <==> old(self)@.text_due(),
            r matches Some(job) ==> {
                &&& Some(job.anchor) == old(self)@.text_anchor
                &&& job.text@ == text::trimmed(old(self)@.text_buf)
                &&& job.color == old(self)@.active_color
            },
    {
        let trimmed = self.text_buf.as_str().trim().to_string();
        let mut job: Option<TextJob> = None;
        if let Some(anchor) = self.text_anchor {
            if self.doc_rect.is_some() && self.doc.is_some() && !trimmed.as_str().is_empty() {
                job = Some(TextJob { anchor, text: trimmed, color: self.active_color });
            }
        }
        self.text_editing = false;
        self.text_anchor = None;
        self.text_buf = String::new();
        self.text_wants_focus = false;
        assert(self@ =~= old(self)@.clear_text());
        job
    }

    /// What the open text input did in this frame. Enter, or the loss of the
    /// keyboard focus, commits the text; Esc leaves it to
    /// [`RegionSession::apply_input`], which cancels it.
    pub fn text_frame(
        &mut self,
        buf: String,
        lost_focus: bool,
        enter: bool,
        esc: bool,
    ) -> (r: Option<TextJob>)
        requires
            old(self).wf(),
        ensures
            final(self).wf(),
            ({
                let s = old(self)@;
                let typed = s.text_typed(buf@);
                let commits = s.text_open() && (lost_focus || enter) && !esc;
                &&& !s.text_open() ==> final(self)@ == s
                &&& s.text_open() && !commits ==> final(self)@ == typed
                &&& commits ==> final(self)@ == typed.clear_text()
                &&& r is Some <==> commits && typed.text_due()
                &&& r matches Some(job) ==> {
                    &&& Some(job.anchor) == s.text_anchor
                    &&& job.text@ == text::trimmed(buf@)
                    &&& job.color == s.active_color
                }
            }),
    {
        let open = match self.phase {
            Phase::Edit => match self.active_tool {
                Tool::Text => self.text_editing && self.text_anchor.is_some(),
                _ => false,
            },
            Phase::Select => false,
        };
        if !open {
            return None;
        }
        self.text_buf = buf;
        self.text_wants_focus = false;
        assert(self@ =~= old(self)@.text_typed(buf@));
        if (lost_focus || enter) && !esc {
            self.commit_text()
        } else {
            None
        }
    }
}

/// Undo takes back a commit: the document is the one before it.
pub proof fn law_undo_restores(s: SessionView, new_doc: Picture)
    requires
        s.doc is Some,
    ensures
        s.commit_doc(new_doc).undo().doc == s.doc,
{
    law_undo_stack_keeps_newest(s.undo_stack.push(s.doc->0));
}

/// Undo takes back a commit completely while the undo stack has room.
pub proof fn law_undo_restores_stack(s: SessionView, new_doc: Picture)
    requires
        s.doc is Some,
        stack_fits(s.undo_stack.push(s.doc->0)),
    ensures
        s.commit_doc(new_doc).undo() == (SessionView { doc_stale: true, ..s }),
{
    let pushed = s.undo_stack.push(s.doc->0);
    assert(pushed.drop_last() =~= s.undo_stack);
    assert(s.commit_doc(new_doc).undo() =~= (SessionView { doc_stale: true, ..s }));
}

/// Whatever a frame of the edit phase draws can be undone: if it changed the
/// document, and was no undo itself, the newest snapshot is the document as it
/// was before.
pub proof fn law_drawing_is_undoable(s: SessionView, i: FrameInput)
    requires
        s.inv(),
        s.phase is Edit,
        s.frame(i).phase is Edit,
        i.action != Some(ToolbarAction::Undo),
        s.frame(i).doc != s.doc,
    ensures
        s.frame(i).undo_stack.len() > 0,
        Some(s.frame(i).undo_stack.last()) == s.doc,
        s.frame(i).undo().doc == s.doc,
{
    law_undo_stack_keeps_newest(s.undo_stack.push(s.doc->0));
}

/// A finished session takes no more input.
pub proof fn law_finished_is_final(s: SessionView, i: FrameInput)
    requires
        s.finished,
    ensures
        s.frame(i) == s,
        s.inv() ==> s.blur_job(i) is None,
{
}

/// The screenshot stays frozen: no frame changes it, not even a new
/// selection.
pub proof fn law_screenshot_is_frozen(s: SessionView, i: FrameInput)
    ensures
        s.frame(i).full_image == s.full_image,
        s.frame(i).origin_physical == s.origin_physical,
{
}

/// Color and width belong to the whole session: only the toolbar's own
/// choices change them.
pub proof fn law_style_is_session_wide(s: SessionView, i: FrameInput)
    ensures
        i.action matches Some(ToolbarAction::SetColor(_)) || s.frame(i).active_color
            == s.active_color,
        i.action matches Some(ToolbarAction::SetWidth(_)) || s.frame(i).active_width
            == s.active_width,
{
}

/// The first Esc during a tool interaction cancels only that interaction and
/// stays in the editor; the second one ends the session without an action.
pub proof fn law_escape_twice(s: SessionView, first: FrameInput, second: FrameInput)
    requires
        s.inv(),
        !s.finished,
        s.phase is Edit,
        s.in_progress(),
        first.esc,
        !first.close_requested,
        second.esc,
    ensures
        ({
            let once = s.frame(first);
            let twice = once.frame(second);
            &&& !once.finished
            &&& once.phase is Edit
            &&& !once.in_progress()
            &&& once.doc == s.doc
            &&& once.undo_stack == s.undo_stack
            &&& once.active_tool == s.active_tool
            &&& twice.finished
            &&& twice.result == Some(OutcomeView::Cancel)
        }),
{
}

/// A close request ends any open session without an action.
pub proof fn law_close_cancels(s: SessionView, i: FrameInput)
    requires
        !s.finished,
        i.close_requested,
    ensures
        s.frame(i).finished,
        s.frame(i).result == Some(OutcomeView::Cancel),
{
}

/// Switching a tool on and off again leaves no tool active.
pub proof fn law_toggle_twice(s: SessionView, tool: Tool)
    requires
        s.active_tool != tool,
    ensures
        s.toggle_tool(tool).active_tool == tool,
        s.toggle_tool(tool).toggle_tool(tool).active_tool == Tool::NoTool,
        !s.toggle_tool(tool).in_progress(),
{
}

/// A drag below the minimum size draws nothing and selects nothing by itself.
pub proof fn law_small_drags_are_ignored(s: SessionView, i: FrameInput)
    requires
        s.inv(),
        !s.finished,
        i.action is None,
        i.snap is None,
        i.selection matches Some(m) ==> !is_real_drag(m.extent_x, m.extent_y),
        i.stroke matches Some(m) ==> !is_real_drag(m.extent_x, m.extent_y),
        s.pencil_points.len() < 2,
    ensures
        s.frame(i).phase == s.phase,
        s.frame(i).doc == s.doc,
        s.blur_job(i) is None,
{
}

/// Pin, save and copy end the session with exactly the document on display.
pub proof fn law_outcome_is_the_document(s: SessionView, i: FrameInput)
    requires
        s.inv(),
        !s.finished,
        s.phase is Edit,
        !i.esc,
        !i.close_requested,
    ensures
        i.action == Some(ToolbarAction::Pin) ==> s.frame(i).result == Some(
            OutcomeView::Pin(s.doc->0),
        ),
        i.action == Some(ToolbarAction::Save) ==> s.frame(i).result == Some(
            OutcomeView::Save(s.doc->0),
        ),
        i.action == Some(ToolbarAction::Copy) ==> s.frame(i).result == Some(
            OutcomeView::Copy(s.doc->0),
        ),
        i.action == Some(ToolbarAction::Cancel) ==> s.frame(i).result == Some(
            OutcomeView::Cancel,
        ),
{
}

/// Mosaic and blur ignore the annotation color and width.
pub proof fn law_effects_ignore_style(
    s: SessionView,
    i: FrameInput,
    m: Stroke,
    color: Rgba,
    width: u32,
    width_px: i32,
)
    requires
        s.active_tool is Mosaic || s.active_tool is Blur,
    ensures
        ({
            let styled = SessionView { active_color: color, active_width: width, ..s };
            &&& styled.stroke_drawn(Stroke { width_px, ..m }).doc == s.stroke_drawn(m).doc
            &&& i.action is None ==> styled.blur_job(i) == s.blur_job(i)
        }),
{
}

/// A region that is left to be blurred lies on the document and has pixels.
pub proof fn law_blur_job_has_pixels(s: SessionView, i: FrameInput)
    requires
        s.inv(),
        s.blur_job(i) is Some,
    ensures
        s.frame(i).doc is Some,
        ({
            let job = s.blur_job(i)->0;
            let p = s.frame(i).doc->0;
            &&& 0 <= job.x0 < job.x1 <= p.width
            &&& 0 <= job.y0 < job.y1 <= p.height
            &&& !imageops::region_is_empty(
                p,
                job.x0 as int,
                job.y0 as int,
                job.x1 as int,
                job.y1 as int,
            )
        }),
{
}

} // verus!
