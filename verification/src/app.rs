//! The application: a tray-driven capture tool with a settings window that is
//! hidden until it is asked for.
//!
//! The state and its transitions are here; whatever drives the windows, the
//! tray and the dialogs performs what a transition returns and reports back.

use crate::config::{HotkeySettings, Settings};
use crate::failure::Failure;
use crate::picture::{Rgba, RgbaImage};
use crate::ui::pin_window::PinSession;
use crate::ui::region_overlay::{EditorOutcome, OutcomeView, RegionSession, SessionView};
use crate::ui::theme;
use crate::ui::theme::Palette;
use vstd::prelude::*;
use vstd::string::*;

verus! {

/// Visual classification of the status message.
#[derive(Clone, Copy, Debug, PartialEq, Eq, Structural)]
pub enum MsgKind {
    Info,
    Success,
    Error,
}

/// The items of the tray menu.
#[derive(Clone, Copy, Debug, PartialEq, Eq, Structural)]
pub enum MenuChoice {
    Settings,
    CaptureRegion,
    Quit,
}

/// What to do with the settings window.
#[derive(Clone, Copy, Debug, PartialEq, Eq, Structural)]
pub enum WindowCommand {
    Show,
    Hide,
    /// Close it, and with it the application.
    Close,
    /// Take back a close request and hide it.
    KeepHidden,
}

/// What a finished capture leaves to do.
#[derive(Debug)]
pub enum Harvest {
    /// Show the pin, which has just been added, with this image.
    Pinned { pin: PinSession, image: RgbaImage },
    /// Ask for a path and save the image there.
    Save(RgbaImage),
    /// Copy the image to the clipboard.
    Copy(RgbaImage),
    /// Nothing.
    Cancelled,
}

/// How saving a capture ended.
#[derive(Debug)]
pub enum Saved {
    /// Written to this path.
    To(String),
    /// The user gave no path.
    NoPath,
    /// Not written.
    Failed(Failure),
}

/// What the settings window shows in this frame.
#[derive(Clone, Copy, Debug, PartialEq, Eq, Structural)]
pub enum SettingsFrame {
    /// Its contents.
    Draw,
    /// Nothing: it is hidden.
    Hidden,
    /// Nothing, and it has to be hidden once more.
    HideAgain,
}

/// The application's state.
#[derive(Debug)]
pub struct ScreenshotDaiApp {
    pub settings: Settings,
    /// The settings as edited, until they are saved.
    pub settings_buf: Settings,
    pub hotkeys: HotkeySettings,
    /// The hotkey fields as edited, until they are saved.
    pub hotkeys_buf: HotkeySettings,
    /// Status message shown to the user.
    pub message: String,
    /// Visual classification of `message`.
    pub message_kind: MsgKind,
    /// The capture in progress, if any.
    pub region_session: Option<RegionSession>,
    /// The settings window should be visible.
    pub window_visible: bool,
    /// The settings window has been seen to be hidden.
    pub hidden_confirmed: bool,
    /// A capture has been asked for and not yet started.
    pub capture_requested: bool,
    /// The user asked to quit.
    pub quitting: bool,
    /// Pinned screenshots, oldest first.
    pub pins: Vec<PinSession>,
    /// The next pin's id.
    pub next_pin_id: u64,
}

/// Model of a [`ScreenshotDaiApp`].
#[verifier::ext_equal]
pub struct AppView {
    pub settings: Settings,
    pub settings_buf: Settings,
    pub hotkeys: HotkeySettings,
    pub hotkeys_buf: HotkeySettings,
    pub message: Seq<char>,
    pub message_kind: MsgKind,
    pub session: Option<SessionView>,
    pub window_visible: bool,
    pub hidden_confirmed: bool,
    pub capture_requested: bool,
    pub quitting: bool,
    pub pins: Seq<PinSession>,
    pub next_pin_id: u64,
}

impl View for ScreenshotDaiApp {
    type V = AppView;

    open spec fn view(&self) -> AppView {
        AppView {
            settings: self.settings,
            settings_buf: self.settings_buf,
            hotkeys: self.hotkeys,
            hotkeys_buf: self.hotkeys_buf,
            message: self.message@,
            message_kind: self.message_kind,
            session: match self.region_session {
                Some(session) => Some(session@),
                None => None,
            },
            window_visible: self.window_visible,
            hidden_confirmed: self.hidden_confirmed,
            capture_requested: self.capture_requested,
            quitting: self.quitting,
            pins: self.pins@,
            next_pin_id: self.next_pin_id,
        }
    }
}

/// The pins that are not closed, in order.
pub open spec fn open_pins(pins: Seq<PinSession>) -> Seq<PinSession> {
    pins.filter(|p: PinSession| !p.closed)
}

impl AppView {
    /// Every pin has its own id, and none has one that is still to be given.
    pub open spec fn inv(self) -> bool {
        &&& forall|i: int| 0 <= i < self.pins.len() ==> (#[trigger] self.pins[i]).id < self.next_pin_id
        &&& forall|i: int, j: int|
            0 <= i < j < self.pins.len() ==> (#[trigger] self.pins[i]).id != (
            #[trigger] self.pins[j]).id
    }

    /// The state at startup.
    pub open spec fn started(settings: Settings, hotkeys: HotkeySettings) -> AppView {
        AppView {
            settings,
            settings_buf: settings,
            hotkeys,
            hotkeys_buf: hotkeys,
            message: Seq::empty(),
            message_kind: MsgKind::Info,
            session: None,
            window_visible: false,
            hidden_confirmed: false,
            capture_requested: false,
            quitting: false,
            pins: Seq::empty(),
            next_pin_id: 0,
        }
    }

    /// A new status message.
    pub open spec fn told(self, kind: MsgKind, message: Seq<char>) -> AppView {
        AppView { message, message_kind: kind, ..self }
    }

    /// The settings window comes up.
    pub open spec fn shown(self) -> AppView {
        AppView { window_visible: true, hidden_confirmed: false, ..self }
    }

    /// The settings window goes away.
    pub open spec fn hidden(self) -> AppView {
        AppView { window_visible: false, ..self }
    }

    /// A capture is asked for.
    pub open spec fn requested(self) -> AppView {
        AppView { capture_requested: true, ..self }
    }

    /// An item of the tray menu is chosen.
    pub open spec fn menu(self, choice: MenuChoice) -> AppView {
        match choice {
            MenuChoice::Settings => self.shown(),
            MenuChoice::CaptureRegion => self.requested(),
            MenuChoice::Quit => AppView { quitting: true, ..self },
        }
    }

    /// The request for a capture is dealt with.
    pub open spec fn request_taken(self) -> AppView {
        AppView { capture_requested: false, ..self }
    }

    /// A capture starts: the request asks for one and none is in progress.
    pub open spec fn capture_due(self) -> bool {
        self.capture_requested && self.session is None
    }

    /// A capture has started.
    pub open spec fn capture_started(self, session: SessionView) -> AppView {
        AppView { session: Some(session), message: Seq::empty(), ..self }
    }

    /// A capture is in progress and its editor is done.
    pub open spec fn capture_done(self) -> bool {
        self.session matches Some(s) && s.finished
    }

    /// The finished capture is to be pinned.
    pub open spec fn pin_due(self) -> bool {
        self.session matches Some(s) && s.finished && s.result matches Some(OutcomeView::Pin(_))
    }

    /// The finished capture is taken, and its outcome dealt with as far as the
    /// application can alone.
    pub open spec fn harvested(self) -> AppView {
        let rest = AppView { session: None, ..self };
        match self.session {
            Some(s) if s.finished => match s.result {
                Some(OutcomeView::Pin(p)) => (AppView {
                    pins: self.pins.push(
                        PinSession {
                            id: self.next_pin_id,
                            width_px: p.width as u32,
                            height_px: p.height as u32,
                            closed: false,
                        },
                    ),
                    next_pin_id: (self.next_pin_id + 1) as u64,
                    ..rest
                }).told(MsgKind::Info, "Pinned."@),
                Some(OutcomeView::Save(_)) => rest,
                Some(OutcomeView::Copy(_)) => rest,
                Some(OutcomeView::Cancel) => rest.told(MsgKind::Info, "Capture cancelled."@),
                None => rest.told(MsgKind::Info, "Capture cancelled."@),
            },
            _ => self,
        }
    }

    /// The pin with this id is closed.
    pub open spec fn pin_closed(self, id: u64) -> AppView {
        AppView {
            pins: Seq::new(
                self.pins.len(),
                |i: int|
                    PinSession {
                        closed: self.pins[i].closed || self.pins[i].id == id,
                        ..self.pins[i]
                    },
            ),
            ..self
        }
    }

    /// Closed pins are dropped.
    pub open spec fn reaped(self) -> AppView {
        AppView { pins: open_pins(self.pins), ..self }
    }

    /// The settings window is asked to close. It hides, unless the user is
    /// quitting.
    pub open spec fn close_asked(self) -> AppView {
        if self.quitting {
            self
        } else {
            self.hidden()
        }
    }

    /// A frame of the settings window, which reports whether it is hidden.
    pub open spec fn settings_frame(self, seen_hidden: bool) -> AppView {
        if !self.window_visible && !self.hidden_confirmed && seen_hidden {
            AppView { hidden_confirmed: true, ..self }
        } else {
            self
        }
    }

    /// The edited settings have been written.
    pub open spec fn settings_written(self) -> AppView {
        (AppView { settings: self.settings_buf, hotkeys: self.hotkeys_buf, ..self }).told(
            MsgKind::Success,
            "Settings saved."@,
        )
    }

    /// The edits are discarded.
    pub open spec fn reset(self) -> AppView {
        AppView { settings_buf: self.settings, hotkeys_buf: self.hotkeys, ..self }
    }
}

/// What a finished capture leaves to do, as a picture.
pub open spec fn harvest_of(a: AppView, h: Harvest) -> bool {
    match a.session.unwrap().result {
        Some(OutcomeView::Pin(p)) => h matches Harvest::Pinned { pin, image } && image.wf()
            && image@ == p && pin == a.harvested().pins.last(),
        Some(OutcomeView::Save(p)) => h matches Harvest::Save(image) && image.wf() && image@ == p,
        Some(OutcomeView::Copy(p)) => h matches Harvest::Copy(image) && image.wf() && image@ == p,
        Some(OutcomeView::Cancel) => h is Cancelled,
        None => h is Cancelled,
    }
}

/// Two texts, one after the other.
fn joined(head: &str, tail: &String) -> (r: String)
    ensures
        r@ == head@ + tail@,
{
    let mut text = head.to_string();
    text.append(tail.as_str());
    text
}

impl ScreenshotDaiApp {
    /// The invariants of the state and of the capture in progress.
    pub open spec fn wf(self) -> bool {
        &&& self@.inv()
        &&& self.region_session matches Some(session) ==> session.wf()
    }

    /// The application at startup: window hidden, nothing captured or pinned.
    pub fn new(settings: Settings, hotkeys: HotkeySettings) -> (r: ScreenshotDaiApp)
        ensures
            r.wf(),
            r@ == AppView::started(settings, hotkeys),
    {
        let settings_buf = settings.clone();
        let hotkeys_buf = hotkeys.clone();
        let r = ScreenshotDaiApp {
            settings,
            settings_buf,
            hotkeys,
            hotkeys_buf,
            message: String::new(),
            message_kind: MsgKind::Info,
            region_session: None,
            window_visible: false,
            hidden_confirmed: false,
            capture_requested: false,
            quitting: false,
            pins: Vec::new(),
            next_pin_id: 0,
        };
        assert(r@ =~= AppView::started(settings, hotkeys));
        r
    }

    /// Set the status message and its classification.
    pub fn set_message(&mut self, kind: MsgKind, message: String)
        requires
            old(self).wf(),
        ensures
            final(self).wf(),
            final(self)@ == old(self)@.told(kind, message@),
    {
        self.message = message;
        self.message_kind = kind;
    }

    /// Mark the settings window as visible.
    pub fn show_window(&mut self) -> (r: WindowCommand)
        requires
            old(self).wf(),
        ensures
            final(self).wf(),
            final(self)@ == old(self)@.shown(),
            r is Show,
    {
        self.window_visible = true;
        self.hidden_confirmed = false;
        WindowCommand::Show
    }

    /// Mark the settings window as hidden, without quitting.
    pub fn hide_window(&mut self) -> (r: WindowCommand)
        requires
            old(self).wf(),
        ensures
            final(self).wf(),
            final(self)@ == old(self)@.hidden(),
            r is Hide,
    {
        self.window_visible = false;
        WindowCommand::Hide
    }

    /// The capture hotkey was pressed.
    pub fn hotkey_pressed(&mut self)
        requires
            old(self).wf(),
        ensures
            final(self).wf(),
            final(self)@ == old(self)@.requested(),
    {
        self.capture_requested = true;
    }

    /// An item of the tray menu was chosen.
    pub fn menu_chosen(&mut self, choice: MenuChoice) -> (r: Option<WindowCommand>)
        requires
            old(self).wf(),
        ensures
            final(self).wf(),
            final(self)@ == old(self)@.menu(choice),
            r == match choice {
                MenuChoice::Settings => Some(WindowCommand::Show),
                MenuChoice::CaptureRegion => None,
                MenuChoice::Quit => Some(WindowCommand::Close),
            },
    {
        match choice {
            MenuChoice::Settings => Some(self.show_window()),
            MenuChoice::CaptureRegion => {
                self.capture_requested = true;
                None
            },
            MenuChoice::Quit => {
                self.quitting = true;
                Some(WindowCommand::Close)
            },
        }
    }

    /// Deal with the request for a capture, if there is one. Returns whether a
    /// capture has to be started; while one is in progress, a request is
    /// dropped.
    pub fn take_capture_request(&mut self) -> (r: bool)
        requires
            old(self).wf(),
        ensures
            final(self).wf(),
            final(self)@ == old(self)@.request_taken(),
            r == old(self)@.capture_due(),
    {
        let due = self.capture_requested && self.region_session.is_none();
        self.capture_requested = false;
        due
    }

    /// A capture was started.
    pub fn capture_started(&mut self, session: RegionSession)
        requires
            old(self).wf(),
            session.wf(),
        ensures
            final(self).wf(),
            final(self)@ == old(self)@.capture_started(session@),
    {
        self.region_session = Some(session);
        self.message = String::new();
        assert(self@ =~= old(self)@.capture_started(session@));
    }

    /// A capture could not be started.
    pub fn capture_failed(&mut self, cause: &Failure)
        requires
            old(self).wf(),
        ensures
            final(self).wf(),
            final(self)@ == old(self)@.told(
                MsgKind::Error,
                "Region capture failed: "@ + cause.message@,
            ),
    {
        let message = joined("Region capture failed: ", &cause.message);
        self.set_message(MsgKind::Error, message);
    }

    /// Take the finished capture, if there is one, and say what its outcome
    /// leaves to do.
    pub fn harvest(&mut self) -> (r: Option<Harvest>)
        requires
            old(self).wf(),
            old(self)@.pin_due() ==> old(self).next_pin_id < u64::MAX,
        ensures
            final(self).wf(),
            final(self)@ == old(self)@.harvested(),
            r is Some <==> old(self)@.capture_done(),
            r matches Some(h) ==> harvest_of(old(self)@, h),
    {
        let done = match &self.region_session {
            Some(session) => session.finished,
            None => false,
        };
        if !done {
            return None;
        }
        let taken = self.region_session.take();
        let outcome = match taken {
            Some(session) => session.result,
            None => None,
        };
        match outcome {
            Some(EditorOutcome::Pin(image)) => {
                let pin = PinSession::new(self.next_pin_id, &image);
                self.pins.push(pin);
                self.next_pin_id = self.next_pin_id + 1;
                self.set_message(MsgKind::Info, "Pinned.".to_string());
                assert(self@ =~= old(self)@.harvested());
                Some(Harvest::Pinned { pin, image })
            },
            Some(EditorOutcome::Save(image)) => {
                assert(self@ =~= old(self)@.harvested());
                Some(Harvest::Save(image))
            },
            Some(EditorOutcome::Copy(image)) => {
                assert(self@ =~= old(self)@.harvested());
                Some(Harvest::Copy(image))
            },
            Some(EditorOutcome::Cancel) => {
                self.set_message(MsgKind::Info, "Capture cancelled.".to_string());
                assert(self@ =~= old(self)@.harvested());
                Some(Harvest::Cancelled)
            },
            None => {
                self.set_message(MsgKind::Info, "Capture cancelled.".to_string());
                assert(self@ =~= old(self)@.harvested());
                Some(Harvest::Cancelled)
            },
        }
    }

    /// Saving a capture has ended.
    pub fn save_ended(&mut self, saved: &Saved)
        requires
            old(self).wf(),
        ensures
            final(self).wf(),
            final(self)@ == match *saved {
                Saved::To(path) => old(self)@.told(MsgKind::Success, "Saved to "@ + path@),
                Saved::NoPath => old(self)@.told(MsgKind::Info, "Save cancelled"@),
                Saved::Failed(cause) => old(self)@.told(
                    MsgKind::Error,
                    "Save failed: "@ + cause.message@,
                ),
            },
    {
        match saved {
            Saved::To(path) => {
                let message = joined("Saved to ", path);
                self.set_message(MsgKind::Success, message);
            },
            Saved::NoPath => {
                self.set_message(MsgKind::Info, "Save cancelled".to_string());
            },
            Saved::Failed(cause) => {
                let message = joined("Save failed: ", &cause.message);
                self.set_message(MsgKind::Error, message);
            },
        }
    }

    /// Copying a capture has ended.
    pub fn copy_ended(&mut self, copied: &Result<(), Failure>)
        requires
            old(self).wf(),
        ensures
            final(self).wf(),
            final(self)@ == match *copied {
                Ok(_) => old(self)@.told(MsgKind::Success, "Copied to clipboard"@),
                Err(cause) => old(self)@.told(MsgKind::Error, "Copy failed: "@ + cause.message@),
            },
    {
        match copied {
            Ok(_) => {
                self.set_message(MsgKind::Success, "Copied to clipboard".to_string());
            },
            Err(cause) => {
                let message = joined("Copy failed: ", &cause.message);
                self.set_message(MsgKind::Error, message);
            },
        }
    }

    /// The user closed the pin with this id.
    pub fn close_pin(&mut self, id: u64)
        requires
            old(self).wf(),
        ensures
            final(self).wf(),
            final(self)@ == old(self)@.pin_closed(id),
    {
        let mut i: usize = 0;
        while i < self.pins.len()
            invariant
                i <= self.pins@.len(),
                self@ == (AppView { pins: self.pins@, ..old(self)@ }),
                self.region_session == old(self).region_session,
                self.pins@.len() == old(self).pins@.len(),
                forall|k: int|
                    0 <= k < self.pins@.len() ==> #[trigger] self.pins@[k] == if k < i {
                        old(self)@.pin_closed(id).pins[k]
                    } else {
                        old(self).pins@[k]
                    },
            decreases self.pins@.len() - i,
        {
            if self.pins[i].id == id {
                let mut pin = self.pins[i];
                pin.closed = true;
                self.pins.set(i, pin);
            }
            i = i + 1;
        }
        proof {
            assert(self@ =~= old(self)@.pin_closed(id));
            lemma_pin_closed_inv(old(self)@, id);
        }
    }

    /// Drop the pins that have been closed.
    pub fn reap_pins(&mut self)
        requires
            old(self).wf(),
        ensures
            final(self).wf(),
            final(self)@ == old(self)@.reaped(),
    {
        let mut kept: Vec<PinSession> = Vec::new();
        let mut i: usize = 0;
        while i < self.pins.len()
            invariant
                i <= self.pins@.len(),
                self.pins@ == old(self).pins@,
                kept@ == open_pins(self.pins@.take(i as int)),
            decreases self.pins@.len() - i,
        {
            proof {
                lemma_open_pins_step(self.pins@, i as int);
            }
            if !self.pins[i].closed {
                kept.push(self.pins[i]);
            }
            i = i + 1;
        }
        assert(self.pins@.take(self.pins@.len() as int) =~= self.pins@);
        self.pins = kept;
        proof {
            assert(self@ =~= old(self)@.reaped());
            lemma_reaped_inv(old(self)@);
        }
    }

    /// The settings window was asked to close: quit if the user is quitting,
    /// else hide.
    pub fn close_requested(&mut self) -> (r: WindowCommand)
        requires
            old(self).wf(),
        ensures
            final(self).wf(),
            final(self)@ == old(self)@.close_asked(),
            r == if old(self)@.quitting {
                WindowCommand::Close
            } else {
                WindowCommand::KeepHidden
            },
    {
        if self.quitting {
            WindowCommand::Close
        } else {
            self.window_visible = false;
            WindowCommand::KeepHidden
        }
    }

    /// One frame of the settings window, which reports whether it is hidden.
    /// A window that should be hidden is hidden again until it has been seen
    /// to be.
    pub fn settings_frame(&mut self, seen_hidden: bool) -> (r: SettingsFrame)
        requires
            old(self).wf(),
        ensures
            final(self).wf(),
            final(self)@ == old(self)@.settings_frame(seen_hidden),
            r == if old(self)@.window_visible {
                SettingsFrame::Draw
            } else if old(self)@.hidden_confirmed || seen_hidden {
                SettingsFrame::Hidden
            } else {
                SettingsFrame::HideAgain
            },
    {
        if self.window_visible {
            return SettingsFrame::Draw;
        }
        if self.hidden_confirmed {
            return SettingsFrame::Hidden;
        }
        if seen_hidden {
            self.hidden_confirmed = true;
            SettingsFrame::Hidden
        } else {
            SettingsFrame::HideAgain
        }
    }

    /// Writing the edited settings has ended.
    pub fn settings_save_ended(&mut self, written: &Result<(), Failure>)
        requires
            old(self).wf(),
        ensures
            final(self).wf(),
            final(self)@ == match *written {
                Ok(_) => old(self)@.settings_written(),
                Err(cause) => old(self)@.told(
                    MsgKind::Error,
                    "Failed to save settings: "@ + cause.message@,
                ),
            },
    {
        match written {
            Ok(_) => {
                self.settings = self.settings_buf.clone();
                self.hotkeys = self.hotkeys_buf.clone();
                self.set_message(MsgKind::Success, "Settings saved.".to_string());
            },
            Err(cause) => {
                let message = joined("Failed to save settings: ", &cause.message);
                self.set_message(MsgKind::Error, message);
            },
        }
    }

    /// Discard the edits of the settings.
    pub fn reset_settings(&mut self)
        requires
            old(self).wf(),
        ensures
            final(self).wf(),
            final(self)@ == old(self)@.reset(),
    {
        self.settings_buf = self.settings.clone();
        self.hotkeys_buf = self.hotkeys.clone();
    }

    /// The color of the status message.
    pub fn message_color(&self) -> (r: Rgba)
        ensures
            r == match self.message_kind {
                MsgKind::Error => theme::opaque(0xdc, 0x32, 0x2f),
                MsgKind::Success => theme::opaque(0x85, 0x99, 0x00),
                MsgKind::Info => theme::opaque(0x83, 0x94, 0x96),
            },
    {
        let palette = Palette::light();
        match self.message_kind {
            MsgKind::Error => palette.error,
            MsgKind::Success => palette.success,
            MsgKind::Info => palette.text_secondary,
        }
    }
}

/// Closing a pin keeps the invariant.
proof fn lemma_pin_closed_inv(a: AppView, id: u64)
    requires
        a.inv(),
    ensures
        a.pin_closed(id).inv(),
{
    let b = a.pin_closed(id);
    assert forall|i: int| 0 <= i < b.pins.len() implies (#[trigger] b.pins[i]).id
        < b.next_pin_id by {
        assert(a.pins[i].id < a.next_pin_id);
    }
    assert forall|i: int, j: int| 0 <= i < j < b.pins.len() implies (#[trigger] b.pins[i]).id != (
    #[trigger] b.pins[j]).id by {
        assert(a.pins[i].id != a.pins[j].id);
    }
}

/// One more pin is kept exactly if it is open.
proof fn lemma_open_pins_step(pins: Seq<PinSession>, i: int)
    requires
        0 <= i < pins.len(),
    ensures
        open_pins(pins.take(i + 1)) == if pins[i].closed {
            open_pins(pins.take(i))
        } else {
            open_pins(pins.take(i)).push(pins[i])
        },
{
    reveal(Seq::filter);
    assert(pins.take(i + 1).drop_last() =~= pins.take(i));
}

/// Where the open pins come from: each is a pin, in the same order.
proof fn lemma_open_pins_from(pins: Seq<PinSession>, n: int, k: int) -> (from: int)
    requires
        0 <= n <= pins.len(),
        0 <= k < open_pins(pins.take(n)).len(),
    ensures
        0 <= from < n,
        open_pins(pins.take(n))[k] == pins[from],
        !pins[from].closed,
        open_pins(pins.take(from)).len() == k,
    decreases n,
{
    if n == 0 {
        reveal(Seq::filter);
        assert(open_pins(pins.take(0)).len() == 0);
        0
    } else {
        lemma_open_pins_step(pins, n - 1);
        let before = open_pins(pins.take(n - 1));
        if k < before.len() {
            lemma_open_pins_from(pins, n - 1, k)
        } else {
            n - 1
        }
    }
}

/// Dropping pins keeps the invariant.
proof fn lemma_reaped_inv(a: AppView)
    requires
        a.inv(),
    ensures
        a.reaped().inv(),
{
    let n = a.pins.len() as int;
    assert(a.pins.take(n) =~= a.pins);
    assert forall|i: int| 0 <= i < a.reaped().pins.len() implies (
    #[trigger] a.reaped().pins[i]).id < a.next_pin_id by {
        let from = lemma_open_pins_from(a.pins, n, i);
    }
    assert forall|i: int, j: int| 0 <= i < j < a.reaped().pins.len() implies (
    #[trigger] a.reaped().pins[i]).id != (#[trigger] a.reaped().pins[j]).id by {
        let p = lemma_open_pins_from(a.pins, n, i);
        let q = lemma_open_pins_from(a.pins, n, j);
        if p == q {
            assert(i == j);
        }
        if p < q {
            assert(a.pins[p].id != a.pins[q].id);
        } else {
            assert(a.pins[q].id != a.pins[p].id);
        }
    }
}

/// A new pin's id differs from every id given before: all are less than
/// `next_pin_id`, which only a new pin moves, by one.
pub proof fn law_pin_ids_are_fresh(a: AppView, i: int)
    requires
        a.inv(),
        a.pin_due(),
        a.next_pin_id < u64::MAX,
        0 <= i < a.pins.len(),
    ensures
        a.harvested().pins.len() == a.pins.len() + 1,
        a.harvested().pins[i] == a.pins[i],
        a.harvested().pins.last().id == a.next_pin_id,
        a.pins[i].id < a.harvested().pins.last().id,
        a.harvested().next_pin_id == a.next_pin_id + 1,
{
}

/// Every transition keeps the pins' ids apart.
pub proof fn law_transitions_keep_invariant(a: AppView, id: u64, choice: MenuChoice, seen: bool)
    requires
        a.inv(),
        a.pin_due() ==> a.next_pin_id < u64::MAX,
    ensures
        a.menu(choice).inv(),
        a.request_taken().inv(),
        a.harvested().inv(),
        a.pin_closed(id).inv(),
        a.reaped().inv(),
        a.close_asked().inv(),
        a.settings_frame(seen).inv(),
        a.settings_written().inv(),
        a.reset().inv(),
{
    lemma_pin_closed_inv(a, id);
    lemma_reaped_inv(a);
}

/// Reaping leaves open pins alone, and leaves nothing for a second time.
pub proof fn law_reaping_keeps_open_pins(a: AppView)
    ensures
        forall|i: int|
            0 <= i < a.pins.len() && !a.pins[i].closed ==> a.reaped().pins.contains(
                #[trigger] a.pins[i],
            ),
        forall|k: int|
            0 <= k < a.reaped().pins.len() ==> !(#[trigger] a.reaped().pins[k]).closed
                && a.pins.contains(a.reaped().pins[k]),
        a.reaped().reaped() == a.reaped(),
{
    let n = a.pins.len() as int;
    assert(a.pins.take(n) =~= a.pins);
    assert forall|i: int| 0 <= i < a.pins.len() && !a.pins[i].closed implies a.reaped().pins.contains(
        #[trigger] a.pins[i],
    ) by {
        lemma_open_pin_stays(a.pins, n, i);
    }
    assert forall|k: int| 0 <= k < a.reaped().pins.len() implies !(
    #[trigger] a.reaped().pins[k]).closed && a.pins.contains(a.reaped().pins[k]) by {
        let from = lemma_open_pins_from(a.pins, n, k);
    }
    lemma_all_open(a.reaped().pins);
    assert(a.reaped().reaped() =~= a.reaped());
}

/// An open pin is among the open pins.
proof fn lemma_open_pin_stays(pins: Seq<PinSession>, n: int, i: int)
    requires
        0 <= i < n <= pins.len(),
        !pins[i].closed,
    ensures
        open_pins(pins.take(n)).contains(pins[i]),
    decreases n,
{
    lemma_open_pins_step(pins, n - 1);
    let before = open_pins(pins.take(n - 1));
    if i == n - 1 {
        assert(before.push(pins[i])[before.len() as int] == pins[i]);
    } else {
        lemma_open_pin_stays(pins, n - 1, i);
        let k = choose|k: int| 0 <= k < before.len() && before[k] == pins[i];
        assert(open_pins(pins.take(n))[k] == pins[i]);
    }
}

/// Pins that are all open all stay.
proof fn lemma_all_open(pins: Seq<PinSession>)
    requires
        forall|k: int| 0 <= k < pins.len() ==> !(#[trigger] pins[k]).closed,
    ensures
        open_pins(pins) == pins,
    decreases pins.len(),
{
    reveal(Seq::filter);
    if pins.len() > 0 {
        lemma_all_open(pins.drop_last());
        assert(pins.drop_last().push(pins.last()) =~= pins);
    }
}

/// A pin that was closed is gone after the next reaping, and every other open
/// pin is still there.
pub proof fn law_closed_pin_goes(a: AppView, id: u64, i: int)
    requires
        a.inv(),
        0 <= i < a.pins.len(),
    ensures
        forall|k: int|
            0 <= k < a.pin_closed(id).reaped().pins.len() ==> (
            #[trigger] a.pin_closed(id).reaped().pins[k]).id != id,
        a.pins[i].id != id && !a.pins[i].closed ==> a.pin_closed(id).reaped().pins.contains(
            a.pins[i],
        ),
{
    let b = a.pin_closed(id);
    let n = b.pins.len() as int;
    assert(b.pins.take(n) =~= b.pins);
    assert forall|k: int| 0 <= k < b.reaped().pins.len() implies (
    #[trigger] b.reaped().pins[k]).id != id by {
        let from = lemma_open_pins_from(b.pins, n, k);
    }
    if a.pins[i].id != id && !a.pins[i].closed {
        assert(b.pins[i] == a.pins[i]);
        lemma_open_pin_stays(b.pins, n, i);
    }
}

/// A request never disturbs a capture in progress, and asks for a new one only
/// without one; once dealt with, it asks for nothing more.
pub proof fn law_request_spares_open_capture(a: AppView)
    ensures
        a.requested().request_taken().session == a.session,
        a.requested().capture_due() <==> a.session is None,
        !a.request_taken().capture_due(),
{
}

/// Closing the settings window only hides it; quitting is the tray menu's.
pub proof fn law_closing_hides(a: AppView)
    requires
        !a.quitting,
    ensures
        !a.close_asked().window_visible,
        !a.close_asked().quitting,
        a.close_asked().session == a.session,
        a.close_asked().pins == a.pins,
        a.menu(MenuChoice::Quit).quitting,
        a.menu(MenuChoice::Quit).close_asked() == a.menu(MenuChoice::Quit),
        a.menu(MenuChoice::Settings).window_visible,
{
}

/// A finished capture is taken once: afterwards none is in progress.
pub proof fn law_capture_is_harvested_once(a: AppView)
    ensures
        a.capture_done() ==> a.harvested().session is None,
        !a.capture_done() ==> a.harvested() == a,
        a.harvested().harvested() == a.harvested(),
{
}

/// Right after saving or resetting, the edited settings are the settings in
/// force; resetting brings back the settings last saved.
pub proof fn law_reset_returns_saved_settings(a: AppView, edited: Settings, keys: HotkeySettings)
    ensures
        a.settings_written().reset() == a.settings_written(),
        a.reset().reset() == a.reset(),
        (AppView { settings_buf: edited, hotkeys_buf: keys, ..a.settings_written() }).reset()
            == a.settings_written(),
{
}

/// A hidden window is hidden again in every frame until it has been seen to be
/// hidden, and then left alone until it is shown.
pub proof fn law_hidden_is_confirmed_once(a: AppView)
    requires
        !a.window_visible,
    ensures
        a.settings_frame(true).hidden_confirmed,
        a.settings_frame(false) == a,
        forall|seen: bool|
            #[trigger] a.settings_frame(true).settings_frame(seen) == a.settings_frame(true),
        !a.shown().hidden_confirmed,
{
}

/// The same settings, in force and as edited.
pub open spec fn same_settings(a: AppView, b: AppView) -> bool {
    &&& a.settings == b.settings
    &&& a.settings_buf == b.settings_buf
    &&& a.hotkeys == b.hotkeys
    &&& a.hotkeys_buf == b.hotkeys_buf
}

/// The same status message.
pub open spec fn same_message(a: AppView, b: AppView) -> bool {
    &&& a.message == b.message
    &&& a.message_kind == b.message_kind
}

/// The same capture in progress, and the same request for one.
pub open spec fn same_capture(a: AppView, b: AppView) -> bool {
    &&& a.session == b.session
    &&& a.capture_requested == b.capture_requested
}

/// The same state of the settings window.
pub open spec fn same_window(a: AppView, b: AppView) -> bool {
    &&& a.window_visible == b.window_visible
    &&& a.hidden_confirmed == b.hidden_confirmed
    &&& a.quitting == b.quitting
}

/// The same pins, and the same id for the next one.
pub open spec fn same_pins(a: AppView, b: AppView) -> bool {
    &&& a.pins == b.pins
    &&& a.next_pin_id == b.next_pin_id
}

/// At startup the edited settings are those in force, the window is not shown,
/// nothing is said, captured or pinned, and nobody asked for anything.
pub proof fn law_starts_in_the_background(settings: Settings, hotkeys: HotkeySettings)
    ensures
        ({
            let a = AppView::started(settings, hotkeys);
            &&& a.settings == settings && a.settings_buf == settings
            &&& a.hotkeys == hotkeys && a.hotkeys_buf == hotkeys
            &&& !a.window_visible && !a.hidden_confirmed && !a.quitting
            &&& a.message.len() == 0 && a.message_kind == MsgKind::Info
            &&& a.session is None && !a.capture_requested
            &&& a.pins.len() == 0
            &&& a.inv()
        }),
{
}

/// A status message replaces the one before and touches nothing else.
pub proof fn law_message_replaces_message(a: AppView, kind: MsgKind, text: Seq<char>)
    ensures
        a.told(kind, text).message == text,
        a.told(kind, text).message_kind == kind,
        same_settings(a, a.told(kind, text)),
        same_capture(a, a.told(kind, text)),
        same_window(a, a.told(kind, text)),
        same_pins(a, a.told(kind, text)),
{
}

/// Each item of the tray menu moves its own flag and nothing else: the window
/// comes up, a capture is asked for, or the user is quitting.
pub proof fn law_menu_items_are_apart(a: AppView, choice: MenuChoice)
    ensures
        ({
            let b = a.menu(choice);
            &&& same_settings(a, b) && same_message(a, b) && same_pins(a, b)
            &&& b.session == a.session
            &&& b.window_visible == (a.window_visible || choice == MenuChoice::Settings)
            &&& b.hidden_confirmed == (a.hidden_confirmed && choice != MenuChoice::Settings)
            &&& b.capture_requested == (a.capture_requested || choice == MenuChoice::CaptureRegion)
            &&& b.quitting == (a.quitting || choice == MenuChoice::Quit)
        }),
{
}

/// Showing and hiding the settings window undo each other and leave everything
/// but the window as it is.
pub proof fn law_window_shows_and_hides(a: AppView)
    ensures
        a.shown().window_visible && !a.hidden().window_visible,
        a.hidden().hidden_confirmed == a.hidden_confirmed,
        a.shown().quitting == a.quitting && a.hidden().quitting == a.quitting,
        same_settings(a, a.shown()) && same_settings(a, a.hidden()),
        same_message(a, a.shown()) && same_message(a, a.hidden()),
        same_capture(a, a.shown()) && same_capture(a, a.hidden()),
        same_pins(a, a.shown()) && same_pins(a, a.hidden()),
{
}

/// The hotkey asks for a capture, as the tray menu does, and nothing else. A
/// request is answered once, whether or not a capture can start.
pub proof fn law_request_is_answered_once(a: AppView)
    ensures
        a.requested() == a.menu(MenuChoice::CaptureRegion),
        a.requested().capture_requested && !a.request_taken().capture_requested,
        a.requested().session == a.session && a.request_taken().session == a.session,
        same_settings(a, a.requested()) && same_settings(a, a.request_taken()),
        same_message(a, a.requested()) && same_message(a, a.request_taken()),
        same_window(a, a.requested()) && same_window(a, a.request_taken()),
        same_pins(a, a.requested()) && same_pins(a, a.request_taken()),
        a.capture_due() <==> a.capture_requested && a.session is None,
{
}

/// A capture that starts is the one in progress and clears the status message;
/// the rest stays.
pub proof fn law_started_capture_is_in_progress(a: AppView, session: SessionView)
    ensures
        a.capture_started(session).session == Some(session),
        a.capture_started(session).message.len() == 0,
        a.capture_started(session).message_kind == a.message_kind,
        a.capture_started(session).capture_requested == a.capture_requested,
        same_settings(a, a.capture_started(session)),
        same_window(a, a.capture_started(session)),
        same_pins(a, a.capture_started(session)),
        a.capture_started(session).capture_done() <==> session.finished,
{
}

/// A capture finished to be pinned adds one open pin, with the next id and the
/// picture's sides, behind those that are there, and says so.
pub proof fn law_pinned_capture_adds_a_pin(a: AppView, s: SessionView)
    requires
        a.session == Some(s),
        s.finished,
        s.result matches Some(OutcomeView::Pin(p)) && p.width <= u32::MAX && p.height <= u32::MAX,
        a.next_pin_id < u64::MAX,
    ensures
        ({
            let b = a.harvested();
            let p = s.result.unwrap()->Pin_0;
            &&& b.session is None && b.capture_requested == a.capture_requested
            &&& b.message == "Pinned."@ && b.message_kind == MsgKind::Info
            &&& b.pins.len() == a.pins.len() + 1
            &&& forall|i: int| 0 <= i < a.pins.len() ==> b.pins[i] == #[trigger] a.pins[i]
            &&& b.pins.last().id == a.next_pin_id
            &&& b.pins.last().width_px == p.width
            &&& b.pins.last().height_px == p.height
            &&& !b.pins.last().closed
            &&& b.next_pin_id == a.next_pin_id + 1
            &&& same_settings(a, b) && same_window(a, b)
        }),
{
}

/// Any other finished capture adds no pin. One that was cancelled says so; of
/// one to be saved or copied nothing is said until that has ended.
pub proof fn law_other_captures_add_no_pin(a: AppView, s: SessionView)
    requires
        a.session == Some(s),
        s.finished,
        !(s.result matches Some(OutcomeView::Pin(_))),
    ensures
        ({
            let b = a.harvested();
            let cancelled = s.result is None || s.result == Some(OutcomeView::Cancel);
            &&& b.session is None && b.capture_requested == a.capture_requested
            &&& same_settings(a, b) && same_window(a, b) && same_pins(a, b)
            &&& cancelled ==> b.message == "Capture cancelled."@ && b.message_kind == MsgKind::Info
            &&& !cancelled ==> same_message(a, b)
        }),
{
}

/// What a finished capture leaves to do is what its user chose, with the very
/// picture that was captured; a cancelled one leaves nothing.
pub proof fn law_harvest_is_what_was_chosen(a: AppView, h: Harvest)
    requires
        a.capture_done(),
        harvest_of(a, h),
    ensures
        ({
            let result = a.session.unwrap().result;
            &&& h matches Harvest::Pinned { pin, image } ==> result == Some(
                OutcomeView::Pin(image@),
            )
            &&& h matches Harvest::Save(image) ==> result == Some(OutcomeView::Save(image@))
            &&& h matches Harvest::Copy(image) ==> result == Some(OutcomeView::Copy(image@))
            &&& h is Cancelled <==> (result is None || result == Some(OutcomeView::Cancel))
        }),
{
}

/// Closing a pin marks the pins with that id and leaves every other pin, and
/// everything else, as it is.
pub proof fn law_closing_marks_one_pin(a: AppView, id: u64, i: int)
    requires
        0 <= i < a.pins.len(),
    ensures
        ({
            let b = a.pin_closed(id);
            &&& b.pins.len() == a.pins.len() && b.next_pin_id == a.next_pin_id
            &&& a.pins[i].id != id ==> b.pins[i] == a.pins[i]
            &&& a.pins[i].id == id ==> b.pins[i].closed
            &&& b.pins[i].id == a.pins[i].id
            &&& b.pins[i].width_px == a.pins[i].width_px
            &&& b.pins[i].height_px == a.pins[i].height_px
            &&& same_settings(a, b) && same_message(a, b) && same_capture(a, b)
            &&& same_window(a, b)
        }),
{
}

/// Reaping keeps the open pins in their order and touches nothing else.
pub proof fn law_reaping_keeps_the_order(a: AppView, i: int, j: int)
    requires
        0 <= i < j < a.pins.len(),
        !a.pins[i].closed,
        !a.pins[j].closed,
    ensures
        exists|p: int, q: int|
            0 <= p < q < a.reaped().pins.len() && #[trigger] a.reaped().pins[p] == a.pins[i]
                && #[trigger] a.reaped().pins[q] == a.pins[j],
        a.reaped().next_pin_id == a.next_pin_id,
        same_settings(a, a.reaped()) && same_message(a, a.reaped()),
        same_capture(a, a.reaped()) && same_window(a, a.reaped()),
{
    let n = a.pins.len() as int;
    assert(a.pins.take(n) =~= a.pins);
    lemma_open_pin_place(a.pins, n, i);
    lemma_open_pin_place(a.pins, n, j);
    lemma_open_pin_place(a.pins, j, i);
    let p = open_pins(a.pins.take(i)).len() as int;
    let q = open_pins(a.pins.take(j)).len() as int;
    assert(a.reaped().pins[p] == a.pins[i] && a.reaped().pins[q] == a.pins[j]);
}

/// An open pin's place is the number of open pins before it.
proof fn lemma_open_pin_place(pins: Seq<PinSession>, n: int, i: int)
    requires
        0 <= i < n <= pins.len(),
        !pins[i].closed,
    ensures
        open_pins(pins.take(i)).len() < open_pins(pins.take(n)).len(),
        open_pins(pins.take(n))[open_pins(pins.take(i)).len() as int] == pins[i],
    decreases n,
{
    lemma_open_pins_step(pins, n - 1);
    if i < n - 1 {
        lemma_open_pin_place(pins, n - 1, i);
    }
}

/// Closing the window leaves everything but the window as it is, and the window
/// too while the user is quitting.
pub proof fn law_closing_touches_the_window_only(a: AppView)
    ensures
        same_settings(a, a.close_asked()) && same_message(a, a.close_asked()),
        same_capture(a, a.close_asked()) && same_pins(a, a.close_asked()),
        a.close_asked().hidden_confirmed == a.hidden_confirmed,
        a.close_asked().quitting == a.quitting,
        a.close_asked().window_visible == (a.window_visible && a.quitting),
{
}

/// A frame of the settings window only notes that a window that should be
/// hidden is.
pub proof fn law_settings_frame_only_confirms(a: AppView, seen: bool)
    ensures
        ({
            let b = a.settings_frame(seen);
            &&& same_settings(a, b) && same_message(a, b) && same_capture(a, b) && same_pins(a, b)
            &&& b.window_visible == a.window_visible && b.quitting == a.quitting
            &&& b.hidden_confirmed == (a.hidden_confirmed || (!a.window_visible && seen))
        }),
{
}

/// Saved settings are in force, and the user is told; discarded ones are as
/// they were in force. Neither touches anything else.
pub proof fn law_edits_are_saved_or_discarded(a: AppView)
    ensures
        ({
            let b = a.settings_written();
            &&& b.settings == a.settings_buf && b.settings_buf == a.settings_buf
            &&& b.hotkeys == a.hotkeys_buf && b.hotkeys_buf == a.hotkeys_buf
            &&& b.message == "Settings saved."@ && b.message_kind == MsgKind::Success
            &&& same_capture(a, b) && same_window(a, b) && same_pins(a, b)
        }),
        ({
            let b = a.reset();
            &&& b.settings == a.settings && b.settings_buf == a.settings
            &&& b.hotkeys == a.hotkeys && b.hotkeys_buf == a.hotkeys
            &&& same_message(a, b) && same_capture(a, b) && same_window(a, b) && same_pins(a, b)
        }),
{
}

} // verus!
