//! The application's state: captures, pins, the settings window.

use screenshot_dai::app::{
    Harvest, MenuChoice, MsgKind, Saved, ScreenshotDaiApp, SettingsFrame, WindowCommand,
};
use screenshot_dai::config::{HotkeySettings, Settings, Stored, Written};
use screenshot_dai::failure::Failure;
use screenshot_dai::picture::{Rgba, RgbaImage};
use screenshot_dai::ui::region_overlay::{EditorOutcome, RegionSession};

fn app() -> ScreenshotDaiApp {
    ScreenshotDaiApp::new(Settings::default(), HotkeySettings::default())
}

fn failure(text: &str) -> Failure {
    Failure { message: text.to_string() }
}

fn finished(outcome: EditorOutcome) -> RegionSession {
    let mut s = RegionSession::new(RgbaImage::new(4, 3));
    s.finished = true;
    s.result = Some(outcome);
    s
}

fn pin(app: &mut ScreenshotDaiApp) -> u64 {
    app.capture_started(finished(EditorOutcome::Pin(RgbaImage::new(6, 5))));
    match app.harvest() {
        Some(Harvest::Pinned { pin, image }) => {
            assert_eq!((pin.width_px, pin.height_px), (image.width(), image.height()));
            pin.id
        }
        other => panic!("not pinned: {other:?}"),
    }
}

#[test]
fn app_starts_hidden_and_quiet() {
    let a = app();
    assert!(!a.window_visible && !a.capture_requested && !a.quitting);
    assert!(a.message.is_empty() && a.region_session.is_none() && a.pins.is_empty());
    assert_eq!(a.message_kind, MsgKind::Info);
    assert_eq!(a.settings_buf.openai_model, "gpt-4o");
    assert_eq!(a.hotkeys_buf.hotkey_key, "S");
}

#[test]
fn request_starts_a_capture_once() {
    let mut a = app();
    assert!(!a.take_capture_request());
    a.hotkey_pressed();
    a.hotkey_pressed();
    assert!(a.take_capture_request());
    assert!(!a.take_capture_request());
    a.capture_started(RegionSession::new(RgbaImage::new(4, 3)));
    assert_eq!(a.menu_chosen(MenuChoice::CaptureRegion), None);
    assert!(a.capture_requested);
    assert!(!a.take_capture_request());
    assert!(a.region_session.is_some() && !a.capture_requested);
}

#[test]
fn failed_capture_is_reported() {
    let mut a = app();
    a.capture_failed(&failure("no monitors found"));
    assert_eq!(a.message, "Region capture failed: no monitors found");
    assert_eq!(a.message_kind, MsgKind::Error);
    // The next capture clears the message.
    a.capture_started(RegionSession::new(RgbaImage::new(4, 3)));
    assert_eq!(a.message, "");
}

#[test]
fn open_capture_is_not_harvested() {
    let mut a = app();
    assert!(a.harvest().is_none());
    a.capture_started(RegionSession::new(RgbaImage::new(4, 3)));
    assert!(a.harvest().is_none());
    assert!(a.region_session.is_some());
}

#[test]
fn pins_get_fresh_ids() {
    let mut a = app();
    assert_eq!(pin(&mut a), 0);
    assert_eq!(a.message, "Pinned.");
    assert!(a.region_session.is_none());
    assert_eq!(pin(&mut a), 1);
    a.close_pin(0);
    a.close_pin(1);
    a.reap_pins();
    assert!(a.pins.is_empty());
    assert_eq!(pin(&mut a), 2);
    assert_eq!(a.next_pin_id, 3);
}

#[test]
fn reaping_drops_closed_pins_only() {
    let mut a = app();
    for _ in 0..5 {
        pin(&mut a);
    }
    a.close_pin(1);
    a.close_pin(3);
    a.close_pin(77);
    assert_eq!(a.pins.len(), 5);
    a.reap_pins();
    let ids: Vec<u64> = a.pins.iter().map(|p| p.id).collect();
    assert_eq!(ids, vec![0, 2, 4]);
    a.reap_pins();
    assert_eq!(a.pins.len(), 3);
}

#[test]
fn pin_window_closes_on_any_wish() {
    let mut a = app();
    pin(&mut a);
    let mut p = a.pins[0];
    assert_eq!(p.texture_name(), "pin-0");
    p.frame(false, false, false);
    assert!(!p.closed);
    for (request, esc, button) in [(true, false, false), (false, true, false), (false, false, true)] {
        let mut q = p;
        q.frame(request, esc, button);
        assert!(q.closed);
        q.frame(false, false, false);
        assert!(q.closed);
    }
}

#[test]
fn save_and_copy_hand_out_the_image() {
    let mut img = RgbaImage::new(2, 2);
    img.put_pixel(1, 1, Rgba { r: 1, g: 2, b: 3, a: 4 });
    let mut a = app();
    a.capture_started(finished(EditorOutcome::Save(img.clone())));
    assert!(matches!(a.harvest(), Some(Harvest::Save(out)) if out == img));
    assert!(a.message.is_empty());
    a.capture_started(finished(EditorOutcome::Copy(img.clone())));
    assert!(matches!(a.harvest(), Some(Harvest::Copy(out)) if out == img));
    assert!(a.region_session.is_none());
    a.capture_started(finished(EditorOutcome::Cancel));
    assert!(matches!(a.harvest(), Some(Harvest::Cancelled)));
    assert_eq!(a.message, "Capture cancelled.");
}

#[test]
fn results_of_saving_and_copying_are_shown() {
    let mut a = app();
    a.save_ended(&Saved::To("/tmp/a.png".to_string()));
    assert_eq!((a.message.as_str(), a.message_kind), ("Saved to /tmp/a.png", MsgKind::Success));
    a.save_ended(&Saved::NoPath);
    assert_eq!((a.message.as_str(), a.message_kind), ("Save cancelled", MsgKind::Info));
    a.save_ended(&Saved::Failed(failure("disk full")));
    assert_eq!((a.message.as_str(), a.message_kind), ("Save failed: disk full", MsgKind::Error));
    a.copy_ended(&Ok(()));
    assert_eq!((a.message.as_str(), a.message_kind), ("Copied to clipboard", MsgKind::Success));
    a.copy_ended(&Err(failure("busy")));
    assert_eq!((a.message.as_str(), a.message_kind), ("Copy failed: busy", MsgKind::Error));
}

#[test]
fn closing_hides_and_quitting_quits() {
    let mut a = app();
    assert_eq!(a.menu_chosen(MenuChoice::Settings), Some(WindowCommand::Show));
    assert!(a.window_visible);
    assert_eq!(a.close_requested(), WindowCommand::KeepHidden);
    assert!(!a.window_visible && !a.quitting);
    assert_eq!(a.menu_chosen(MenuChoice::Quit), Some(WindowCommand::Close));
    assert!(a.quitting);
    assert_eq!(a.close_requested(), WindowCommand::Close);
}

#[test]
fn hidden_window_is_confirmed_once() {
    let mut a = app();
    assert_eq!(a.settings_frame(false), SettingsFrame::HideAgain);
    assert_eq!(a.settings_frame(false), SettingsFrame::HideAgain);
    assert_eq!(a.settings_frame(true), SettingsFrame::Hidden);
    assert_eq!(a.settings_frame(false), SettingsFrame::Hidden);
    assert_eq!(a.show_window(), WindowCommand::Show);
    assert_eq!(a.settings_frame(false), SettingsFrame::Draw);
    assert_eq!(a.hide_window(), WindowCommand::Hide);
    assert_eq!(a.settings_frame(false), SettingsFrame::HideAgain);
}

#[test]
fn settings_are_saved_and_reset() {
    let mut a = app();
    a.settings_buf.openai_model = "other".to_string();
    a.hotkeys_buf.hotkey_key = "P".to_string();
    a.settings_save_ended(&Err(failure("failed to write x: denied")));
    assert_eq!(a.message, "Failed to save settings: failed to write x: denied");
    assert_eq!(a.settings.openai_model, "gpt-4o");
    a.settings_save_ended(&Ok(()));
    assert_eq!((a.message.as_str(), a.message_kind), ("Settings saved.", MsgKind::Success));
    assert_eq!(a.settings.openai_model, "other");
    assert_eq!(a.hotkeys.hotkey_key, "P");
    a.settings_buf.openai_model = "third".to_string();
    a.hotkeys_buf.hotkey_key = "Q".to_string();
    a.reset_settings();
    assert_eq!(a.settings_buf.openai_model, "other");
    assert_eq!(a.hotkeys_buf.hotkey_key, "P");
}

#[test]
fn message_color_follows_its_kind() {
    let mut a = app();
    assert_eq!(a.message_color(), Rgba { r: 0x83, g: 0x94, b: 0x96, a: 255 });
    a.set_message(MsgKind::Error, "error".to_string());
    assert_eq!(a.message_color(), Rgba { r: 0xdc, g: 0x32, b: 0x2f, a: 255 });
    a.set_message(MsgKind::Success, "fine".to_string());
    assert_eq!(a.message_color(), Rgba { r: 0x85, g: 0x99, b: 0x00, a: 255 });
}

#[test]
fn missing_settings_are_the_default() {
    for stored in [Stored::NoConfigDir, Stored::Missing] {
        let s = Settings::load(stored).unwrap();
        assert_eq!(s.openai_base_url, "https://api.openai.com/v1");
        assert_eq!(s.openai_api_key, "");
        assert_eq!(s.openai_model, "gpt-4o");
        assert_eq!(s.ocr_endpoint, "");
    }
    let mut mine = Settings::default();
    mine.ocr_endpoint = "http://localhost".to_string();
    let s = Settings::load(Stored::Parsed(mine.clone())).unwrap();
    assert_eq!(s.ocr_endpoint, "http://localhost");
}

#[test]
fn unusable_settings_are_refused() {
    let path = "/c/settings.json".to_string();
    let e = Settings::load(Stored::Unreadable { path: path.clone(), cause: "denied".to_string() });
    assert_eq!(e.unwrap_err().message, "failed to read /c/settings.json: denied");
    let e = Settings::load(Stored::Malformed { path, cause: "line 1".to_string() });
    assert_eq!(e.unwrap_err().message, "failed to parse /c/settings.json: line 1");
}

#[test]
fn failures_to_save_settings_are_explained() {
    let path = || "/c/x".to_string();
    let cause = || "denied".to_string();
    assert!(Settings::save(Written::Done).is_ok());
    let message = |w: Written| Settings::save(w).unwrap_err().message;
    assert_eq!(message(Written::NoConfigDir), "no config dir available to write settings");
    assert_eq!(
        message(Written::NoDirectory { path: path(), cause: cause() }),
        "failed to create /c/x: denied"
    );
    assert_eq!(
        message(Written::NotSerialized { cause: cause() }),
        "failed to serialize settings: denied"
    );
    assert_eq!(
        message(Written::NotWritten { path: path(), cause: cause() }),
        "failed to write /c/x: denied"
    );
}
