//! Monitors, files, hotkeys, windows, palettes and the tray icon.

use global_hotkey::hotkey::{Code, HotKey, Modifiers};
use screenshot_dai::capture::{
    encode_png_bytes, png_result, primary_monitor, rgba_image_to_color_image, screenshot_file_name,
};
use screenshot_dai::clipboard::{copy_table, copy_text};
use screenshot_dai::desktop::{compose_desktop, Shot};
use screenshot_dai::config::HotkeySettings;
use screenshot_dai::hotkey::{
    choose_hotkey, default_hotkey, hotkey_combo, hotkey_to_register, resolve_hotkey, Hotkey,
    HotkeyChoice, ALL_MODIFIERS, CTRL, SUPER,
};
use screenshot_dai::llm::{ChatMessage, LlmClient};
use screenshot_dai::failure::Failure;
use screenshot_dai::picture::{Rgba, RgbaImage};
use screenshot_dai::platform::{cursor_screen_physical, window_rect_at, Collector, WindowInfo};
use screenshot_dai::tray::tray_icon_rgba;
use screenshot_dai::ui::theme::{from_rgb, Palette, RADIUS_LG, RADIUS_SM};
use screenshot_dai::ui::toolbar::{
    color_presets, contrast_text_color, size_label, width_label, width_presets,
};

fn filled(width: u32, height: u32, color: Rgba) -> RgbaImage {
    let mut img = RgbaImage::new(width, height);
    for y in 0..height {
        for x in 0..width {
            img.put_pixel(x, y, color);
        }
    }
    img
}

#[test]
fn primary_monitor_comes_first() {
    assert_eq!(primary_monitor(&vec![false, true, true]).unwrap(), 1);
    assert_eq!(primary_monitor(&vec![false, false]).unwrap(), 0);
    assert_eq!(primary_monitor(&vec![]).unwrap_err().message, "no monitors found");
}

#[test]
fn screenshot_file_names_carry_their_time() {
    assert_eq!(screenshot_file_name(0), "screenshot-0.png");
    assert_eq!(screenshot_file_name(1_700_000_000), "screenshot-1700000000.png");
    assert_eq!(
        screenshot_file_name(u128::MAX),
        "screenshot-340282366920938463463374607431768211455.png"
    );
}

#[test]
fn png_of_an_image_decodes_to_it() {
    let mut img = RgbaImage::new(3, 2);
    img.put_pixel(2, 1, Rgba { r: 1, g: 2, b: 3, a: 4 });
    img.put_pixel(0, 0, Rgba { r: 250, g: 0, b: 9, a: 255 });
    let bytes = encode_png_bytes(&img).unwrap();
    assert_eq!(&bytes[..8], &[137, 80, 78, 71, 13, 10, 26, 10]);
    let back = image::load_from_memory(&bytes).unwrap().to_rgba8();
    assert_eq!((back.width(), back.height()), (3, 2));
    assert_eq!(back.as_raw(), img.as_raw());
    // The same image gives the same file.
    assert_eq!(encode_png_bytes(&img.clone()).unwrap(), bytes);
}

#[test]
fn png_of_nothing_is_refused() {
    for (w, h) in [(0, 0), (0, 5), (5, 0)] {
        let e = encode_png_bytes(&RgbaImage::new(w, h)).unwrap_err();
        assert_eq!(e.message, "failed to encode PNG");
    }
    assert_eq!(png_result(Ok(vec![1, 2])).unwrap(), vec![1, 2]);
}

#[test]
fn displayed_image_is_premultiplied() {
    let mut img = RgbaImage::new(2, 2);
    img.put_pixel(0, 0, Rgba { r: 10, g: 200, b: 255, a: 255 });
    img.put_pixel(1, 0, Rgba { r: 10, g: 200, b: 255, a: 0 });
    img.put_pixel(0, 1, Rgba { r: 10, g: 200, b: 255, a: 128 });
    img.put_pixel(1, 1, Rgba { r: 1, g: 3, b: 254, a: 127 });
    let shown = rgba_image_to_color_image(&img);
    assert_eq!(shown.size, [2, 2]);
    let pixels: Vec<[u8; 4]> = shown.pixels.iter().map(|p| p.to_array()).collect();
    assert_eq!(pixels[0], [10, 200, 255, 255]);
    assert_eq!(pixels[1], [0, 0, 0, 0]);
    assert_eq!(pixels[2], [5, 100, 128, 128]);
    assert_eq!(pixels[3], [0, 1, 127, 127]);
}

#[test]
fn every_channel_is_rounded_to_nearest() {
    let mut img = RgbaImage::new(256, 256);
    for a in 0..256u32 {
        for v in 0..256u32 {
            img.put_pixel(v, a, Rgba { r: v as u8, g: 0, b: 255, a: a as u8 });
        }
    }
    let shown = rgba_image_to_color_image(&img);
    for a in 0..256usize {
        for v in 0..256usize {
            let p = shown.pixels[a * 256 + v].to_array();
            assert_eq!(p[0] as usize, (2 * v * a + 255) / 510);
            assert_eq!(p[1], 0);
            assert_eq!(p[2] as usize, (2 * 255 * a + 255) / 510);
            assert_eq!(p[3] as usize, a);
        }
    }
}

#[test]
fn desktop_shows_every_monitor_in_its_place() {
    let red = from_rgb(255, 0, 0);
    let green = from_rgb(0, 255, 0);
    let shots = vec![
        Shot { x: 0, y: 0, image: filled(4, 3, red) },
        Shot { x: -2, y: 1, image: filled(2, 4, green) },
    ];
    let d = compose_desktop(&shots).unwrap();
    assert_eq!(d.origin, (-2, 0));
    assert_eq!((d.image.width(), d.image.height()), (6, 5));
    assert_eq!(d.image.get_pixel(2, 0), red);
    assert_eq!(d.image.get_pixel(5, 2), red);
    assert_eq!(d.image.get_pixel(0, 1), green);
    assert_eq!(d.image.get_pixel(1, 4), green);
    // Where no monitor lies there is nothing.
    assert_eq!(d.image.get_pixel(0, 0), Rgba { r: 0, g: 0, b: 0, a: 0 });
    assert_eq!(d.image.get_pixel(5, 4), Rgba { r: 0, g: 0, b: 0, a: 0 });
}

#[test]
fn later_monitor_covers_earlier_one() {
    let red = from_rgb(255, 0, 0);
    let green = from_rgb(0, 255, 0);
    let shots = vec![
        Shot { x: 0, y: 0, image: filled(4, 4, red) },
        Shot { x: 1, y: 1, image: filled(2, 2, green) },
    ];
    let d = compose_desktop(&shots).unwrap();
    assert_eq!(d.image.get_pixel(1, 1), green);
    assert_eq!(d.image.get_pixel(3, 3), red);
}

#[test]
fn impossible_desktops_are_refused() {
    assert_eq!(compose_desktop(&vec![]).unwrap_err().message, "no monitors found");
    let shots = vec![
        Shot { x: i32::MIN, y: i32::MIN, image: RgbaImage::new(1, 1) },
        Shot { x: i32::MAX, y: i32::MAX, image: RgbaImage::new(1, 1) },
    ];
    assert_eq!(compose_desktop(&shots).unwrap_err().message, "the virtual desktop is too large");
}

#[test]
fn hotkey_fields_are_joined() {
    assert_eq!(hotkey_combo(" Ctrl+Shift ", " S "), "Ctrl+Shift+S");
    assert_eq!(hotkey_combo("  ", "S"), "S");
    assert_eq!(hotkey_combo("Ctrl", ""), "Ctrl+");
    assert_eq!(hotkey_combo("", ""), "");
}

#[test]
fn configured_hotkey_is_used() {
    let expected = HotKey::new(Some(Modifiers::CONTROL | Modifiers::SHIFT), Code::KeyS);
    match choose_hotkey("Ctrl+Shift", "S") {
        HotkeyChoice::Configured(h) => {
            assert_eq!(h.modifiers, expected.mods.bits());
            assert_eq!(h.key.parse::<Code>().unwrap(), expected.key);
            let built = HotKey::new(
                Some(Modifiers::from_bits_truncate(h.modifiers)),
                h.key.parse().unwrap(),
            );
            assert_eq!(built, expected);
        }
        other => panic!("{other:?}"),
    }
    let f9 = Hotkey { modifiers: 0, key: "F9".to_string() };
    assert_eq!(choose_hotkey("", " F9 "), HotkeyChoice::Configured(f9));
}

#[test]
fn default_hotkey_steps_in() {
    assert_eq!(choose_hotkey("Ctrl", "  "), HotkeyChoice::NoKey);
    assert_eq!(choose_hotkey("", ""), HotkeyChoice::NoKey);
    assert_eq!(choose_hotkey("Ctrl", "nonsense"), HotkeyChoice::NotUnderstood);
    assert_eq!(choose_hotkey("S", "Ctrl"), HotkeyChoice::NotUnderstood);
    let refused = |text: &str| Err(text.parse::<HotKey>().unwrap_err());
    assert_eq!(resolve_hotkey(refused(""), "x"), HotkeyChoice::NotUnderstood);
    assert_eq!(resolve_hotkey(refused("Ctrl+"), " "), HotkeyChoice::NoKey);
    let parsed = Ok(Hotkey { modifiers: 8, key: "KeyP".to_string() });
    assert!(matches!(resolve_hotkey(parsed, "P"), HotkeyChoice::Configured(h) if h.key == "KeyP"));
}

#[test]
fn platform_dependent_modifier_is_ctrl_or_super() {
    assert_eq!(CTRL, Modifiers::CONTROL.bits());
    assert_eq!(SUPER, Modifiers::SUPER.bits());
    let all = Modifiers::ALT | Modifiers::CONTROL | Modifiers::SHIFT | Modifiers::SUPER;
    assert_eq!(ALL_MODIFIERS, all.bits());
    for name in ["CmdOrCtrl", " cmdorcontrol ", "COMMANDORCTRL", "CommandOrControl"] {
        match choose_hotkey(&format!("Alt + {name}+Shift"), "P") {
            HotkeyChoice::Configured(h) => {
                let rest = (Modifiers::ALT | Modifiers::SHIFT).bits();
                assert!(h.modifiers == rest | CTRL || h.modifiers == rest | SUPER);
                assert_eq!(h.key, "KeyP");
            }
            other => panic!("{other:?}"),
        }
        // It is no key of its own.
        assert_eq!(choose_hotkey("", name), HotkeyChoice::NotUnderstood);
        assert_eq!(choose_hotkey("Alt", name), HotkeyChoice::NotUnderstood);
    }
}

#[test]
fn default_hotkey_is_ctrl_shift_s() {
    let d = default_hotkey();
    let expected = HotKey::new(Some(Modifiers::CONTROL | Modifiers::SHIFT), Code::KeyS);
    assert_eq!(d.modifiers, expected.mods.bits());
    assert_eq!(d.key.parse::<Code>().unwrap(), expected.key);
    // The default settings ask for it too.
    let h = HotkeySettings::default();
    let chosen = choose_hotkey(&h.hotkey_modifiers, &h.hotkey_key);
    assert_eq!(chosen, HotkeyChoice::Configured(d));
}

#[test]
fn failed_registration_falls_back_once() {
    let f9 = || Hotkey { modifiers: 0, key: "F9".to_string() };
    let configured = HotkeyChoice::Configured(f9());
    assert_eq!(hotkey_to_register(&configured, 0), Some(f9()));
    assert_eq!(hotkey_to_register(&configured, 1), Some(default_hotkey()));
    assert_eq!(hotkey_to_register(&configured, 2), None);
    for choice in [HotkeyChoice::NoKey, HotkeyChoice::NotUnderstood] {
        assert_eq!(hotkey_to_register(&choice, 0), Some(default_hotkey()));
        assert_eq!(hotkey_to_register(&choice, 1), Some(default_hotkey()));
        assert_eq!(hotkey_to_register(&choice, 2), None);
    }
}

#[test]
fn smallest_window_under_the_cursor_wins() {
    let rects = vec![(0, 0, 100, 100), (10, 10, 50, 50), (20, 20, 60, 60), (200, 0, 201, 1)];
    assert_eq!(window_rect_at(30, 30, &rects), Some((10, 10, 50, 50)));
    assert_eq!(window_rect_at(55, 55, &rects), Some((20, 20, 60, 60)));
    assert_eq!(window_rect_at(99, 0, &rects), Some((0, 0, 100, 100)));
    assert_eq!(window_rect_at(100, 0, &rects), None);
    assert_eq!(window_rect_at(0, 0, &vec![]), None);
    let all = (i32::MIN, i32::MIN, i32::MAX, i32::MAX);
    assert_eq!(window_rect_at(0, 0, &vec![all]), Some(all));
}

#[test]
fn only_real_windows_are_collected() {
    let good = WindowInfo {
        visible: true,
        minimized: false,
        rect: Some((1, 2, 3, 4)),
        title_len: 5,
    };
    let mut c = Collector::new();
    c.offer(&good);
    c.offer(&WindowInfo { visible: false, ..good });
    c.offer(&WindowInfo { minimized: true, ..good });
    c.offer(&WindowInfo { rect: None, ..good });
    c.offer(&WindowInfo { rect: Some((3, 2, 3, 4)), ..good });
    c.offer(&WindowInfo { rect: Some((1, 5, 3, 4)), ..good });
    c.offer(&WindowInfo { title_len: 0, ..good });
    c.offer(&WindowInfo { rect: Some((0, 0, 9, 9)), ..good });
    assert_eq!(c.rects, vec![(1, 2, 3, 4), (0, 0, 9, 9)]);
    assert_eq!(cursor_screen_physical(), None);
}

#[test]
fn palettes_have_their_colors() {
    let light = Palette::light();
    assert_eq!(light.bg, from_rgb(0xfd, 0xf6, 0xe3));
    assert_eq!(light.accent_blue, from_rgb(0x26, 0x8b, 0xd2));
    assert_eq!(light.border, Rgba { r: 0, g: 0, b: 0, a: 0x1f });
    assert!(!light.dark_mode);
    let dark = Palette::dark();
    assert_eq!(dark.bg, from_rgb(0x0e, 0x0e, 0x10));
    assert_eq!(dark.border_strong, Rgba { r: 255, g: 255, b: 255, a: 0x82 });
    assert!(dark.dark_mode);
    assert_eq!((RADIUS_SM, RADIUS_LG), (6, 16));
}

#[test]
fn button_text_is_legible() {
    let black = from_rgb(0, 0, 0);
    let white = from_rgb(255, 255, 255);
    assert_eq!(contrast_text_color(black), white);
    assert_eq!(contrast_text_color(white), black);
    assert_eq!(contrast_text_color(from_rgb(0x26, 0x8b, 0xd2)), white);
    assert_eq!(contrast_text_color(from_rgb(140, 140, 140)), white);
    assert_eq!(contrast_text_color(from_rgb(141, 140, 140)), black);
}

#[test]
fn light_fills_are_those_of_the_single_precision_luma() {
    let black = from_rgb(0, 0, 0);
    assert_eq!(contrast_text_color(from_rgb(205, 123, 117)), black);
    for r in 0..=255u8 {
        for g in 0..=255u8 {
            for b in 0..=255u8 {
                let luma = 0.2126 * r as f32 + 0.7152 * g as f32 + 0.0722 * b as f32;
                let dark_text = contrast_text_color(from_rgb(r, g, b)) == black;
                assert_eq!(dark_text, luma > 140.0, "({r}, {g}, {b})");
            }
        }
    }
}

#[test]
fn toolbar_offers_presets() {
    let colors = color_presets();
    assert_eq!(colors.len(), 6);
    assert_eq!(colors[0], from_rgb(0x26, 0x8b, 0xd2));
    assert_eq!(colors[5], from_rgb(0x58, 0x6e, 0x75));
    assert_eq!(width_presets(), vec![1, 2, 4]);
    assert_eq!(width_label(4, 2), "4 px");
    assert_eq!(width_label(2, 2), "2 px  ✓");
    assert_eq!(size_label(1920, 1080), "1920 × 1080");
    assert_eq!(size_label(-3, i32::MIN), "-3 × -2147483648");
}

#[test]
fn tray_icon_is_a_rounded_square_with_marks() {
    let rgba = tray_icon_rgba();
    assert_eq!(rgba.len(), 32 * 32 * 4);
    let at = |x: usize, y: usize| {
        let i = (y * 32 + x) * 4;
        [rgba[i], rgba[i + 1], rgba[i + 2], rgba[i + 3]]
    };
    let blue = [0x26, 0x8b, 0xd2, 0xff];
    let white = [0xff; 4];
    assert_eq!(at(16, 16), blue);
    assert_eq!(at(4, 16), blue);
    assert_eq!(at(3, 16), [0; 4]);
    // The corner is rounded away, the inside of the corner is not.
    assert_eq!(at(4, 4), [0; 4]);
    assert_eq!(at(27, 4), [0; 4]);
    assert_eq!(at(7, 7), blue);
    // The marks.
    assert_eq!(at(8, 8), white);
    assert_eq!(at(13, 9), white);
    assert_eq!(at(14, 8), blue);
    assert_eq!(at(10, 10), blue);
    assert_eq!(at(23, 18), white);
    assert_eq!(at(18, 22), white);
    for y in 0..32 {
        for x in 0..32 {
            assert_eq!(at(x, y), at(31 - x, y));
            assert_eq!(at(x, y), at(x, 31 - y));
        }
    }
}

#[test]
fn text_and_table_copies_are_not_available() {
    assert_eq!(copy_text("x").unwrap_err().message, "not implemented yet");
    assert_eq!(copy_table("|a|").unwrap_err().message, "not implemented yet");
}

struct Echo;

impl LlmClient for Echo {
    fn chat(&self, messages: &[ChatMessage]) -> Result<String, Failure> {
        Ok(messages[0].content.clone())
    }

    fn translate_to_chinese(&self, text: &str) -> Result<String, Failure> {
        Err(Failure { message: text.to_string() })
    }
}

#[test]
fn clients_can_be_implemented() {
    let m = ChatMessage { role: "user".to_string(), content: "hello".to_string() };
    assert_eq!(Echo.chat(&[m.clone()]).unwrap(), "hello");
    assert_eq!(Echo.translate_to_chinese("a").unwrap_err().message, "a");
    assert_eq!(m.role, "user");
}
