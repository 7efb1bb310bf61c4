use cosmic_scribe::tray::{
    capsule_color, compose_icon_rgba, decode_png_rgba, icon_argb, mic_color, paint_mask,
    rgba_to_argb, tray_cancel_item, tray_startup_race, tray_status_active, tray_tooltip, IconMask,
};
use cosmic_scribe::tray_theme::{
    color_scheme_preference, gtk_theme_implies_dark, is_color_scheme_signal, is_theme_monitor_line,
    portal_scheme_to_dark, ui_prefers_dark, ThemeTracker,
};

fn solid_mask(size: i32, alpha: u8) -> IconMask {
    let mut rgba = Vec::new();
    for _ in 0..size * size {
        rgba.extend_from_slice(&[0, 0, 0, alpha]);
    }
    IconMask { width: size, rgba }
}

#[test]
fn capsule_colours_follow_state() {
    assert_eq!(capsule_color("recording", true), (220, 40, 40));
    assert_eq!(capsule_color("error", false), (220, 40, 40));
    assert_eq!(capsule_color("transcribing", true), (55, 140, 255));
    assert_eq!(capsule_color("inserting", true), capsule_color("transcribing", true));
    assert_eq!(capsule_color("idle", true), mic_color(true));
    assert_eq!(mic_color(false), (26, 34, 56));
}

#[test]
fn pixel_painting_and_argb() {
    let mut px = vec![1u8, 2, 3, 4, 5, 6, 7, 8, 9];
    rgba_to_argb(&mut px);
    assert_eq!(px, vec![4, 1, 2, 3, 8, 5, 6, 7, 9]);
    let mut canvas = vec![0u8; 8];
    paint_mask(&mut canvas, &[0, 0, 0, 0, 0, 0, 0, 9], (10, 20, 30));
    assert_eq!(canvas, vec![0, 0, 0, 0, 10, 20, 30, 255]);
    let body = solid_mask(2, 255);
    let cap = IconMask { width: 2, rgba: vec![0, 0, 0, 0, 0, 0, 0, 0, 0, 0, 0, 1, 0, 0, 0, 0] };
    let icon = compose_icon_rgba("recording", true, 2, &body, &cap);
    assert_eq!(&icon[0..4], &[238, 241, 248, 255]);
    assert_eq!(&icon[8..12], &[220, 40, 40, 255]);
    let argb = icon_argb("recording", true, 2, &body, &cap);
    assert_eq!(&argb[8..12], &[255, 220, 40, 40]);
    let blank = compose_icon_rgba("idle", true, 2, &solid_mask(2, 0), &solid_mask(2, 0));
    assert!(blank.iter().all(|b| *b == 0));
}

#[test]
fn png_masks_decode() {
    assert!(decode_png_rgba(b"not a png").is_none());
    let rgba_png: [u8; 74] = [
        137, 80, 78, 71, 13, 10, 26, 10, 0, 0, 0, 13, 73, 72, 68, 82, 0, 0, 0, 2, 0, 0, 0, 1, 8, 6, 0, 0, 0, 244, 34,
        127, 138, 0, 0, 0, 17, 73, 68, 65, 84, 120, 156, 99, 224, 18, 145, 99, 208, 48, 178, 249, 15, 0, 4, 70, 1, 210,
        55, 226, 138, 20, 0, 0, 0, 0, 73, 69, 78, 68, 174, 66, 96, 130,
    ];
    let m = decode_png_rgba(&rgba_png).expect("rgba png");
    assert_eq!(m.width, 2);
    assert_eq!(m.rgba, vec![10, 20, 30, 0, 40, 50, 60, 255]);
    let rgb_png: [u8; 69] = [
        137, 80, 78, 71, 13, 10, 26, 10, 0, 0, 0, 13, 73, 72, 68, 82, 0, 0, 0, 1, 0, 0, 0, 1, 8, 2, 0, 0, 0, 144, 119,
        83, 222, 0, 0, 0, 12, 73, 68, 65, 84, 120, 156, 99, 96, 231, 224, 4, 0, 0, 50, 0, 25, 143, 228, 29, 6, 0, 0, 0,
        0, 73, 69, 78, 68, 174, 66, 96, 130,
    ];
    let m = decode_png_rgba(&rgb_png).expect("rgb png");
    assert_eq!(m.width, 1);
    assert_eq!(m.rgba, vec![7, 8, 9, 255]);
}

#[test]
fn tray_texts_and_status() {
    assert!(tray_status_active("recording"));
    assert!(!tray_status_active("idle"));
    assert_eq!(tray_tooltip("recording"), "Recording — click to stop");
    assert_eq!(tray_tooltip("inserting"), "Transcribing...");
    assert_eq!(tray_tooltip("whatever"), "Cosmic Scribe — click to record");
    assert_eq!(tray_cancel_item("recording"), Some(("Cancel recording", "edit-delete")));
    assert_eq!(tray_cancel_item("transcribing"), Some(("Cancel transcription", "process-stop")));
    assert_eq!(tray_cancel_item("idle"), None);
    assert!(tray_startup_race("org.kde.StatusNotifierWatcher was not provided"));
    assert!(!tray_startup_race("permission denied"));
}

#[test]
fn portal_scheme_values_map_correctly() {
    assert_eq!(portal_scheme_to_dark(Some(1)), Some(true));
    assert_eq!(portal_scheme_to_dark(Some(2)), Some(false));
    assert_eq!(portal_scheme_to_dark(Some(0)), None);
    assert_eq!(portal_scheme_to_dark(None), None);
}

#[test]
fn theme_probes() {
    assert_eq!(color_scheme_preference(Some("'prefer-dark'\n")), Some(true));
    assert_eq!(color_scheme_preference(Some("'prefer-light'")), Some(false));
    assert_eq!(color_scheme_preference(Some("'default'")), None);
    assert!(gtk_theme_implies_dark(Some("'Adwaita-dark'")));
    assert!(!gtk_theme_implies_dark(Some("'Adwaita'")));
    assert!(!gtk_theme_implies_dark(Some("'Pop-light'")));
    assert!(gtk_theme_implies_dark(Some("'Yaru'")));
    assert!(gtk_theme_implies_dark(None));
    assert!(!ui_prefers_dark(Some("'prefer-light'"), Some("'Adwaita-dark'")));
    assert!(ui_prefers_dark(Some("'default'"), Some("'Adwaita-dark'")));
    let mut t = ThemeTracker::new();
    assert!(!t.notify_theme_change(true));
    assert!(t.notify_theme_change(false));
    assert!(!t.notify_theme_change(false));
    assert!(is_color_scheme_signal("org.freedesktop.appearance", "color-scheme"));
    assert!(!is_color_scheme_signal("org.freedesktop.appearance", "accent-color"));
    assert!(is_theme_monitor_line("gtk-theme: 'Adwaita'"));
}

/// 22 px masks shaped like the tray icon: the capsule in the upper middle, the stand and
/// body below it; the corners stay empty.
fn tray_masks() -> (IconMask, IconMask) {
    let size = 22;
    let mut body = Vec::new();
    let mut capsule = Vec::new();
    for y in 0..size {
        for x in 0..size {
            let in_capsule = (8..=14).contains(&x) && (3..=13).contains(&y);
            let in_body = (5..=17).contains(&x) && (14..=19).contains(&y);
            capsule.extend_from_slice(&[0, 0, 0, if in_capsule { 255 } else { 0 }]);
            body.extend_from_slice(&[0, 0, 0, if in_body { 255 } else { 0 }]);
        }
    }
    (IconMask { width: size, rgba: body }, IconMask { width: size, rgba: capsule })
}

fn build_icon_sized(state: &str, dark_ui: bool) -> Vec<u8> {
    let (body, capsule) = tray_masks();
    icon_argb(state, dark_ui, 22, &body, &capsule)
}

fn capsule_center_argb(data: &[u8]) -> (u8, u8, u8) {
    let idx = (8 * 22 + 11) * 4;
    (data[idx + 1], data[idx + 2], data[idx + 3])
}

#[test]
fn recording_capsule_is_red() {
    let (r, g, b) = capsule_center_argb(&build_icon_sized("recording", true));
    assert!(r > 200 && g < 80 && b < 80, "red capsule, got r={r} g={g} b={b}");
}

#[test]
fn transcribing_capsule_is_blue() {
    let (r, _g, b) = capsule_center_argb(&build_icon_sized("transcribing", true));
    assert!(b > 200 && r < 120, "blue capsule, got r={r} b={b}");
}

#[test]
fn inserting_capsule_matches_transcribing_blue() {
    assert_eq!(build_icon_sized("inserting", true), build_icon_sized("transcribing", true));
}

#[test]
fn idle_tray_background_is_transparent() {
    let icon = build_icon_sized("idle", true);
    let idx = (2 * 22 + 2) * 4;
    assert_eq!(icon[idx], 0, "corner alpha should be 0");
}

#[test]
fn idle_mic_is_light_on_dark_ui() {
    let (r, g, b) = capsule_center_argb(&build_icon_sized("idle", true));
    assert!(r > 200 && g > 200 && b > 200, "light mic expected, got r={r} g={g} b={b}");
}

#[test]
fn idle_mic_is_dark_on_light_ui() {
    let (r, g, b) = capsule_center_argb(&build_icon_sized("idle", false));
    assert!(r < 40 && g < 50 && b < 70, "dark mic expected, got r={r} g={g} b={b}");
}
