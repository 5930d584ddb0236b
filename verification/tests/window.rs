use zhuanzhuan::controls::{menu_action, Controls, MenuAction};
use zhuanzhuan::icon::{decode_icon, IconError};
use zhuanzhuan::overlay::{
    overlay_bitmap_info, overlay_blend, overlay_buffer_len, overlay_placement, BLENDFUNCTION,
    OVERLAY_EX_STYLE, POINT, SIZE,
};
use zhuanzhuan::timer::{Cmd, Params};

#[test]
fn start_button_reads_minutes() {
    let mut c = Controls::new();
    assert!(!c.active);
    let cmd = c.click_start("20", Some((8.0f32, 3.0f32)));
    assert_eq!(cmd, Some(Cmd::Start(Params { interval_s: 1200, anim: (8.0f32, 3.0f32) })));
    assert!(c.active);
}

#[test]
fn start_button_needs_all_values() {
    let mut c = Controls::new();
    assert_eq!(c.click_start("abc", Some((8.0f32, 3.0f32))), None);
    assert!(!c.active);
    assert_eq!(c.click_start::<(f32, f32)>("5", None), None);
    assert!(!c.active);
}

#[test]
fn test_button_starts_without_waiting() {
    let mut c = Controls::new();
    assert_eq!(
        c.click_test(Some((2.5f32, 1.0f32))),
        Some(Cmd::Start(Params { interval_s: 0, anim: (2.5f32, 1.0f32) }))
    );
    assert!(c.active);
    assert_eq!(c.click_stop::<(f32, f32)>(), Cmd::Stop);
    assert!(!c.active);
    assert_eq!(c.click_test::<(f32, f32)>(None), None);
    assert!(!c.active);
}

#[test]
fn menu_entries() {
    assert_eq!(menu_action("show"), MenuAction::Show);
    assert_eq!(menu_action("exit"), MenuAction::Exit);
    assert_eq!(menu_action("autostart"), MenuAction::ToggleAutostart);
    assert_eq!(menu_action("Show"), MenuAction::Ignore);
    assert_eq!(menu_action(""), MenuAction::Ignore);
}

#[test]
fn overlay_structures() {
    let bmi = overlay_bitmap_info();
    assert_eq!(bmi.header.size, 40);
    assert_eq!(bmi.header.width, 300);
    assert_eq!(bmi.header.height, -300);
    assert_eq!(bmi.header.planes, 1);
    assert_eq!(bmi.header.bit_count, 32);
    assert_eq!(bmi.header.compression, 0);
    assert_eq!(bmi.colors, [0u32]);
    assert_eq!(overlay_buffer_len(), 360_000);
    assert_eq!(overlay_blend(), BLENDFUNCTION { op: 0, flags: 0, alpha: 255, format: 1 });
    assert_eq!(
        overlay_placement(10, -20),
        (POINT { x: 10, y: -20 }, SIZE { cx: 300, cy: 300 }, POINT { x: 0, y: 0 })
    );
    assert_eq!(OVERLAY_EX_STYLE, 0x080800A8);
}

const TWO_PIXEL_PNG: [u8; 72] = [
    137, 80, 78, 71, 13, 10, 26, 10, 0, 0, 0, 13, 73, 72, 68, 82, 0, 0, 0, 2, 0, 0, 0, 1, 8, 6, 0,
    0, 0, 244, 34, 127, 138, 0, 0, 0, 15, 73, 68, 65, 84, 120, 156, 99, 248, 207, 192, 240, 31, 8,
    27, 0, 16, 121, 3, 126, 125, 99, 206, 215, 0, 0, 0, 0, 73, 69, 78, 68, 174, 66, 96, 130,
];

#[test]
fn decodes_png_icon() {
    let img = decode_icon(&TWO_PIXEL_PNG).ok().unwrap();
    assert_eq!((img.width, img.height), (2, 1));
    assert_eq!(img.rgba, vec![255u8, 0, 0, 255, 0, 255, 0, 128]);
}

#[test]
fn rejects_garbage_icon() {
    assert_eq!(decode_icon(b"not an image").err(), Some(IconError::Decode));
}
