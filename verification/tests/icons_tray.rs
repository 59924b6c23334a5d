use realistic_mouse_jiggler::events::AppEvent;
use realistic_mouse_jiggler::icons::{decode_png, desktop_entry, desktop_exec_path, IconError};
use realistic_mouse_jiggler::palette::{rgba, Palette, Rgba, SystemTheme};
use realistic_mouse_jiggler::config::AppTheme;
use realistic_mouse_jiggler::tray::{menu_event, set_argb};

#[test]
fn exec_path_is_quoted_and_escaped() {
    assert_eq!(desktop_exec_path("/usr/bin/rmj"), "\"/usr/bin/rmj\"");
    assert_eq!(desktop_exec_path("/opt/a \"b\"\\c"), "\"/opt/a \\\"b\\\"\\\\c\"");
}

#[test]
fn desktop_entry_names_the_program() {
    let entry = desktop_entry("/usr/bin/rmj");
    assert_eq!(
        entry,
        "[Desktop Entry]\nType=Application\nName=Realistic Mouse Jiggler\nComment=Cross-platform desktop mouse jiggler\nExec=\"/usr/bin/rmj\"\nIcon=com.visorcraft.realistic-mouse-jiggler\nTerminal=false\nCategories=Utility;\nStartupWMClass=com.visorcraft.realistic-mouse-jiggler\n"
    );
}

#[test]
fn png_icons_decode_to_rgba() {
    let mut picture = image::RgbaImage::new(2, 1);
    picture.put_pixel(0, 0, image::Rgba([1, 2, 3, 4]));
    picture.put_pixel(1, 0, image::Rgba([5, 6, 7, 8]));
    let mut bytes = std::io::Cursor::new(Vec::new());
    picture.write_to(&mut bytes, image::ImageFormat::Png).unwrap();
    let bytes = bytes.into_inner();
    let icon = decode_png(&bytes).unwrap();
    assert_eq!((icon.width, icon.height), (2, 1));
    assert_eq!(icon.rgba, vec![1, 2, 3, 4, 5, 6, 7, 8]);
    assert_ne!(icon.rgba, bytes);
}

#[test]
fn garbage_is_not_an_icon() {
    assert_eq!(decode_png(b"not a png").unwrap_err(), IconError::Decode);
}

#[test]
fn tray_menu_ids() {
    assert!(matches!(menu_event("open"), Some(AppEvent::ShowWindow)));
    assert!(matches!(menu_event("start"), Some(AppEvent::StartRequested)));
    assert!(matches!(menu_event("stop"), Some(AppEvent::StopRequested)));
    assert!(matches!(menu_event("quit"), Some(AppEvent::QuitRequested)));
    assert!(menu_event("other").is_none());
}

#[test]
fn argb_pixels_are_written_in_place() {
    let mut data = vec![0_u8; 8];
    set_argb(&mut data, 4, 255, 1, 2, 3);
    assert_eq!(data, vec![0, 0, 0, 0, 255, 1, 2, 3]);
}

#[test]
fn palettes() {
    let light = Palette::for_theme(AppTheme::System, Some(SystemTheme::Light));
    assert!(!light.is_dark);
    assert_eq!(light, Palette::light());
    assert_eq!(Palette::for_theme(AppTheme::System, None), Palette::dark());
    let vibes = Palette::for_theme(AppTheme::Vibes, None);
    assert!(vibes.is_dark);
    assert_eq!(vibes.surface1, vibes.sidebar);
    assert_eq!(vibes.muted, Rgba { r: 0, g: 255, b: 204, a: 166 });
    assert_eq!(light.muted, rgba(26, 26, 26, 160));
}
