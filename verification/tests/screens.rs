use realistic_mouse_jiggler::screens::{screen_rect_bounds, virtual_screen_bounds, Bounds};

#[test]
fn clamp_stays_inside_bounds() {
    let bounds = Bounds {
        min_x: 0,
        min_y: 5,
        max_x: 100,
        max_y: 50,
    };
    assert_eq!(bounds.clamp_x(-50), 0);
    assert_eq!(bounds.clamp_x(200), 100);
    assert_eq!(bounds.clamp_x(42), 42);
    assert_eq!(bounds.clamp_y(0), 5);
    assert_eq!(bounds.clamp_y(999), 50);
}

#[test]
fn screen_rect_spans_origin_to_last_pixel() {
    let b = screen_rect_bounds(-1920, 0, 3840, 1080).unwrap();
    assert_eq!(b, Bounds { min_x: -1920, min_y: 0, max_x: 1919, max_y: 1079 });
}

#[test]
fn screen_rect_without_area_is_none() {
    assert_eq!(screen_rect_bounds(0, 0, 0, 1080), None);
    assert_eq!(screen_rect_bounds(0, 0, 1920, -1), None);
}

#[test]
fn virtual_bounds_cover_every_display() {
    let left = Bounds { min_x: -1280, min_y: 100, max_x: -1, max_y: 1123 };
    let main = Bounds { min_x: 0, min_y: 0, max_x: 1919, max_y: 1079 };
    let b = virtual_screen_bounds(&[main, left], true).unwrap();
    assert_eq!(b, Bounds { min_x: -1280, min_y: 0, max_x: 1919, max_y: 1123 });
}

#[test]
fn virtual_bounds_of_nothing_is_none() {
    assert_eq!(virtual_screen_bounds(&[], true), None);
    let inverted = Bounds { min_x: 10, min_y: 0, max_x: 9, max_y: 10 };
    assert_eq!(virtual_screen_bounds(&[inverted], true), None);
}

#[test]
fn virtual_bounds_need_absolute_positioning() {
    let main = Bounds { min_x: 0, min_y: 0, max_x: 1919, max_y: 1079 };
    assert_eq!(virtual_screen_bounds(&[main], false), None);
    assert_eq!(virtual_screen_bounds(&[main], true), Some(main));
}
