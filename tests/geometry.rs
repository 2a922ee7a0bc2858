use statusbar::draw::{put_pixel, Align, Color, Point, Rect};

fn rect(x0: u32, y0: u32, x1: u32, y1: u32) -> Rect {
    Rect::new(Point::new(x0, y0), Point::new(x1, y1))
}

#[test]
fn place_at_start_keeps_min() {
    let r = rect(10, 5, 110, 45);
    let p = r.place_at(Point::new(30, 10), Align::Start, Align::Start);
    assert_eq!(p, rect(10, 5, 40, 15));
}

#[test]
fn place_at_end_keeps_max() {
    let r = rect(10, 5, 110, 45);
    let p = r.place_at(Point::new(30, 10), Align::End, Align::End);
    assert_eq!(p, rect(80, 35, 110, 45));
}

#[test]
fn place_at_center_rounds_toward_min() {
    let r = rect(0, 0, 11, 8);
    let p = r.place_at(Point::new(4, 3), Align::Center, Align::Center);
    // 7 pixels left over across, 5 down: 3 and 2 before, 4 and 3 after
    assert_eq!(p, rect(3, 2, 7, 5));
    let even = r.place_at(Point::new(5, 4), Align::Center, Align::Center);
    assert_eq!(even, rect(3, 2, 8, 6));
}

#[test]
fn place_at_mixed_alignments() {
    let r = rect(0, 0, 100, 20);
    assert_eq!(r.place_at(Point::new(10, 20), Align::End, Align::Center), rect(90, 0, 100, 20));
    assert_eq!(r.place_at(Point::new(10, 4), Align::Start, Align::End), rect(0, 16, 10, 20));
}

#[test]
fn contains_is_half_open() {
    let r = rect(2, 3, 6, 7);
    assert!(r.contains(Point::new(2, 3)));
    assert!(r.contains(Point::new(5, 6)));
    assert!(!r.contains(Point::new(6, 4)));
    assert!(!r.contains(Point::new(3, 7)));
    assert!(!r.contains(Point::new(6, 7)));
    assert!(!r.contains(Point::new(1, 4)));
}

#[test]
fn width_height_and_points() {
    let r = rect(2, 3, 6, 10);
    assert_eq!(r.width(), 4);
    assert_eq!(r.height(), 7);
    assert_eq!(Point::new(1, 2).plus(Point::new(3, 4)), Point::new(4, 6));
    assert_eq!(Point::new(5, 6).minus(Point::new(3, 4)), Point::new(2, 2));
}

#[test]
fn align_defaults_to_center() {
    assert_eq!(Align::default(), Align::Center);
}

#[test]
fn color_bytes_are_blue_green_red_alpha() {
    let c = Color::new(0xff, 0x11, 0x22, 0x33);
    assert_eq!(c.argb8888(), [0x33, 0x22, 0x11, 0xff]);
}

#[test]
fn put_pixel_uses_rect_width_as_stride() {
    let r = rect(0, 0, 3, 2);
    let mut canvas = vec![0u8; 24];
    put_pixel(&mut canvas, r, Point::new(1, 1), Color::new(4, 3, 2, 1));
    // index 4 * (1 + 1 * 3) = 16
    let mut want = vec![0u8; 24];
    want[16] = 1;
    want[17] = 2;
    want[18] = 3;
    want[19] = 4;
    assert_eq!(canvas, want);
}

#[test]
fn put_pixel_on_max_boundary_is_outside() {
    let r = rect(0, 0, 3, 2);
    assert!(!r.contains(Point::new(3, 1)));
    assert!(!r.contains(Point::new(1, 2)));
    assert!(r.contains(Point::new(2, 1)));
}
