use statusbar::draw::{Align, Color};
use statusbar::updated_last::{label_from_time, UpdatedLastBuilder};

#[test]
fn label_future_and_now() {
    assert_eq!(label_from_time(-1), "The Future?");
    assert_eq!(label_from_time(0), "Now");
    assert_eq!(label_from_time(59), "Now");
}

#[test]
fn label_minutes_hours_days() {
    assert_eq!(label_from_time(60), "1 Minute Ago");
    assert_eq!(label_from_time(119), "1 Minute Ago");
    assert_eq!(label_from_time(3599), "59 Minutes Ago");
    assert_eq!(label_from_time(3600), "1 Hour Ago");
    assert_eq!(label_from_time(23 * 3600 + 59), "23 Hours Ago");
    assert_eq!(label_from_time(86400), "1 Day Ago");
    assert_eq!(label_from_time(2 * 86400 + 5), "2 Days Ago");
    assert_eq!(label_from_time(15 * 86400 - 1), "14 Days Ago");
}

#[test]
fn label_update_now() {
    assert_eq!(label_from_time(15 * 86400), "UPDATE NOW!");
    assert_eq!(label_from_time(i64::MAX), "UPDATE NOW!");
}

#[test]
fn builder_defaults_and_setters() {
    let b = UpdatedLastBuilder::new();
    assert_eq!(b.time_stamp, 0);
    assert_eq!(b.desired_height, None);
    assert_eq!(b.h_align, Align::Center);
    let fg = Color::new(255, 1, 2, 3);
    let b = b.time_stamp(1700000000).desired_height(24).h_align(Align::Start).v_align(Align::End).fg(fg).bg(Color::default());
    assert_eq!(b.time_stamp, 1700000000);
    assert_eq!(b.desired_height, Some(24));
    assert_eq!(b.h_align, Align::Start);
    assert_eq!(b.v_align, Align::End);
    assert_eq!(b.fg, fg);
    assert_eq!(b.bg, Color::new(0, 0, 0, 0));
}
