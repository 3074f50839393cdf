use command_lines::progress_bar::{format_duration, BarStyle, Color, ProgressBar};

#[test]
fn new_bar_defaults() {
    let bar = ProgressBar::new(10);
    assert_eq!(bar.total(), 10);
    assert_eq!(bar.current(), 0);
    assert_eq!(bar.width(), None);
    assert_eq!(bar.message(), "");
    assert_eq!(bar.row(), None);
    assert!(bar.show_percentage() && bar.show_count() && bar.show_time());
    assert!(bar.style() == BarStyle::default());
    assert!(bar.style().complete_color == Color::Green);
    assert_eq!(bar.style().complete_char, '█');
}

#[test]
fn builders_set_their_field() {
    let style = BarStyle { complete_char: '#', ..BarStyle::default() };
    let bar = ProgressBar::new(5).with_message("hi").with_width(30).with_style(style);
    assert_eq!(bar.message(), "hi");
    assert_eq!(bar.width(), Some(30));
    assert_eq!(bar.style().complete_char, '#');
}

#[test]
fn updates_are_capped_and_row_is_kept() {
    let mut bar = ProgressBar::new(10);
    bar.update(15, Some(3));
    assert_eq!(bar.current(), 10);
    assert_eq!(bar.row(), Some(3));
    bar.update(4, Some(7));
    assert_eq!(bar.current(), 4);
    assert_eq!(bar.row(), Some(3));
    bar.inc(3, None);
    assert_eq!(bar.current(), 7);
    bar.inc(100, None);
    assert_eq!(bar.current(), 10);
    bar.update(0, None);
    bar.finish();
    assert_eq!(bar.current(), 10);
}

#[test]
fn durations_as_minutes_and_seconds() {
    assert_eq!(format_duration(0), "00:00");
    assert_eq!(format_duration(59), "00:59");
    assert_eq!(format_duration(61), "01:01");
    assert_eq!(format_duration(600), "10:00");
    assert_eq!(format_duration(3600), "60:00");
    assert_eq!(format_duration(6005), "100:05");
}

#[test]
fn bar_text_pieces() {
    let mut bar = ProgressBar::new(10).with_message("copying");
    bar.update(3, Some(1));
    assert_eq!(bar.count_text(), "(3/10) ");
    assert_eq!(bar.message_text(), " | copying");
    assert_eq!(ProgressBar::new(5).message_text(), "");
    let (done, left) = bar.cells(2, 5);
    assert_eq!(done, "██");
    assert_eq!(left, "░░░");
    let (done, left) = bar.cells(0, 0);
    assert_eq!((done.as_str(), left.as_str()), ("", ""));
}

#[test]
fn bar_cell_count_follows_the_width() {
    let bar = ProgressBar::new(10);
    assert_eq!(bar.cell_count(Some(80)), Some(58));
    assert_eq!(bar.cell_count(None), Some(48));
    assert_eq!(bar.cell_count(Some(21)), None);
    assert_eq!(bar.cell_count(Some(5)), None);
    let set = ProgressBar::new(10).with_width(30);
    assert_eq!(set.cell_count(Some(80)), Some(28));
    assert_eq!(ProgressBar::new(1).with_width(1).cell_count(None), None);
}
