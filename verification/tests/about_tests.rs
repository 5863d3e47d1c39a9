use kclock::about::{about_url, about_window, about_window_label, decimal_u8, Brightness};
use kclock::tray::{close_decision, CloseDecision};

#[test]
fn decimal_numerals_have_no_leading_zeros() {
    assert_eq!(decimal_u8(0), "0");
    assert_eq!(decimal_u8(7), "7");
    assert_eq!(decimal_u8(10), "10");
    assert_eq!(decimal_u8(42), "42");
    assert_eq!(decimal_u8(100), "100");
    assert_eq!(decimal_u8(127), "127");
    assert_eq!(decimal_u8(255), "255");
}

#[test]
fn about_url_carries_version_and_brightness() {
    assert_eq!(about_url("1.4.2", 220), "about.html?v=1.4.2&b=220");
    assert_eq!(about_url("0.1.0", 0), "about.html?v=0.1.0&b=0");
}

#[test]
fn brightness_starts_at_220_and_keeps_the_last_level() {
    let mut b = Brightness::new();
    assert_eq!(b.get(), 220);
    b.set(127);
    assert_eq!(b.get(), 127);
    b.set(0);
    b.set(255);
    assert_eq!(b.get(), 255);
}

#[test]
fn about_window_carries_label_title_and_page() {
    let w = about_window("1.0.0", 9);
    assert_eq!(w.label, "about");
    assert_eq!(w.title, "프로그램 정보");
    assert_eq!(w.url, "about.html?v=1.0.0&b=9");
    assert_eq!(close_decision(&w.label), CloseDecision::Close);
    assert_eq!(about_window_label(), "about");
}
