use kclock::text::{chars_le, chars_of, contains_chars, equal_ignoring_ascii_case, starts_with, str_equal};

#[test]
fn chars_of_keeps_every_character() {
    assert_eq!(chars_of("설정 ok"), vec!['설', '정', ' ', 'o', 'k']);
    assert_eq!(chars_of(""), Vec::<char>::new());
}

#[test]
fn str_equal_compares_characters() {
    assert!(str_equal("about", "about"));
    assert!(!str_equal("about", "About"));
    assert!(!str_equal("about", "abou"));
    assert!(str_equal("", ""));
}

#[test]
fn starts_with_checks_the_prefix() {
    assert!(starts_with("https://example.com", "https://"));
    assert!(!starts_with("http://example.com", "https://"));
    assert!(!starts_with("https:/", "https://"));
    assert!(starts_with("anything", ""));
}

#[test]
fn contains_chars_finds_substrings() {
    let hay = chars_of("windows ringout");
    assert!(contains_chars(&hay, &chars_of("ring")));
    assert!(contains_chars(&hay, &chars_of("ringout")));
    assert!(!contains_chars(&hay, &chars_of("ringin")));
    assert!(contains_chars(&hay, &Vec::new()));
    assert!(!contains_chars(&chars_of("rin"), &chars_of("ring")));
}

#[test]
fn ascii_case_is_ignored_only_for_ascii_letters() {
    assert!(equal_ignoring_ascii_case("WaV", "wav"));
    assert!(equal_ignoring_ascii_case("wav", "WAV"));
    assert!(!equal_ignoring_ascii_case("wave", "wav"));
    assert!(!equal_ignoring_ascii_case("Ä", "ä"));
    assert!(!equal_ignoring_ascii_case("[", "{"));
}

#[test]
fn chars_le_orders_by_code_point() {
    assert!(chars_le(&chars_of("Alarm01"), &chars_of("Alarm02")));
    assert!(!chars_le(&chars_of("Alarm02"), &chars_of("Alarm01")));
    assert!(chars_le(&chars_of("Ring"), &chars_of("Ring01")));
    assert!(!chars_le(&chars_of("Ring01"), &chars_of("Ring")));
    assert!(chars_le(&chars_of("Zebra"), &chars_of("alarm")));
    assert!(chars_le(&chars_of("same"), &chars_of("same")));
}
