use kclock::sounds::{
    alarm_name_matches, file_name_part, is_alarm_stem, select_alarm_sounds, sound_from_entry,
    split_file_name, system_root_or_default, MediaEntry, SystemSound,
};

fn entry(name: &str) -> MediaEntry {
    MediaEntry { path: Some(format!("C:\\Windows\\Media\\{}", name)) }
}

fn listing(names: &[&str]) -> Vec<MediaEntry> {
    names.iter().map(|n| entry(n)).collect()
}

fn pairs(sounds: &[SystemSound]) -> Vec<(String, String)> {
    sounds.iter().map(|s| (s.name.clone(), s.path.clone())).collect()
}

fn names(sounds: &[SystemSound]) -> Vec<&str> {
    sounds.iter().map(|s| s.name.as_str()).collect()
}

#[test]
fn split_file_name_follows_file_stem_and_extension() {
    assert_eq!(split_file_name("Alarm01.wav"), ("Alarm01".to_string(), Some("wav".to_string())));
    assert_eq!(split_file_name("archive.tar.gz"), ("archive.tar".to_string(), Some("gz".to_string())));
    assert_eq!(split_file_name(".hidden"), (".hidden".to_string(), None));
    assert_eq!(split_file_name("noext"), ("noext".to_string(), None));
    assert_eq!(split_file_name("trailing."), ("trailing".to_string(), Some(String::new())));
    assert_eq!(split_file_name(".wav.WAV"), (".wav".to_string(), Some("WAV".to_string())));
}

#[test]
fn alarm_names_mention_alarm_or_ring_but_no_call_tone() {
    assert!(alarm_name_matches("alarm01"));
    assert!(alarm_name_matches("ring05"));
    assert!(!alarm_name_matches("windows ringing"));
    assert!(!alarm_name_matches("ringin"));
    assert!(!alarm_name_matches("ringout"));
    assert!(!alarm_name_matches("windows ringin"));
    assert!(!alarm_name_matches("chimes"));
    assert!(!alarm_name_matches("alarmringout"));
}

#[test]
fn stems_are_lowercased_before_matching() {
    assert!(is_alarm_stem("ALARM10"));
    assert!(is_alarm_stem("Ring01"));
    assert!(!is_alarm_stem("Windows Ringout"));
    assert!(!is_alarm_stem("RINGIN"));
}

#[test]
fn only_wav_alarm_files_are_offered() {
    let s = sound_from_entry(&entry("Alarm01.WAV")).expect("offered");
    assert_eq!(s.name, "Alarm01");
    assert_eq!(s.path, "C:\\Windows\\Media\\Alarm01.WAV");
    assert!(sound_from_entry(&entry("Alarm01.mp3")).is_none());
    assert!(sound_from_entry(&entry("Alarm01.wave")).is_none());
    assert!(sound_from_entry(&entry("Ringin.wav")).is_none());
    assert!(sound_from_entry(&entry("chimes.wav")).is_none());
    assert!(sound_from_entry(&entry(".wav")).is_none());
    assert!(sound_from_entry(&MediaEntry { path: None }).is_none());
}

#[test]
fn media_directory_listing_is_filtered_and_sorted() {
    let listing: Vec<MediaEntry> = [
        "Ring10.wav", "chimes.wav", "Alarm10.wav", "Windows Ringin.wav", "Alarm02.wav",
        "ringout.wav", "Alarm01.wav", "Ring01.wav", "notify.wav", "Speech On.wav", "desktop.ini",
        "Windows Ringout.wav", "Ring09.wav",
    ]
    .iter()
    .map(|n| entry(n))
    .collect();
    let sounds = select_alarm_sounds(&listing);
    assert_eq!(names(&sounds), vec!["Alarm01", "Alarm02", "Alarm10", "Ring01", "Ring09", "Ring10"]);
    assert_eq!(sounds[0].path, "C:\\Windows\\Media\\Alarm01.wav");
}

#[test]
fn sounds_with_the_same_name_keep_listing_order() {
    let listing = vec![
        MediaEntry { path: Some("C:\\First\\Ring.wav".to_string()) },
        MediaEntry { path: Some("D:/media/Alarm.wav".to_string()) },
        MediaEntry { path: Some("C:\\Second\\Ring.WAV".to_string()) },
    ];
    let sounds = select_alarm_sounds(&listing);
    assert_eq!(names(&sounds), vec!["Alarm", "Ring", "Ring"]);
    assert_eq!(sounds[1].path, "C:\\First\\Ring.wav");
    assert_eq!(sounds[2].path, "C:\\Second\\Ring.WAV");
}

#[test]
fn file_name_part_takes_the_last_component() {
    assert_eq!(file_name_part("C:\\Windows\\Media\\Alarm01.wav"), "Alarm01.wav");
    assert_eq!(file_name_part("C:/Windows/Media/Ring02.wav"), "Ring02.wav");
    assert_eq!(file_name_part("Alarm.wav"), "Alarm.wav");
    assert_eq!(file_name_part("C:\\Windows\\"), "");
}

#[test]
fn sound_names_are_the_stems_of_their_paths() {
    let s = sound_from_entry(&MediaEntry { path: Some("C:\\Ring.Dir\\Alarm05.wav".to_string()) })
        .expect("offered");
    assert_eq!(s.name, "Alarm05");
    assert!(sound_from_entry(&MediaEntry { path: Some("C:\\Alarm.wav\\notes.txt".to_string()) }).is_none());
}

#[test]
fn listing_order_does_not_change_the_list() {
    let a = select_alarm_sounds(&listing(&["Ring01.wav", "Alarm03.wav", "chimes.wav", "Alarm01.wav"]));
    let b = select_alarm_sounds(&listing(&["Alarm01.wav", "chimes.wav", "Ring01.wav", "Alarm03.wav"]));
    assert_eq!(pairs(&a), pairs(&b));
}

#[test]
fn one_more_file_adds_at_most_one_sound_in_place() {
    let before = select_alarm_sounds(&listing(&["Ring01.wav", "Alarm03.wav", "Alarm01.wav"]));
    let with_other = select_alarm_sounds(&listing(&["Ring01.wav", "notify.wav", "Alarm03.wav", "Alarm01.wav"]));
    assert_eq!(pairs(&before), pairs(&with_other));
    let with_alarm = select_alarm_sounds(&listing(&["Ring01.wav", "Alarm03.wav", "Alarm02.WAV", "Alarm01.wav"]));
    let mut expected = pairs(&before);
    expected.insert(1, ("Alarm02".to_string(), "C:\\Windows\\Media\\Alarm02.WAV".to_string()));
    assert_eq!(pairs(&with_alarm), expected);
}

#[test]
fn empty_listing_offers_nothing() {
    assert!(select_alarm_sounds(&Vec::new()).is_empty());
}

#[test]
fn system_root_falls_back_to_c_windows() {
    assert_eq!(system_root_or_default(Some("D:\\Win".to_string())), "D:\\Win");
    assert_eq!(system_root_or_default(None), "C:\\Windows");
}
