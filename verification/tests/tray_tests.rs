use kclock::tray::{
    close_decision, menu_steps, settings_panel_script, tray_menu, tray_steps, AppStep, CloseDecision,
    MenuEntry, PointerButton, TrayPointerEvent,
};

#[test]
fn tray_menu_lists_its_items_in_order() {
    let menu = tray_menu();
    let shape: Vec<Option<(String, String)>> = menu
        .into_iter()
        .map(|e| match e {
            MenuEntry::Item { id, label } => Some((id, label)),
            MenuEntry::Separator => None,
        })
        .collect();
    assert_eq!(
        shape,
        vec![
            Some(("show".to_string(), "K-Clock 보이기".to_string())),
            None,
            Some(("settings".to_string(), "설정".to_string())),
            Some(("info".to_string(), "프로그램 정보".to_string())),
            None,
            Some(("quit".to_string(), "프로그램 종료".to_string())),
        ]
    );
}

#[test]
fn menu_items_trigger_their_steps() {
    assert_eq!(menu_steps("quit"), vec![AppStep::ExitApp]);
    assert_eq!(menu_steps("show"), vec![AppStep::ShowMain, AppStep::FocusMain]);
    assert_eq!(
        menu_steps("settings"),
        vec![AppStep::ShowMain, AppStep::FocusMain, AppStep::OpenSettingsPanel]
    );
    assert_eq!(menu_steps("info"), vec![AppStep::OpenAbout]);
    assert!(menu_steps("Quit").is_empty());
    assert!(menu_steps("").is_empty());
}

#[test]
fn every_menu_item_acts() {
    for e in tray_menu() {
        if let MenuEntry::Item { id, .. } = e {
            assert!(!menu_steps(&id).is_empty());
        }
    }
}

#[test]
fn settings_script_opens_the_settings_panel() {
    assert_eq!(settings_panel_script(), "openPanel('settings')");
}

#[test]
fn left_release_toggles_the_main_window() {
    let click = TrayPointerEvent::Click { button: PointerButton::Left, released: true };
    assert_eq!(tray_steps(click, Some(true)), vec![AppStep::HideMain]);
    assert_eq!(tray_steps(click, Some(false)), vec![AppStep::ShowMain, AppStep::FocusMain]);
    assert_eq!(tray_steps(click, None), vec![AppStep::ShowMain, AppStep::FocusMain]);
}

#[test]
fn other_tray_events_do_nothing() {
    let press = TrayPointerEvent::Click { button: PointerButton::Left, released: false };
    let right = TrayPointerEvent::Click { button: PointerButton::Right, released: true };
    let middle = TrayPointerEvent::Click { button: PointerButton::Middle, released: true };
    assert!(tray_steps(press, Some(true)).is_empty());
    assert!(tray_steps(right, Some(false)).is_empty());
    assert!(tray_steps(middle, None).is_empty());
    assert!(tray_steps(TrayPointerEvent::Other, Some(true)).is_empty());
}

#[test]
fn closing_hides_the_clock_but_closes_about() {
    assert_eq!(close_decision("about"), CloseDecision::Close);
    assert_eq!(close_decision("main"), CloseDecision::HideInstead);
    assert_eq!(close_decision("About"), CloseDecision::HideInstead);
}
