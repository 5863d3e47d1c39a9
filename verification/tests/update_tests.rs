use kclock::update::{
    startup_notice, update_available_event, update_start, update_step, StartupCheck, UpdateAction,
    UpdateEvent, UpdatePhase,
};

fn run(events: Vec<UpdateEvent>) -> Vec<UpdateAction> {
    let (mut phase, first) = update_start();
    let mut actions = vec![first];
    for e in events {
        let (next, action) = update_step(phase, e);
        phase = next;
        actions.push(action);
    }
    actions
}

#[test]
fn an_update_is_installed_and_the_app_restarts() {
    let actions = run(vec![
        UpdateEvent::UpdaterReady,
        UpdateEvent::UpdateFound { version: "1.5.0".to_string() },
        UpdateEvent::Installed,
        UpdateEvent::Restarted,
    ]);
    assert!(matches!(actions[0], UpdateAction::GetUpdater));
    assert!(matches!(actions[1], UpdateAction::CheckForUpdate));
    assert!(matches!(actions[2], UpdateAction::DownloadAndInstall));
    assert!(matches!(actions[3], UpdateAction::RestartApp));
    match &actions[4] {
        UpdateAction::Finish(Ok(Some(v))) => assert_eq!(v, "1.5.0"),
        _ => panic!("expected the installed version"),
    }
}

#[test]
fn up_to_date_finishes_with_none() {
    let actions = run(vec![UpdateEvent::UpdaterReady, UpdateEvent::UpToDate]);
    assert!(matches!(actions[2], UpdateAction::Finish(Ok(None))));
}

#[test]
fn failures_finish_with_their_message() {
    let a = run(vec![UpdateEvent::UpdaterFailed { message: "no updater".to_string() }]);
    assert!(matches!(&a[1], UpdateAction::Finish(Err(m)) if m == "no updater"));
    let b = run(vec![UpdateEvent::UpdaterReady, UpdateEvent::CheckFailed { message: "offline".to_string() }]);
    assert!(matches!(&b[2], UpdateAction::Finish(Err(m)) if m == "offline"));
    let c = run(vec![
        UpdateEvent::UpdaterReady,
        UpdateEvent::UpdateFound { version: "2.0.0".to_string() },
        UpdateEvent::InstallFailed { message: "bad signature".to_string() },
    ]);
    assert!(matches!(&c[3], UpdateAction::Finish(Err(m)) if m == "bad signature"));
}

#[test]
fn events_out_of_turn_change_nothing() {
    let (next, action) = update_step(UpdatePhase::AwaitingUpdater, UpdateEvent::Installed);
    assert!(matches!(next, UpdatePhase::AwaitingUpdater));
    assert!(matches!(action, UpdateAction::Wait));
    let (next, action) = update_step(
        UpdatePhase::AwaitingInstall { version: "3.0.0".to_string() },
        UpdateEvent::UpToDate,
    );
    assert!(matches!(&next, UpdatePhase::AwaitingInstall { version } if version == "3.0.0"));
    assert!(matches!(action, UpdateAction::Wait));
}

#[test]
fn a_finished_check_stays_finished() {
    let (next, action) = update_step(UpdatePhase::Finished, UpdateEvent::UpdaterReady);
    assert!(matches!(next, UpdatePhase::Finished));
    assert!(matches!(action, UpdateAction::Wait));
}

#[test]
fn startup_announces_only_available_updates() {
    assert_eq!(startup_notice(StartupCheck::Available { version: "1.2.3".to_string() }), Some("1.2.3".to_string()));
    assert_eq!(startup_notice(StartupCheck::UpToDate), None);
    assert_eq!(startup_notice(StartupCheck::CheckFailed), None);
    assert_eq!(startup_notice(StartupCheck::UpdaterUnavailable), None);
    assert_eq!(update_available_event(), "update-available");
}
