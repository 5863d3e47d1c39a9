use vstd::prelude::*;

verus! {

/// Where a user-requested update check stands.
pub enum UpdatePhase {
    /// Waiting for the updater to be set up.
    AwaitingUpdater,
    /// Waiting for the update server's answer.
    AwaitingCheck,
    /// Waiting for the download and installation of `version`.
    AwaitingInstall { version: String },
    /// Waiting for the app to restart after installing `version`.
    AwaitingRestart { version: String },
    /// The check has ended and its result was handed back.
    Finished,
}

/// What the outside world reports back to the update check.
pub enum UpdateEvent {
    UpdaterReady,
    UpdaterFailed { message: String },
    UpToDate,
    UpdateFound { version: String },
    CheckFailed { message: String },
    Installed,
    InstallFailed { message: String },
    Restarted,
}

/// What the app is to do next for the update check.
pub enum UpdateAction {
    /// Set up the updater.
    GetUpdater,
    /// Ask the update server whether there is a newer version.
    CheckForUpdate,
    /// Download and install the update that was found.
    DownloadAndInstall,
    /// Restart the app (on Windows the installer has already ended it).
    RestartApp,
    /// End the check with this result: `Ok(Some(version))` when an update was
    /// installed, `Ok(None)` when the app is up to date, `Err(message)` on failure.
    Finish(Result<Option<String>, String>),
    /// Nothing to do: the event does not belong to this phase.
    Wait,
}

/// `a` ends the check with the error text `message`.
pub open spec fn finishes_with_error(a: UpdateAction, message: String) -> bool {
    a matches UpdateAction::Finish(Err(m)) && m@ == message@
}

/// The transition table of the update check: from phase `p`, event `e` leads to
/// phase `np` and action `a`.
pub open spec fn update_step_spec(p: UpdatePhase, e: UpdateEvent, np: UpdatePhase, a: UpdateAction) -> bool {
    match p {
        UpdatePhase::AwaitingUpdater => match e {
            UpdateEvent::UpdaterReady => np is AwaitingCheck && a is CheckForUpdate,
            UpdateEvent::UpdaterFailed { message } => np is Finished && finishes_with_error(a, message),
            _ => np == p && a is Wait,
        },
        UpdatePhase::AwaitingCheck => match e {
            UpdateEvent::UpToDate => np is Finished && a matches UpdateAction::Finish(Ok(None)),
            UpdateEvent::UpdateFound { version } => (np matches UpdatePhase::AwaitingInstall {
                version: v,
            } && v@ == version@) && a is DownloadAndInstall,
            UpdateEvent::CheckFailed { message } => np is Finished && finishes_with_error(a, message),
            _ => np == p && a is Wait,
        },
        UpdatePhase::AwaitingInstall { version } => match e {
            UpdateEvent::Installed => (np matches UpdatePhase::AwaitingRestart { version: v } && v@
                == version@) && a is RestartApp,
            UpdateEvent::InstallFailed { message } => np is Finished && finishes_with_error(
                a,
                message,
            ),
            _ => np == p && a is Wait,
        },
        UpdatePhase::AwaitingRestart { version } => match e {
            UpdateEvent::Restarted => np is Finished && (a matches UpdateAction::Finish(Ok(Some(v)))
                && v@ == version@),
            _ => np == p && a is Wait,
        },
        UpdatePhase::Finished => np == p && a is Wait,
    }
}

/// The phase and action that a user-requested update check starts with.
pub fn update_start() -> (r: (UpdatePhase, UpdateAction))
    ensures
        r.0 is AwaitingUpdater,
        r.1 is GetUpdater,
{
    (UpdatePhase::AwaitingUpdater, UpdateAction::GetUpdater)
}

/// One step of the update check: the next phase and action after event `e`.
pub fn update_step(p: UpdatePhase, e: UpdateEvent) -> (r: (UpdatePhase, UpdateAction))
    ensures
        update_step_spec(p, e, r.0, r.1),
{
    match p {
        UpdatePhase::AwaitingUpdater => match e {
            UpdateEvent::UpdaterReady => (UpdatePhase::AwaitingCheck, UpdateAction::CheckForUpdate),
            UpdateEvent::UpdaterFailed { message } => (
                UpdatePhase::Finished,
                UpdateAction::Finish(Err(message)),
            ),
            _ => (p, UpdateAction::Wait),
        },
        UpdatePhase::AwaitingCheck => match e {
            UpdateEvent::UpToDate => (UpdatePhase::Finished, UpdateAction::Finish(Ok(None))),
            UpdateEvent::UpdateFound { version } => (
                UpdatePhase::AwaitingInstall { version },
                UpdateAction::DownloadAndInstall,
            ),
            UpdateEvent::CheckFailed { message } => (
                UpdatePhase::Finished,
                UpdateAction::Finish(Err(message)),
            ),
            _ => (p, UpdateAction::Wait),
        },
        UpdatePhase::AwaitingInstall { version } => match e {
            UpdateEvent::Installed => (
                UpdatePhase::AwaitingRestart { version },
                UpdateAction::RestartApp,
            ),
            UpdateEvent::InstallFailed { message } => (
                UpdatePhase::Finished,
                UpdateAction::Finish(Err(message)),
            ),
            _ => (UpdatePhase::AwaitingInstall { version }, UpdateAction::Wait),
        },
        UpdatePhase::AwaitingRestart { version } => match e {
            UpdateEvent::Restarted => (UpdatePhase::Finished, UpdateAction::Finish(Ok(Some(version)))),
            _ => (UpdatePhase::AwaitingRestart { version }, UpdateAction::Wait),
        },
        UpdatePhase::Finished => (UpdatePhase::Finished, UpdateAction::Wait),
    }
}

/// The app is restarted only right after a successful installation.
pub proof fn lemma_restart_only_after_install(p: UpdatePhase, e: UpdateEvent, np: UpdatePhase, a: UpdateAction)
    requires
        update_step_spec(p, e, np, a),
        a is RestartApp,
    ensures
        p is AwaitingInstall,
        e is Installed,
{
}

/// A finished check stays finished and asks for nothing more, whatever is reported.
pub proof fn lemma_finished_is_final(e: UpdateEvent, np: UpdatePhase, a: UpdateAction)
    requires
        update_step_spec(UpdatePhase::Finished, e, np, a),
    ensures
        np is Finished,
        a is Wait,
{
}

/// A check that ends with an installed update reports the version that the server
/// offered: the found version is carried to the install and restart phases.
pub proof fn lemma_reported_version_is_found_version(
    p: UpdatePhase,
    e: UpdateEvent,
    np: UpdatePhase,
    a: UpdateAction,
)
    requires
        update_step_spec(p, e, np, a),
    ensures
        p is AwaitingCheck ==> (e matches UpdateEvent::UpdateFound { version: found } ==> (np matches UpdatePhase::AwaitingInstall { version: v } && v@ == found@)),
        e is Installed ==> (p matches UpdatePhase::AwaitingInstall { version: found } ==> (np matches UpdatePhase::AwaitingRestart { version: v } && v@ == found@)),
        a matches UpdateAction::Finish(Ok(Some(v))) ==> (p matches UpdatePhase::AwaitingRestart { version: found } && v@ == found@),
{
}

/// A failure ends the check at once, handing back the failure's own message; it
/// never leads to an installation or a restart.
pub proof fn lemma_failure_ends_check(p: UpdatePhase, e: UpdateEvent, np: UpdatePhase, a: UpdateAction)
    requires
        update_step_spec(p, e, np, a),
        !(a is Wait),
    ensures
        e matches UpdateEvent::UpdaterFailed { message } ==> np is Finished && finishes_with_error(a, message),
        e matches UpdateEvent::CheckFailed { message } ==> np is Finished && finishes_with_error(a, message),
        e matches UpdateEvent::InstallFailed { message } ==> np is Finished && finishes_with_error(a, message),
{
}

/// The check moves on with each expected report: a ready updater leads to the
/// server check, a found update (whatever its version) to its download and
/// installation, no update to `Ok(None)`, an installation to the restart, and the
/// restart to `Ok(Some(version))` with the installed version.
pub proof fn lemma_expected_reports_move_on(e: UpdateEvent, np: UpdatePhase, a: UpdateAction, v: String)
    ensures
        update_step_spec(UpdatePhase::AwaitingUpdater, UpdateEvent::UpdaterReady, np, a) ==> a is CheckForUpdate,
        update_step_spec(UpdatePhase::AwaitingCheck, UpdateEvent::UpdateFound { version: v }, np, a)
            ==> a is DownloadAndInstall,
        update_step_spec(UpdatePhase::AwaitingCheck, UpdateEvent::UpToDate, np, a) ==> a matches UpdateAction::Finish(Ok(None)),
        update_step_spec(UpdatePhase::AwaitingInstall { version: v }, UpdateEvent::Installed, np, a) ==> a is RestartApp,
        update_step_spec(UpdatePhase::AwaitingRestart { version: v }, UpdateEvent::Restarted, np, a)
            ==> (a matches UpdateAction::Finish(Ok(Some(w))) && w@ == v@),
{
}

/// Each action comes from one report only: the server check follows a ready
/// updater, a download follows a found update, and `Ok(None)` follows only the
/// server's answer that there is no update.
pub proof fn lemma_actions_have_one_cause(p: UpdatePhase, e: UpdateEvent, np: UpdatePhase, a: UpdateAction)
    requires
        update_step_spec(p, e, np, a),
    ensures
        a is CheckForUpdate ==> (p is AwaitingUpdater && e is UpdaterReady),
        a is DownloadAndInstall ==> (p is AwaitingCheck && e is UpdateFound),
        a matches UpdateAction::Finish(Ok(None)) ==> (p is AwaitingCheck && e is UpToDate),
        a is GetUpdater ==> false,
{
}

/// How the background check at start-up went.
pub enum StartupCheck {
    /// The updater could not be set up.
    UpdaterUnavailable,
    /// The update server could not be asked.
    CheckFailed,
    /// There is no newer version.
    UpToDate,
    /// `version` is available.
    Available { version: String },
}

/// The version to announce to the window after the start-up check: only an
/// available update is announced; failures stay silent.
pub fn startup_notice(check: StartupCheck) -> (r: Option<String>)
    ensures
        match check {
            StartupCheck::Available { version } => r matches Some(v) && v@ == version@,
            _ => r is None,
        },
{
    match check {
        StartupCheck::Available { version } => Some(version),
        _ => None,
    }
}

/// The name of the event that announces an available update to the window.
pub fn update_available_event() -> (r: String)
    ensures
        r@ == "update-available"@,
{
    String::from_str("update-available")
}

} // verus!
