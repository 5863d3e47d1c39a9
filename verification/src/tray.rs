use vstd::prelude::*;

use crate::about::{about_label, about_window_label};
use crate::text::str_equal;

verus! {

/// One step that the app performs on its windows in answer to a user action.
#[derive(PartialEq, Eq, Structural, Clone, Copy, Debug)]
pub enum AppStep {
    /// End the app.
    ExitApp,
    /// Make the main clock window visible.
    ShowMain,
    /// Hide the main clock window (the app keeps running in the tray).
    HideMain,
    /// Give the main window the input focus.
    FocusMain,
    /// Open the settings panel inside the main window (see `settings_panel_script`).
    OpenSettingsPanel,
    /// Open the "about" window, or focus it where it is open.
    OpenAbout,
}

/// One entry of the tray menu.
pub enum MenuEntry {
    Item { id: String, label: String },
    Separator,
}

impl View for MenuEntry {
    type V = Option<(Seq<char>, Seq<char>)>;

    open spec fn view(&self) -> Option<(Seq<char>, Seq<char>)> {
        match self {
            MenuEntry::Item { id, label } => Some((id@, label@)),
            MenuEntry::Separator => None,
        }
    }
}

/// The menu button that a tray icon click used.
#[derive(PartialEq, Eq, Structural, Clone, Copy, Debug)]
pub enum PointerButton {
    Left,
    Right,
    Middle,
}

/// What happened to the tray icon.
#[derive(PartialEq, Eq, Structural, Clone, Copy, Debug)]
pub enum TrayPointerEvent {
    /// A click, with its button and whether the button went up (`true`) or down.
    Click { button: PointerButton, released: bool },
    /// A double click, the pointer entering, moving over or leaving the icon.
    Other,
}

/// What the app does with a request to close a window.
#[derive(PartialEq, Eq, Structural, Clone, Copy, Debug)]
pub enum CloseDecision {
    /// Let the window close.
    Close,
    /// Keep the window, hide it instead, and refuse the close.
    HideInstead,
}

pub open spec fn show_id() -> Seq<char> {
    "show"@
}

pub open spec fn settings_id() -> Seq<char> {
    "settings"@
}

pub open spec fn info_id() -> Seq<char> {
    "info"@
}

pub open spec fn quit_id() -> Seq<char> {
    "quit"@
}

/// The tray menu: show, separator, settings, about, separator, quit.
pub open spec fn tray_menu_spec() -> Seq<Option<(Seq<char>, Seq<char>)>> {
    seq![
        Some((show_id(), "K-Clock 보이기"@)),
        None,
        Some((settings_id(), "설정"@)),
        Some((info_id(), "프로그램 정보"@)),
        None,
        Some((quit_id(), "프로그램 종료"@)),
    ]
}

/// The steps that a tray menu item with this id triggers; an unknown id triggers none.
pub open spec fn menu_steps_for(id: Seq<char>) -> Seq<AppStep> {
    if id == quit_id() {
        seq![AppStep::ExitApp]
    } else if id == show_id() {
        seq![AppStep::ShowMain, AppStep::FocusMain]
    } else if id == settings_id() {
        seq![AppStep::ShowMain, AppStep::FocusMain, AppStep::OpenSettingsPanel]
    } else if id == info_id() {
        seq![AppStep::OpenAbout]
    } else {
        Seq::empty()
    }
}

/// The steps that a tray icon event triggers, given whether the main window is
/// visible (`None` where that could not be read, which counts as hidden): a left
/// button release toggles the main window; anything else does nothing.
pub open spec fn tray_steps_for(event: TrayPointerEvent, main_visible: Option<bool>) -> Seq<AppStep> {
    match event {
        TrayPointerEvent::Click { button: PointerButton::Left, released: true } => {
            if main_visible == Some(true) {
                seq![AppStep::HideMain]
            } else {
                seq![AppStep::ShowMain, AppStep::FocusMain]
            }
        },
        _ => Seq::empty(),
    }
}

/// Whether the main window is visible after the steps, starting from `visible`.
pub open spec fn visible_after(visible: bool, steps: Seq<AppStep>) -> bool
    decreases steps.len(),
{
    if steps.len() == 0 {
        visible
    } else {
        let before = visible_after(visible, steps.drop_last());
        match steps.last() {
            AppStep::ShowMain => true,
            AppStep::HideMain => false,
            _ => before,
        }
    }
}

/// The "about" window may close; every other window (the main clock) is hidden instead.
pub open spec fn close_decision_for(label: Seq<char>) -> CloseDecision {
    if label == about_label() {
        CloseDecision::Close
    } else {
        CloseDecision::HideInstead
    }
}

fn menu_item(id: &str, label: &str) -> (r: MenuEntry)
    ensures
        r@ == Some((id@, label@)),
{
    MenuEntry::Item { id: String::from_str(id), label: String::from_str(label) }
}

/// The entries of the tray menu, in order.
pub fn tray_menu() -> (r: Vec<MenuEntry>)
    ensures
        r@.map_values(|e: MenuEntry| e@) == tray_menu_spec(),
{
    let mut v: Vec<MenuEntry> = Vec::new();
    v.push(menu_item("show", "K-Clock 보이기"));
    v.push(MenuEntry::Separator);
    v.push(menu_item("settings", "설정"));
    v.push(menu_item("info", "프로그램 정보"));
    v.push(MenuEntry::Separator);
    v.push(menu_item("quit", "프로그램 종료"));
    assert(v@.map_values(|e: MenuEntry| e@) =~= tray_menu_spec());
    v
}

/// The steps that the tray menu item `id` triggers.
pub fn menu_steps(id: &str) -> (r: Vec<AppStep>)
    ensures
        r@ == menu_steps_for(id@),
{
    let mut v: Vec<AppStep> = Vec::new();
    if str_equal(id, "quit") {
        v.push(AppStep::ExitApp);
    } else if str_equal(id, "show") {
        v.push(AppStep::ShowMain);
        v.push(AppStep::FocusMain);
    } else if str_equal(id, "settings") {
        v.push(AppStep::ShowMain);
        v.push(AppStep::FocusMain);
        v.push(AppStep::OpenSettingsPanel);
    } else if str_equal(id, "info") {
        v.push(AppStep::OpenAbout);
    }
    assert(v@ =~= menu_steps_for(id@));
    v
}

/// The script that opens the settings panel in the main window.
pub fn settings_panel_script() -> (r: String)
    ensures
        r@ == "openPanel('settings')"@,
{
    String::from_str("openPanel('settings')")
}

/// The steps that a tray icon event triggers (see `tray_steps_for`).
pub fn tray_steps(event: TrayPointerEvent, main_visible: Option<bool>) -> (r: Vec<AppStep>)
    ensures
        r@ == tray_steps_for(event, main_visible),
{
    let mut v: Vec<AppStep> = Vec::new();
    match event {
        TrayPointerEvent::Click { button: PointerButton::Left, released: true } => {
            let visible = match main_visible {
                Some(b) => b,
                None => false,
            };
            if visible {
                v.push(AppStep::HideMain);
            } else {
                v.push(AppStep::ShowMain);
                v.push(AppStep::FocusMain);
            }
        },
        _ => {},
    }
    assert(v@ =~= tray_steps_for(event, main_visible));
    v
}

/// What to do with a request to close the window labelled `label`.
pub fn close_decision(label: &str) -> (r: CloseDecision)
    ensures
        r == close_decision_for(label@),
{
    let about = about_window_label();
    if str_equal(label, about.as_str()) {
        CloseDecision::Close
    } else {
        CloseDecision::HideInstead
    }
}

/// The id of a tray menu item (empty for a separator).
pub open spec fn item_id(entry: Option<(Seq<char>, Seq<char>)>) -> Seq<char> {
    match entry {
        Some((id, _label)) => id,
        None => Seq::empty(),
    }
}

/// Every item of the tray menu has an action, and no two items share an id.
pub proof fn lemma_every_menu_item_acts()
    ensures
        forall|i: int|
            0 <= i < tray_menu_spec().len() && (#[trigger] tray_menu_spec()[i]) is Some
                ==> menu_steps_for(item_id(tray_menu_spec()[i])).len() > 0,
        forall|i: int, j: int|
            0 <= i < j < tray_menu_spec().len() && (#[trigger] tray_menu_spec()[i]) is Some
                && (#[trigger] tray_menu_spec()[j]) is Some ==> item_id(tray_menu_spec()[i])
                != item_id(tray_menu_spec()[j]),
{
    reveal_strlit("show");
    reveal_strlit("settings");
    reveal_strlit("info");
    reveal_strlit("quit");
    assert(show_id() != settings_id()) by {
        assert(show_id().len() != settings_id().len());
    }
    assert(show_id() != info_id()) by {
        assert(show_id()[0] != info_id()[0]);
    }
    assert(show_id() != quit_id()) by {
        assert(show_id()[0] != quit_id()[0]);
    }
    assert(settings_id() != info_id()) by {
        assert(settings_id().len() != info_id().len());
    }
    assert(settings_id() != quit_id()) by {
        assert(settings_id().len() != quit_id().len());
    }
    assert(info_id() != quit_id()) by {
        assert(info_id()[0] != quit_id()[0]);
    }
}

/// Only the "quit" item ends the app; "info" opens the about window and leaves the
/// main window alone; "settings" opens the settings panel; "show" never hides the
/// main window.
pub proof fn lemma_menu_items_do_their_own_thing(id: Seq<char>, visible: bool)
    ensures
        menu_steps_for(id).contains(AppStep::ExitApp) <==> id == quit_id(),
        menu_steps_for(info_id()) == seq![AppStep::OpenAbout],
        visible_after(visible, menu_steps_for(info_id())) == visible,
        menu_steps_for(settings_id()).contains(AppStep::OpenSettingsPanel),
        !menu_steps_for(show_id()).contains(AppStep::HideMain),
{
    reveal_strlit("show");
    reveal_strlit("settings");
    reveal_strlit("info");
    reveal_strlit("quit");
    assert(show_id() != quit_id()) by {
        assert(show_id()[0] != quit_id()[0]);
    }
    assert(settings_id() != quit_id()) by {
        assert(settings_id().len() != quit_id().len());
    }
    assert(settings_id() != show_id()) by {
        assert(settings_id().len() != show_id().len());
    }
    assert(info_id() != quit_id()) by {
        assert(info_id()[0] != quit_id()[0]);
    }
    assert(info_id() != show_id()) by {
        assert(info_id()[0] != show_id()[0]);
    }
    assert(info_id() != settings_id()) by {
        assert(info_id().len() != settings_id().len());
    }
    let s1 = seq![AppStep::ShowMain, AppStep::FocusMain];
    let s2 = seq![AppStep::ShowMain, AppStep::FocusMain, AppStep::OpenSettingsPanel];
    assert(s2[2] == AppStep::OpenSettingsPanel);
    assert(seq![AppStep::ExitApp][0] == AppStep::ExitApp);
    if menu_steps_for(id).contains(AppStep::ExitApp) && id != quit_id() {
        let k = choose|k: int| 0 <= k < menu_steps_for(id).len() && menu_steps_for(id)[k] == AppStep::ExitApp;
    }
    assert(!s1.contains(AppStep::HideMain)) by {
        if s1.contains(AppStep::HideMain) {
            let k = choose|k: int| 0 <= k < s1.len() && s1[k] == AppStep::HideMain;
        }
    }
    reveal_with_fuel(visible_after, 2);
    assert(seq![AppStep::OpenAbout].drop_last() =~= Seq::<AppStep>::empty());
}

/// A left-button release on the tray icon flips the main window's visibility, so two
/// of them leave it as it was.
pub proof fn lemma_tray_click_toggles(visible: bool)
    ensures
        ({
            let click = TrayPointerEvent::Click { button: PointerButton::Left, released: true };
            let once = visible_after(visible, tray_steps_for(click, Some(visible)));
            &&& once == !visible
            &&& visible_after(once, tray_steps_for(click, Some(once))) == visible
        }),
{
    let click = TrayPointerEvent::Click { button: PointerButton::Left, released: true };
    reveal_with_fuel(visible_after, 3);
    assert(seq![AppStep::ShowMain, AppStep::FocusMain].drop_last() =~= seq![AppStep::ShowMain]);
    assert(seq![AppStep::ShowMain].drop_last() =~= Seq::<AppStep>::empty());
    assert(seq![AppStep::HideMain].drop_last() =~= Seq::<AppStep>::empty());
}

/// Any other tray icon event leaves the main window as it is.
pub proof fn lemma_other_tray_events_do_nothing(event: TrayPointerEvent, visible: Option<bool>)
    requires
        event != (TrayPointerEvent::Click { button: PointerButton::Left, released: true }),
    ensures
        tray_steps_for(event, visible).len() == 0,
{
}

/// Choosing "show" or "settings" in the tray menu always leaves the main window
/// visible and focused last.
pub proof fn lemma_show_and_settings_reveal_main(visible: bool)
    ensures
        visible_after(visible, menu_steps_for(show_id())),
        visible_after(visible, menu_steps_for(settings_id())),
        menu_steps_for(show_id()).contains(AppStep::FocusMain),
        menu_steps_for(settings_id()).contains(AppStep::FocusMain),
{
    reveal_strlit("show");
    reveal_strlit("settings");
    reveal_strlit("quit");
    assert(show_id() != quit_id()) by {
        assert(show_id()[0] != quit_id()[0]);
    }
    assert(settings_id() != quit_id()) by {
        assert(settings_id().len() != quit_id().len());
    }
    assert(settings_id() != show_id()) by {
        assert(settings_id().len() != show_id().len());
    }
    reveal_with_fuel(visible_after, 4);
    let s1 = seq![AppStep::ShowMain, AppStep::FocusMain];
    let s2 = seq![AppStep::ShowMain, AppStep::FocusMain, AppStep::OpenSettingsPanel];
    assert(s1.drop_last() =~= seq![AppStep::ShowMain]);
    assert(s2.drop_last() =~= s1);
    assert(seq![AppStep::ShowMain].drop_last() =~= Seq::<AppStep>::empty());
    assert(s1[1] == AppStep::FocusMain);
    assert(s2[1] == AppStep::FocusMain);
}

/// A close request never closes the main clock window: every window but "about" is
/// hidden instead, and hiding leaves it not visible.
pub proof fn lemma_close_hides_all_but_about(label: Seq<char>, visible: bool)
    ensures
        label != about_label() ==> close_decision_for(label) == CloseDecision::HideInstead,
        close_decision_for(about_label()) == CloseDecision::Close,
        !visible_after(visible, seq![AppStep::HideMain]),
{
    assert(seq![AppStep::HideMain].drop_last() =~= Seq::<AppStep>::empty());
}

} // verus!
