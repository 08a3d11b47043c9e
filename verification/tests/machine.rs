use gall::config::{AppEntry, ConfigLoad};
use gall::daemon::{Daemon, Effect, Outcome};
use gall::message::AppMessage;
use gall::pickers::apps::AppPickerState;
use gall::pickers::{Picker, PickerKind};

fn entry(name: &str) -> AppEntry {
    AppEntry {
        name: name.to_string(),
        genc: None,
        desc: None,
        icon: None,
        command: name.to_lowercase(),
    }
}

fn config(names: &[&str]) -> ConfigLoad {
    ConfigLoad {
        css_reload: false,
        terminal: None,
        apps: names.iter().map(|n| entry(n)).collect(),
    }
}

fn started(names: &[&str]) -> Daemon<AppPickerState> {
    let mut daemon = match Daemon::new(vec![AppPickerState::new()], false) {
        Ok(d) => d,
        Err(_) => panic!("registry refused"),
    };
    assert!(daemon.load(&config(names)));
    daemon
}

#[test]
fn fresh_daemon_is_hidden_with_no_active_picker() {
    let daemon = started(&["Firefox"]);
    assert!(!daemon.is_visible());
    assert_eq!(daemon.active(), PickerKind::NoPicker);
    assert!(!daemon.css_reload());
}

#[test]
fn apps_twice_shows_then_hides() {
    let mut daemon = started(&["Firefox", "Files"]);
    let toggle = AppMessage::TogglePicker(PickerKind::Apps);
    let first = daemon.dispatch(toggle);
    assert_eq!(first, Outcome { restyle: false, effect: Effect::ShowWindow });
    assert!(daemon.is_visible());
    assert_eq!(daemon.active(), PickerKind::Apps);
    let second = daemon.dispatch(toggle);
    assert_eq!(second, Outcome { restyle: false, effect: Effect::HideWindow });
    assert!(!daemon.is_visible());
    assert_eq!(daemon.active(), PickerKind::NoPicker);
}

#[test]
fn reload_keeps_a_shown_picker_shown() {
    let mut daemon = started(&["Firefox"]);
    daemon.dispatch(AppMessage::TogglePicker(PickerKind::Apps));
    assert!(daemon.is_visible());
    let outcome = daemon.dispatch(AppMessage::AppReload);
    assert_eq!(outcome, Outcome { restyle: true, effect: Effect::FetchConfig });
    assert!(daemon.is_visible());
    assert_eq!(daemon.active(), PickerKind::Apps);
    daemon.apply_config(&config(&["Firefox", "Files", "Terminal"]));
    assert!(daemon.is_visible());
    assert_eq!(daemon.active(), PickerKind::Apps);
    // hide, then show again: the list holds the new configuration
    daemon.dispatch(AppMessage::TogglePicker(PickerKind::Apps));
    assert!(!daemon.is_visible());
    daemon.dispatch(AppMessage::TogglePicker(PickerKind::Apps));
    assert!(daemon.is_visible());
    let picker = daemon.picker(PickerKind::Apps);
    assert_eq!(picker.app_count(), 3);
    assert_eq!(picker.shown(), vec![0, 1, 2]);
    assert_eq!(picker.fil_apps(), 3);
    assert_eq!(picker.selected(), 0);
    assert_eq!(picker.app(2).map(|e| e.name.as_str()), Some("Terminal"));
}

#[test]
fn reload_reaches_hidden_picker() {
    let mut daemon = started(&["Firefox"]);
    assert_eq!(daemon.picker(PickerKind::Apps).app_count(), 1);
    daemon.dispatch(AppMessage::AppReload);
    let mut next = config(&["A", "B"]);
    next.css_reload = true;
    daemon.apply_config(&next);
    assert!(!daemon.is_visible());
    assert!(daemon.css_reload());
    assert_eq!(daemon.picker(PickerKind::Apps).app_count(), 2);
    // from now on every toggle restyles
    let outcome = daemon.dispatch(AppMessage::TogglePicker(PickerKind::Apps));
    assert_eq!(outcome, Outcome { restyle: true, effect: Effect::ShowWindow });
    let outcome = daemon.dispatch(AppMessage::TogglePicker(PickerKind::Apps));
    assert_eq!(outcome, Outcome { restyle: true, effect: Effect::HideWindow });
}

#[test]
fn close_asks_to_quit_and_changes_nothing() {
    let mut daemon = started(&["Firefox"]);
    daemon.dispatch(AppMessage::TogglePicker(PickerKind::Apps));
    let outcome = daemon.dispatch(AppMessage::AppClose);
    assert_eq!(outcome, Outcome { restyle: false, effect: Effect::Quit });
    assert!(daemon.is_visible());
    assert_eq!(daemon.active(), PickerKind::Apps);
}

#[test]
fn done_hides_window_and_keeps_active_picker() {
    let mut daemon = started(&["Firefox"]);
    daemon.dispatch(AppMessage::TogglePicker(PickerKind::Apps));
    let outcome = daemon.picker_done();
    assert_eq!(outcome, Outcome { restyle: false, effect: Effect::HideWindow });
    assert!(!daemon.is_visible());
    assert_eq!(daemon.active(), PickerKind::Apps);
    // hidden already: done again changes nothing
    daemon.picker_done();
    assert!(!daemon.is_visible());
    // next toggle shows again
    let outcome = daemon.dispatch(AppMessage::TogglePicker(PickerKind::Apps));
    assert_eq!(outcome.effect, Effect::ShowWindow);
}

#[test]
fn only_real_toggles_reload_and_close_are_dispatchable() {
    assert!(Daemon::<AppPickerState>::accepts(&AppMessage::TogglePicker(PickerKind::Apps)));
    assert!(!Daemon::<AppPickerState>::accepts(&AppMessage::TogglePicker(PickerKind::NoPicker)));
    assert!(!Daemon::<AppPickerState>::accepts(&AppMessage::AppPing));
    assert!(Daemon::<AppPickerState>::accepts(&AppMessage::AppClose));
    assert!(Daemon::<AppPickerState>::accepts(&AppMessage::AppReload));
}

#[test]
fn app_picker_reports_its_kind() {
    let picker = AppPickerState::new();
    assert_eq!(picker.kind(), PickerKind::Apps);
}

#[test]
fn window_is_shown_after_an_odd_number_of_toggles() {
    let mut daemon = started(&["Firefox"]);
    let messages = [
        AppMessage::TogglePicker(PickerKind::Apps),
        AppMessage::AppReload,
        AppMessage::TogglePicker(PickerKind::Apps),
        AppMessage::TogglePicker(PickerKind::Apps),
        AppMessage::AppClose,
        AppMessage::TogglePicker(PickerKind::Apps),
        AppMessage::TogglePicker(PickerKind::Apps),
    ];
    let mut toggles = 0;
    for m in messages {
        daemon.dispatch(m);
        if matches!(m, AppMessage::TogglePicker(_)) {
            toggles += 1;
        }
        assert_eq!(daemon.is_visible(), toggles % 2 == 1);
        if !daemon.is_visible() {
            assert_eq!(daemon.active(), PickerKind::NoPicker);
        } else {
            assert_eq!(daemon.active(), PickerKind::Apps);
        }
    }
}
