use gall::config::ConfigLoad;
use gall::daemon::{Daemon, Effect};
use gall::message::AppMessage;
use gall::pickers::{Picker, PickerKind};

struct Recorder {
    shows: Vec<PickerKind>,
    reloads: usize,
    loads: usize,
    kind: PickerKind,
    ready: bool,
}

impl Picker for Recorder {
    fn kind_spec(&self) -> PickerKind {
        self.kind
    }

    fn load(&mut self, _config: &ConfigLoad) -> bool {
        self.loads += 1;
        self.ready
    }

    fn show(&mut self, previous: PickerKind) -> bool {
        self.shows.push(previous);
        previous != self.kind
    }

    fn kind(&self) -> PickerKind {
        self.kind
    }

    fn reload(&mut self, _config: &ConfigLoad) {
        self.reloads += 1;
    }
}

fn recorder(kind: PickerKind) -> Recorder {
    Recorder { shows: Vec::new(), reloads: 0, loads: 0, kind, ready: true }
}

#[test]
fn registry_of_wrong_kind_is_handed_back() {
    let rejected = Daemon::new(vec![recorder(PickerKind::NoPicker)], false);
    assert!(rejected.is_err());
    let empty: Vec<Recorder> = Vec::new();
    assert!(Daemon::new(empty, false).is_err());
    let two = vec![recorder(PickerKind::Apps), recorder(PickerKind::Apps)];
    assert!(Daemon::new(two, false).is_err());
}

#[test]
fn show_gets_previous_kind() {
    let mut daemon = match Daemon::new(vec![recorder(PickerKind::Apps)], false) {
        Ok(d) => d,
        Err(_) => panic!("registry refused"),
    };
    // first activation: nothing was active
    assert_eq!(daemon.dispatch(AppMessage::TogglePicker(PickerKind::Apps)).effect, Effect::ShowWindow);
    // the picker finishes by itself: the window goes, the active picker stays
    assert_eq!(daemon.picker_done().effect, Effect::HideWindow);
    assert!(!daemon.is_visible());
    assert_eq!(daemon.active(), PickerKind::Apps);
    // shown again: the same kind was active
    assert_eq!(daemon.dispatch(AppMessage::TogglePicker(PickerKind::Apps)).effect, Effect::ShowWindow);
    // toggled away, then shown: nothing was active
    assert_eq!(daemon.dispatch(AppMessage::TogglePicker(PickerKind::Apps)).effect, Effect::HideWindow);
    assert_eq!(daemon.active(), PickerKind::NoPicker);
    assert_eq!(daemon.dispatch(AppMessage::TogglePicker(PickerKind::Apps)).effect, Effect::ShowWindow);
    let picker = daemon.picker(PickerKind::Apps);
    assert_eq!(picker.shows, vec![PickerKind::NoPicker, PickerKind::Apps, PickerKind::NoPicker]);
}

#[test]
fn reload_reaches_every_picker_even_hidden() {
    let mut daemon = match Daemon::new(vec![recorder(PickerKind::Apps)], false) {
        Ok(d) => d,
        Err(_) => panic!("registry refused"),
    };
    let config = ConfigLoad { css_reload: true, terminal: None, apps: Vec::new() };
    assert!(daemon.load(&config));
    assert!(daemon.css_reload());
    assert!(!daemon.is_visible());
    let outcome = daemon.dispatch(AppMessage::AppReload);
    assert_eq!(outcome.effect, Effect::FetchConfig);
    assert!(outcome.restyle);
    daemon.apply_config(&config);
    assert!(!daemon.is_visible());
    assert_eq!(daemon.active(), PickerKind::NoPicker);
    let picker = daemon.picker(PickerKind::Apps);
    assert_eq!(picker.loads, 1);
    assert_eq!(picker.reloads, 1);
    assert!(picker.shows.is_empty());
}

#[test]
fn load_tells_whether_every_picker_is_ready() {
    let mut unready = recorder(PickerKind::Apps);
    unready.ready = false;
    let mut daemon = match Daemon::new(vec![unready], false) {
        Ok(d) => d,
        Err(_) => panic!("registry refused"),
    };
    let config = ConfigLoad { css_reload: false, terminal: None, apps: Vec::new() };
    assert!(!daemon.load(&config));
    assert_eq!(daemon.picker(PickerKind::Apps).loads, 1);
    assert!(!daemon.is_visible());
}
