use gall::misc::{
    expand_tilde, get_full_display_size, launch_detached, ChildStatus, Geometry, LaunchStep, Tilde,
    LAUNCH_POLL_MS, LAUNCH_TIMEOUT_MS,
};

fn monitor(x: i32, y: i32, width: i32, height: i32) -> Geometry {
    Geometry { x, y, width, height }
}

#[test]
fn one_monitor_spans_itself() {
    assert_eq!(get_full_display_size(&vec![monitor(0, 0, 1920, 1080)]), Some((1920, 1080)));
    assert_eq!(get_full_display_size(&vec![monitor(-100, 50, 800, 600)]), Some((800, 600)));
}

#[test]
fn monitors_side_by_side_add_up() {
    let ms = vec![monitor(0, 0, 1920, 1080), monitor(1920, 0, 2560, 1440)];
    assert_eq!(get_full_display_size(&ms), Some((4480, 1440)));
    let ms = vec![monitor(1920, 200, 1280, 1024), monitor(0, 0, 1920, 1080)];
    assert_eq!(get_full_display_size(&ms), Some((3200, 1224)));
}

#[test]
fn no_monitor_no_size() {
    assert_eq!(get_full_display_size(&Vec::new()), None);
}

#[test]
fn size_beyond_the_integer_range_is_refused() {
    let ms = vec![monitor(i32::MIN, 0, 10, 10), monitor(i32::MAX - 10, 0, 10, 10)];
    assert_eq!(get_full_display_size(&ms), None);
    let ms = vec![monitor(i32::MAX, 0, 1, 1)];
    assert_eq!(get_full_display_size(&ms), Some((1, 1)));
    let ms = vec![monitor(0, 0, i32::MAX, i32::MAX)];
    assert_eq!(get_full_display_size(&ms), Some((i32::MAX, i32::MAX)));
}

#[test]
fn tilde_is_read_as_a_component() {
    assert_eq!(expand_tilde("~"), Tilde::Home);
    assert_eq!(expand_tilde("~/"), Tilde::HomeThen);
    assert_eq!(expand_tilde("~/.local/share/applications/"), Tilde::HomeThen);
    assert_eq!(expand_tilde("~user/x"), Tilde::Verbatim);
    assert_eq!(expand_tilde("/usr/share/applications/"), Tilde::Verbatim);
    assert_eq!(expand_tilde("a/~/b"), Tilde::Verbatim);
    assert_eq!(expand_tilde(""), Tilde::Verbatim);
}

#[test]
fn finished_command_is_judged_by_its_status() {
    let ok = ChildStatus::Exited { success: true, code: Some(0) };
    assert_eq!(launch_detached(ok, 0), LaunchStep::Launched);
    let failed = ChildStatus::Exited { success: false, code: Some(127) };
    assert_eq!(launch_detached(failed, 5), LaunchStep::Failed(127));
    let killed = ChildStatus::Exited { success: false, code: None };
    assert_eq!(launch_detached(killed, 5), LaunchStep::Failed(-1));
    assert_eq!(launch_detached(ChildStatus::Unknown, 5), LaunchStep::WaitFailed);
}

#[test]
fn running_command_is_watched_for_three_seconds() {
    assert_eq!(launch_detached(ChildStatus::Running, 0), LaunchStep::Pause(10));
    assert_eq!(launch_detached(ChildStatus::Running, 2999), LaunchStep::Pause(LAUNCH_POLL_MS));
    assert_eq!(launch_detached(ChildStatus::Running, 3000), LaunchStep::Launched);
    assert_eq!(launch_detached(ChildStatus::Running, u64::MAX), LaunchStep::Launched);
    assert_eq!(LAUNCH_TIMEOUT_MS, 3000);
}
