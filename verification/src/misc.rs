//! Small decisions around the daemon: the area the monitors span, where a
//! path that starts with `~` points, and how long a launched command is
//! watched.

use vstd::prelude::*;
use vstd::string::*;

verus! {

/// Position and size of one monitor.
#[derive(PartialEq, Eq, Structural, Clone, Copy, Debug)]
pub struct Geometry {
    pub x: i32,
    pub y: i32,
    pub width: i32,
    pub height: i32,
}

/// The smallest left edge.
pub open spec fn min_left(ms: Seq<Geometry>) -> int
    decreases ms.len(),
{
    if ms.len() == 0 {
        i32::MAX as int
    } else {
        let rest = min_left(ms.drop_last());
        if ms.last().x < rest {
            ms.last().x as int
        } else {
            rest
        }
    }
}

/// The smallest top edge.
pub open spec fn min_top(ms: Seq<Geometry>) -> int
    decreases ms.len(),
{
    if ms.len() == 0 {
        i32::MAX as int
    } else {
        let rest = min_top(ms.drop_last());
        if ms.last().y < rest {
            ms.last().y as int
        } else {
            rest
        }
    }
}

/// The greatest right edge.
pub open spec fn max_right(ms: Seq<Geometry>) -> int
    decreases ms.len(),
{
    if ms.len() == 0 {
        i32::MIN as int
    } else {
        let rest = max_right(ms.drop_last());
        if ms.last().x + ms.last().width > rest {
            ms.last().x + ms.last().width
        } else {
            rest
        }
    }
}

/// The greatest bottom edge.
pub open spec fn max_bottom(ms: Seq<Geometry>) -> int
    decreases ms.len(),
{
    if ms.len() == 0 {
        i32::MIN as int
    } else {
        let rest = max_bottom(ms.drop_last());
        if ms.last().y + ms.last().height > rest {
            ms.last().y + ms.last().height
        } else {
            rest
        }
    }
}

/// Width and height of the smallest rectangle that holds every monitor, if
/// there is a monitor and both fit the integer type.
pub open spec fn display_size(ms: Seq<Geometry>) -> Option<(i32, i32)> {
    let w = max_right(ms) - min_left(ms);
    let h = max_bottom(ms) - min_top(ms);
    if ms.len() > 0 && i32::MIN <= w <= i32::MAX && i32::MIN <= h <= i32::MAX {
        Some((w as i32, h as i32))
    } else {
        None
    }
}

/// Width and height of the area that the monitors span together. `None`
/// without a monitor, and when a side does not fit an `i32`.
pub fn get_full_display_size(monitors: &Vec<Geometry>) -> (size: Option<(i32, i32)>)
    ensures
        size == display_size(monitors@),
{
    if monitors.len() == 0 {
        return None;
    }
    let mut x0: i64 = i32::MAX as i64;
    let mut y0: i64 = i32::MAX as i64;
    let mut x1: i64 = i32::MIN as i64;
    let mut y1: i64 = i32::MIN as i64;
    let mut i: usize = 0;
    assert(monitors@.take(0) =~= Seq::<Geometry>::empty());
    while i < monitors.len()
        invariant
            0 <= i <= monitors@.len(),
            x0 == min_left(monitors@.take(i as int)),
            y0 == min_top(monitors@.take(i as int)),
            x1 == max_right(monitors@.take(i as int)),
            y1 == max_bottom(monitors@.take(i as int)),
            i32::MIN <= x0 <= i32::MAX,
            i32::MIN <= y0 <= i32::MAX,
            2 * i32::MIN <= x1 <= 2 * i32::MAX,
            2 * i32::MIN <= y1 <= 2 * i32::MAX,
        decreases monitors.len() - i,
    {
        let m = monitors[i];
        proof {
            let next = monitors@.take(i + 1);
            assert(next.drop_last() =~= monitors@.take(i as int));
            assert(next.last() == m);
        }
        let right: i64 = m.x as i64 + m.width as i64;
        let bottom: i64 = m.y as i64 + m.height as i64;
        if (m.x as i64) < x0 {
            x0 = m.x as i64;
        }
        if (m.y as i64) < y0 {
            y0 = m.y as i64;
        }
        if right > x1 {
            x1 = right;
        }
        if bottom > y1 {
            y1 = bottom;
        }
        i = i + 1;
    }
    assert(monitors@.take(i as int) =~= monitors@);
    let w: i64 = x1 - x0;
    let h: i64 = y1 - y0;
    if w < i32::MIN as i64 || w > i32::MAX as i64 || h < i32::MIN as i64 || h > i32::MAX as i64 {
        None
    } else {
        Some((w as i32, h as i32))
    }
}

/// What a leading `~` of a path stands for.
#[derive(PartialEq, Eq, Structural, Clone, Copy, Debug)]
pub enum Tilde {
    /// The path does not start with the component `~`: it stays as it is.
    Verbatim,
    /// The path is `~` alone: it is the home directory.
    Home,
    /// The path starts with `~/`: what follows these two bytes is appended
    /// to the home directory.
    HomeThen,
}

/// How a path that may start with `~` is read.
pub open spec fn tilde_spec(path: Seq<u8>) -> Tilde {
    if path.len() == 1 && path[0] == 126u8 {
        Tilde::Home
    } else if path.len() >= 2 && path[0] == 126u8 && path[1] == 47u8 {
        Tilde::HomeThen
    } else {
        Tilde::Verbatim
    }
}

/// Tells whether a path starts with the component `~`, and if so, whether
/// anything follows it.
pub fn expand_tilde(path: &str) -> (tilde: Tilde)
    ensures
        tilde == tilde_spec(path.spec_bytes()),
{
    let bytes = path.as_bytes();
    if bytes.len() == 1 && bytes[0] == 126 {
        Tilde::Home
    } else if bytes.len() >= 2 && bytes[0] == 126 && bytes[1] == 47 {
        Tilde::HomeThen
    } else {
        Tilde::Verbatim
    }
}

/// How long a launched command is watched, in milliseconds.
pub const LAUNCH_TIMEOUT_MS: u64 = 3000;

/// Pause between two looks at a launched command, in milliseconds.
pub const LAUNCH_POLL_MS: u64 = 10;

/// What a look at a launched command found.
#[derive(PartialEq, Eq, Structural, Clone, Copy, Debug)]
pub enum ChildStatus {
    /// It has ended, with or without success, maybe with an exit code.
    Exited { success: bool, code: Option<i32> },
    /// It is still running.
    Running,
    /// Its status could not be read.
    Unknown,
}

/// What to do after a look at a launched command.
#[derive(PartialEq, Eq, Structural, Clone, Copy, Debug)]
pub enum LaunchStep {
    /// The launch succeeded: the command ended well, or outlived the
    /// timeout.
    Launched,
    /// The command failed with this exit code, -1 where it had none:
    /// collect its output and report.
    Failed(i32),
    /// Its status could not be read: report.
    WaitFailed,
    /// Sleep for the given milliseconds and look again.
    Pause(u64),
}

/// The step after a look at a launched command, `elapsed_ms` after its
/// start.
pub open spec fn launch_step(status: ChildStatus, elapsed_ms: u64) -> LaunchStep {
    match status {
        ChildStatus::Exited { success, code } => if success {
            LaunchStep::Launched
        } else {
            LaunchStep::Failed(
                match code {
                    Some(c) => c,
                    None => -1i32,
                },
            )
        },
        ChildStatus::Running => if elapsed_ms >= LAUNCH_TIMEOUT_MS {
            LaunchStep::Launched
        } else {
            LaunchStep::Pause(LAUNCH_POLL_MS)
        },
        ChildStatus::Unknown => LaunchStep::WaitFailed,
    }
}

/// Decides what to do after a look at a launched command.
pub fn launch_detached(status: ChildStatus, elapsed_ms: u64) -> (step: LaunchStep)
    ensures
        step == launch_step(status, elapsed_ms),
{
    match status {
        ChildStatus::Exited { success, code } => {
            if success {
                LaunchStep::Launched
            } else {
                match code {
                    Some(c) => LaunchStep::Failed(c),
                    None => LaunchStep::Failed(-1),
                }
            }
        },
        ChildStatus::Running => {
            if elapsed_ms >= LAUNCH_TIMEOUT_MS {
                LaunchStep::Launched
            } else {
                LaunchStep::Pause(LAUNCH_POLL_MS)
            }
        },
        ChildStatus::Unknown => LaunchStep::WaitFailed,
    }
}

/// The spanned area holds every monitor.
pub proof fn lemma_span_holds_every_monitor(ms: Seq<Geometry>, i: int)
    requires
        0 <= i < ms.len(),
    ensures
        min_left(ms) <= ms[i].x,
        min_top(ms) <= ms[i].y,
        ms[i].x + ms[i].width <= max_right(ms),
        ms[i].y + ms[i].height <= max_bottom(ms),
    decreases ms.len(),
{
    if i < ms.len() - 1 {
        lemma_span_holds_every_monitor(ms.drop_last(), i);
    }
}

} // verus!
