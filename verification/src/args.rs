//! The command line as values, and what each command does once it knows
//! whether a daemon is running.

use vstd::prelude::*;
use crate::message::AppMessage;
use crate::pickers::PickerKind;

verus! {

/// Directory below the home directory that holds the default files.
pub const LOCAL_PATH: &'static str = ".config/gall";

/// Default configuration file inside `LOCAL_PATH`.
pub const DEFAULT_CONFIG: &'static str = "pickers.toml";

/// Default style sheet inside `LOCAL_PATH`.
pub const DEFAULT_STYLES: &'static str = "pickers.css";

/// How long `stop` waits before it probes again, in milliseconds.
pub const STOP_WAIT_MS: u64 = 500;

/// Options of `start`.
#[derive(Debug, Clone, PartialEq, Eq)]
pub struct DaemonArgs {
    /// Path to the style sheet.
    pub styles: Option<String>,
    /// Path to the configuration file.
    pub config: Option<String>,
    /// Stay in the foreground instead of detaching from the terminal.
    pub keep_open: bool,
}

/// A command of the front end.
#[derive(Debug, Clone, PartialEq, Eq)]
pub enum Commands {
    /// Start the daemon.
    Start(DaemonArgs),
    /// Make the daemon read its configuration again.
    Reload,
    /// Stop the running daemon.
    Stop,
    /// Toggle the application picker.
    Apps,
}

/// A parsed command line.
#[derive(Debug, Clone, PartialEq, Eq)]
pub struct Cli {
    pub command: Commands,
}

/// What the front end tells the user when it ends.
#[derive(PartialEq, Eq, Structural, Clone, Copy, Debug)]
pub enum Notice {
    /// Nothing to report.
    Done,
    /// `start` found a daemon running.
    AlreadyRunning,
    /// `stop` found no daemon running.
    AlreadyDead,
    /// A command for the daemon found none running.
    ProcessDead,
    /// The message could not be delivered.
    SendFailed,
    /// The daemon still answers after the wait that follows `stop`.
    StillRunning,
}

/// The next thing the front end does.
#[derive(PartialEq, Eq, Structural, Clone, Copy, Debug)]
pub enum Step {
    /// Remove a stale endpoint, then become the daemon; `detach` tells
    /// whether to leave the terminal first.
    RunDaemon { detach: bool },
    /// Send the message to the daemon and report with `on_sent`.
    Send(AppMessage),
    /// Sleep for the given milliseconds, probe again and report with
    /// `on_reprobe`.
    WaitAndProbe(u64),
    /// Remove what is left of the endpoint and leave with status 0.
    CleanUpAndExit,
    /// Leave with the given status and notice.
    Exit { status: u8, notice: Notice },
}

/// The message a command sends to a running daemon, if it sends one.
pub open spec fn message_of(command: Commands) -> Option<AppMessage> {
    match command {
        Commands::Start(_) => None,
        Commands::Reload => Some(AppMessage::AppReload),
        Commands::Stop => Some(AppMessage::AppClose),
        Commands::Apps => Some(AppMessage::TogglePicker(PickerKind::Apps)),
    }
}

/// The step that follows the first probe.
pub open spec fn step_after_probe(command: Commands, running: bool) -> Step {
    match command {
        Commands::Start(args) => if running {
            Step::Exit { status: 1, notice: Notice::AlreadyRunning }
        } else {
            Step::RunDaemon { detach: !args.keep_open }
        },
        Commands::Stop => if running {
            Step::Send(AppMessage::AppClose)
        } else {
            Step::Exit { status: 1, notice: Notice::AlreadyDead }
        },
        Commands::Reload => if running {
            Step::Send(AppMessage::AppReload)
        } else {
            Step::Exit { status: 1, notice: Notice::ProcessDead }
        },
        Commands::Apps => if running {
            Step::Send(AppMessage::TogglePicker(PickerKind::Apps))
        } else {
            Step::Exit { status: 1, notice: Notice::ProcessDead }
        },
    }
}

/// The step that follows an attempt to send.
pub open spec fn step_after_send(message: AppMessage, delivered: bool) -> Step {
    if message == AppMessage::AppClose {
        Step::WaitAndProbe(STOP_WAIT_MS)
    } else if delivered {
        Step::Exit { status: 0, notice: Notice::Done }
    } else {
        Step::Exit { status: 1, notice: Notice::SendFailed }
    }
}

impl Commands {
    /// The message this command sends to a running daemon, if any.
    pub fn message(&self) -> (message: Option<AppMessage>)
        ensures
            message == message_of(*self),
    {
        match self {
            Commands::Start(_) => None,
            Commands::Reload => Some(AppMessage::AppReload),
            Commands::Stop => Some(AppMessage::AppClose),
            Commands::Apps => Some(AppMessage::TogglePicker(PickerKind::Apps)),
        }
    }

    /// Decides what the command does once the probe has told whether a
    /// daemon is running. Only a running daemon is ever sent to; `start`
    /// refuses to run beside one.
    pub fn on_probe(&self, running: bool) -> (step: Step)
        ensures
            step == step_after_probe(*self, running),
    {
        match self {
            Commands::Start(args) => {
                if running {
                    Step::Exit { status: 1, notice: Notice::AlreadyRunning }
                } else {
                    Step::RunDaemon { detach: !args.keep_open }
                }
            },
            Commands::Stop => {
                if running {
                    Step::Send(AppMessage::AppClose)
                } else {
                    Step::Exit { status: 1, notice: Notice::AlreadyDead }
                }
            },
            _ => {
                if running {
                    match self.message() {
                        Some(message) => Step::Send(message),
                        None => Step::Exit { status: 1, notice: Notice::ProcessDead },
                    }
                } else {
                    Step::Exit { status: 1, notice: Notice::ProcessDead }
                }
            },
        }
    }
}

/// Decides what follows an attempt to send `message`: after a close the
/// front end waits and probes again, whether or not the send was reported
/// as delivered; any other message ends the command.
pub fn on_sent(message: AppMessage, delivered: bool) -> (step: Step)
    ensures
        step == step_after_send(message, delivered),
{
    if message == AppMessage::AppClose {
        Step::WaitAndProbe(STOP_WAIT_MS)
    } else if delivered {
        Step::Exit { status: 0, notice: Notice::Done }
    } else {
        Step::Exit { status: 1, notice: Notice::SendFailed }
    }
}

/// Decides how `stop` ends once the second probe has answered.
pub fn on_reprobe(still_running: bool) -> (step: Step)
    ensures
        step == if still_running {
            Step::Exit { status: 1, notice: Notice::StillRunning }
        } else {
            Step::CleanUpAndExit
        },
{
    if still_running {
        Step::Exit { status: 1, notice: Notice::StillRunning }
    } else {
        Step::CleanUpAndExit
    }
}

/// Where a file of the daemon is found.
#[derive(Debug, Clone, PartialEq, Eq)]
pub enum FileChoice {
    /// At the path given on the command line.
    Given(String),
    /// Under the given name inside `LOCAL_PATH` below the home directory.
    Local(&'static str),
}

impl DaemonArgs {
    /// Where the configuration file is: as given, else the default.
    pub fn config_file(&self) -> (choice: FileChoice)
        ensures
            match self.config {
                Some(path) => choice == FileChoice::Given(path),
                None => choice == FileChoice::Local(DEFAULT_CONFIG),
            },
    {
        match &self.config {
            Some(path) => FileChoice::Given(path.clone()),
            None => FileChoice::Local(DEFAULT_CONFIG),
        }
    }

    /// Where the style sheet is: as given, else the default.
    pub fn styles_file(&self) -> (choice: FileChoice)
        ensures
            match self.styles {
                Some(path) => choice == FileChoice::Given(path),
                None => choice == FileChoice::Local(DEFAULT_STYLES),
            },
    {
        match &self.styles {
            Some(path) => FileChoice::Given(path.clone()),
            None => FileChoice::Local(DEFAULT_STYLES),
        }
    }
}

/// No command sends to a daemon that the probe found dead, and none starts
/// a second daemon beside a running one.
pub proof fn lemma_no_send_without_daemon(command: Commands)
    ensures
        !(step_after_probe(command, false) is Send),
        !(step_after_probe(command, true) is RunDaemon),
        command is Stop ==> step_after_probe(command, false) == (Step::Exit {
            status: 1,
            notice: Notice::AlreadyDead,
        }),
{
}

/// A command that finds a daemon running sends it exactly its own message.
pub proof fn lemma_running_daemon_gets_message(command: Commands)
    ensures
        match message_of(command) {
            Some(m) => step_after_probe(command, true) == Step::Send(m),
            None => step_after_probe(command, true) is Exit,
        },
{
}

} // verus!
