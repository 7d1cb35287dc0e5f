//! The `bugs` command line: what each subcommand does, and how a line
//! typed in chat mode is handled. Starting processes and talking to the
//! daemon are left to the caller.
use vstd::prelude::*;
use crate::text::{chars_of, str_eq, string_of, trim, trim_chars};

verus! {

/// The subcommands of `bugs`.
#[derive(Debug, Clone, Copy, PartialEq, Eq, Structural)]
pub enum CliCommand {
    /// Start the daemon.
    Start,
    /// Stop the daemon.
    Stop,
    /// Report whether the daemon runs.
    Status,
    /// Open the terminal interface.
    Tui,
    /// Open the web interface.
    Web,
    /// Open the desktop interface.
    Gui,
    /// Chat in the terminal (the default).
    Chat,
}

/// What the daemon subcommands do to the daemon.
#[derive(Debug, Clone, Copy, PartialEq, Eq, Structural)]
pub enum DaemonAction {
    Start,
    Stop,
    Status,
}

/// What `bugs` does for a subcommand.
#[derive(Debug, Clone, Copy)]
pub enum CliAction {
    /// Act on the daemon.
    Daemon(DaemonAction),
    /// Make sure the daemon runs, then run this front end and wait for it.
    Frontend(&'static str),
    /// Make sure the daemon runs, then chat.
    ChatMode,
}

/// The action for a subcommand; no subcommand means chat.
pub fn dispatch(cmd: Option<CliCommand>) -> (r: CliAction)
    ensures
        r == (match cmd {
            Some(CliCommand::Start) => CliAction::Daemon(DaemonAction::Start),
            Some(CliCommand::Stop) => CliAction::Daemon(DaemonAction::Stop),
            Some(CliCommand::Status) => CliAction::Daemon(DaemonAction::Status),
            Some(CliCommand::Tui) => CliAction::Frontend("bugs-tui"),
            Some(CliCommand::Web) => CliAction::Frontend("bugs-web"),
            Some(CliCommand::Gui) => CliAction::Frontend("bugs-gui"),
            Some(CliCommand::Chat) | None => CliAction::ChatMode,
        }),
{
    match cmd {
        Some(CliCommand::Start) => CliAction::Daemon(DaemonAction::Start),
        Some(CliCommand::Stop) => CliAction::Daemon(DaemonAction::Stop),
        Some(CliCommand::Status) => CliAction::Daemon(DaemonAction::Status),
        Some(CliCommand::Tui) => CliAction::Frontend("bugs-tui"),
        Some(CliCommand::Web) => CliAction::Frontend("bugs-web"),
        Some(CliCommand::Gui) => CliAction::Frontend("bugs-gui"),
        Some(CliCommand::Chat) | None => CliAction::ChatMode,
    }
}

/// The line `bugs status` prints.
pub fn status_line(running: bool) -> (r: &'static str)
    ensures
        r@ == (if running { "🟢 bugs-daemon 运行中 (http://127.0.0.1:8742)"@ } else { "⚫ bugs-daemon 未运行"@ }),
{
    if running {
        "🟢 bugs-daemon 运行中 (http://127.0.0.1:8742)"
    } else {
        "⚫ bugs-daemon 未运行"
    }
}

/// What a line typed in chat mode asks for.
#[derive(Debug, Clone, PartialEq, Eq)]
pub enum ChatInput {
    /// Leave chat mode.
    Exit,
    /// Nothing typed: prompt again.
    Skip,
    /// Send this message.
    Send(String),
}

/// Reads a line typed in chat mode: it is trimmed; `/exit` leaves, an empty
/// line is skipped, anything else is sent.
pub fn classify_chat_input(line: &str) -> (r: ChatInput)
    ensures
        trim(line@) == "/exit"@ ==> r == ChatInput::Exit,
        trim(line@).len() == 0 ==> r == ChatInput::Skip,
        trim(line@) != "/exit"@ && trim(line@).len() > 0 ==> (r matches ChatInput::Send(m) && m@ == trim(line@)),
{
    let v = chars_of(line);
    let t = trim_chars(&v);
    let s = string_of(&t);
    proof {
        reveal_strlit("/exit");
    }
    if str_eq(s.as_str(), "/exit") {
        ChatInput::Exit
    } else if t.len() == 0 {
        ChatInput::Skip
    } else {
        ChatInput::Send(s)
    }
}

} // verus!
