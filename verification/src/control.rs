//! The words that steer the server and its console, and what each of them
//! calls for.

use vstd::prelude::*;
use vstd::string::StringSliceAdditionalSpecFns;

verus! {

/// The bytes of the word `stop`.
pub open spec fn stop_word() -> Seq<u8> {
    seq![115u8, 116u8, 111u8, 112u8]
}

/// The bytes of the word `serverlogs`.
pub open spec fn serverlogs_word() -> Seq<u8> {
    seq![115u8, 101u8, 114u8, 118u8, 101u8, 114u8, 108u8, 111u8, 103u8, 115u8]
}

/// The bytes of the word `q`.
pub open spec fn quit_word() -> Seq<u8> {
    seq![113u8]
}

/// Whether two byte strings are the same.
pub fn same_bytes(a: &[u8], b: &[u8]) -> (r: bool)
    ensures
        r == (a@ == b@),
{
    if a.len() != b.len() {
        return false;
    }
    let mut i: usize = 0;
    while i < a.len()
        invariant
            a@.len() == b@.len(),
            i <= a@.len(),
            forall|k: int| 0 <= k < i ==> a@[k] == b@[k],
        decreases a@.len() - i,
    {
        if a[i] != b[i] {
            return false;
        }
        i += 1;
    }
    assert(a@ =~= b@);
    true
}

/// What the server loop does on a word from the console.
#[derive(Debug, Clone, Copy, PartialEq, Eq, Structural)]
pub enum ServerAction {
    /// Tell every peer that the server stops, and leave the loop.
    Stop,
    /// The server's log is now shown: clear the screen and print its lines.
    ShowLogs,
    /// The server's log is now hidden.
    HideLogs,
    /// Go on.
    Nothing,
}

/// What `word` calls for in the server loop, where `server_mode` says
/// whether the server's log is shown.
pub open spec fn server_action(word: Seq<u8>, server_mode: bool) -> ServerAction {
    if word == stop_word() {
        ServerAction::Stop
    } else if word == serverlogs_word() {
        if server_mode {
            ServerAction::HideLogs
        } else {
            ServerAction::ShowLogs
        }
    } else {
        ServerAction::Nothing
    }
}

/// Whether the server's log is shown after `word`.
pub open spec fn server_mode_after(word: Seq<u8>, server_mode: bool) -> bool {
    if word == serverlogs_word() {
        !server_mode
    } else {
        server_mode
    }
}

/// Decides what the server loop does on a word from the console, and
/// whether the server's log is shown from now on.
pub fn server_control(word: &str, server_mode: bool) -> (r: (ServerAction, bool))
    ensures
        r.0 == server_action(word.spec_bytes(), server_mode),
        r.1 == server_mode_after(word.spec_bytes(), server_mode),
{
    let stop: [u8; 4] = [115, 116, 111, 112];
    let serverlogs: [u8; 10] = [115, 101, 114, 118, 101, 114, 108, 111, 103, 115];
    assert(stop@ =~= stop_word());
    assert(serverlogs@ =~= serverlogs_word());
    if same_bytes(word.as_bytes(), stop.as_slice()) {
        (ServerAction::Stop, server_mode)
    } else if same_bytes(word.as_bytes(), serverlogs.as_slice()) {
        if server_mode {
            (ServerAction::HideLogs, false)
        } else {
            (ServerAction::ShowLogs, true)
        }
    } else {
        (ServerAction::Nothing, server_mode)
    }
}

/// What the console does on a command.
#[derive(Debug, Clone, Copy, PartialEq, Eq, Structural)]
pub enum ConsoleAction {
    /// Stop the server, wait for it, and leave.
    Stop,
    /// Hand the screen to the server's log.
    ShowServerLogs,
    /// Take the screen back and print the console's own log.
    Back,
    /// Say that the command is unknown.
    Unknown,
    /// Go on.
    Nothing,
}

/// What `command` calls for, where `cmd_mode` says whether the console has
/// the screen. While the server's log has it, only `q` is heard.
pub open spec fn console_action(command: Seq<u8>, cmd_mode: bool) -> ConsoleAction {
    if cmd_mode {
        if command == stop_word() {
            ConsoleAction::Stop
        } else if command == serverlogs_word() {
            ConsoleAction::ShowServerLogs
        } else {
            ConsoleAction::Unknown
        }
    } else {
        if command == quit_word() {
            ConsoleAction::Back
        } else {
            ConsoleAction::Nothing
        }
    }
}

/// Whether the console has the screen after `command`.
pub open spec fn cmd_mode_after(command: Seq<u8>, cmd_mode: bool) -> bool {
    if cmd_mode {
        command != serverlogs_word()
    } else {
        command == quit_word()
    }
}

/// Decides what the console does on a command, and whether it has the
/// screen from now on.
pub fn console_control(command: &str, cmd_mode: bool) -> (r: (ConsoleAction, bool))
    ensures
        r.0 == console_action(command.spec_bytes(), cmd_mode),
        r.1 == cmd_mode_after(command.spec_bytes(), cmd_mode),
{
    let stop: [u8; 4] = [115, 116, 111, 112];
    let serverlogs: [u8; 10] = [115, 101, 114, 118, 101, 114, 108, 111, 103, 115];
    let quit: [u8; 1] = [113];
    assert(stop@ =~= stop_word());
    assert(serverlogs@ =~= serverlogs_word());
    assert(quit@ =~= quit_word());
    if cmd_mode {
        if same_bytes(command.as_bytes(), stop.as_slice()) {
            (ConsoleAction::Stop, true)
        } else if same_bytes(command.as_bytes(), serverlogs.as_slice()) {
            (ConsoleAction::ShowServerLogs, false)
        } else {
            (ConsoleAction::Unknown, true)
        }
    } else {
        if same_bytes(command.as_bytes(), quit.as_slice()) {
            (ConsoleAction::Back, true)
        } else {
            (ConsoleAction::Nothing, false)
        }
    }
}

} // verus!
