//! The shell that a new session runs, and the geometry of its terminal.

use vstd::prelude::*;
use portable_pty::{CommandBuilder, PtySize};

verus! {

/// The command of a process to run in a pty, opaque to the verifier.
#[verifier::external_type_specification]
#[verifier::external_body]
pub struct ExCommandBuilder(CommandBuilder);

/// The size of a terminal, with its four public fields.
#[verifier::external_type_specification]
pub struct ExPtySize(PtySize);

/// The argument vector of a command, program first.
pub uninterp spec fn command_argv(command: CommandBuilder) -> Seq<Seq<char>>;

/// The working directory set on a command, if any.
pub uninterp spec fn command_cwd(command: CommandBuilder) -> Option<Seq<char>>;

/// The value that a command's environment holds for `key`, if any.
pub uninterp spec fn command_env(command: CommandBuilder, key: Seq<char>) -> Option<Seq<char>>;

/// Family of the host platform, which decides the shell.
#[derive(Clone, Copy, Debug, PartialEq, Eq, Structural)]
pub enum Platform {
    /// Unix-like hosts: an interactive `bash`.
    Posix,
    /// Windows hosts: the console host `cmd.exe`.
    Windows,
}

/// Starts a command for `program`. `CommandBuilder::new` puts the program
/// first in the argument vector and sets no working directory; the
/// environment is inherited from the running process, so nothing is said of
/// it here.
#[verifier::external_body]
fn command_new(program: &str) -> (command: CommandBuilder)
    ensures
        command_argv(command) == seq![program@],
        command_cwd(command) is None,
{
    CommandBuilder::new(program)
}

/// Appends one argument with `CommandBuilder::arg`, which leaves directory
/// and environment alone. It panics on a builder without a program, hence
/// the precondition.
#[verifier::external_body]
fn command_arg(command: &mut CommandBuilder, arg: &str)
    requires
        command_argv(*old(command)).len() > 0,
    ensures
        command_argv(*final(command)) == command_argv(*old(command)).push(arg@),
        command_cwd(*final(command)) == command_cwd(*old(command)),
        forall|key: Seq<char>| command_env(*final(command), key) == command_env(*old(command), key),
{
    command.arg(arg)
}

/// Sets one environment variable with `CommandBuilder::env`, after which the
/// builder answers `value` for `key`. Arguments and directory stay.
#[verifier::external_body]
fn command_set_env(command: &mut CommandBuilder, key: &str, value: &str)
    ensures
        command_env(*final(command), key@) == Some(value@),
        command_argv(*final(command)) == command_argv(*old(command)),
        command_cwd(*final(command)) == command_cwd(*old(command)),
{
    command.env(key, value)
}

/// Sets the working directory with `CommandBuilder::cwd`. Arguments and
/// environment stay.
#[verifier::external_body]
fn command_set_cwd(command: &mut CommandBuilder, dir: &str)
    ensures
        command_cwd(*final(command)) == Some(dir@),
        command_argv(*final(command)) == command_argv(*old(command)),
        forall|key: Seq<char>| command_env(*final(command), key) == command_env(*old(command), key),
{
    command.cwd(dir)
}

/// The directory a new shell starts in: the requested one if it was given
/// and exists on disk, otherwise the process default.
pub open spec fn chosen_cwd(cwd: Option<Seq<char>>, cwd_exists: bool) -> Option<Seq<char>> {
    if cwd is Some && cwd_exists {
        cwd
    } else {
        None
    }
}

/// The argument vector of the platform's shell.
pub open spec fn shell_argv(platform: Platform) -> Seq<Seq<char>> {
    match platform {
        Platform::Posix => seq!["bash"@, "-i"@],
        Platform::Windows => seq!["cmd.exe"@],
    }
}

/// Terminal geometry of `rows` by `cols` character cells, pixel size unset.
pub fn pty_size(rows: u16, cols: u16) -> (size: PtySize)
    ensures
        size.rows == rows,
        size.cols == cols,
        size.pixel_width == 0,
        size.pixel_height == 0,
{
    PtySize { rows, cols, pixel_width: 0, pixel_height: 0 }
}

/// Builds the command for a new session's shell. On Posix hosts the shell is
/// told its terminal type, so that programs aware of escape sequences behave.
/// `cwd_exists` reports whether `cwd` was found on disk.
pub fn shell_command(platform: Platform, cwd: Option<&str>, cwd_exists: bool) -> (command:
    CommandBuilder)
    ensures
        command_argv(command) == shell_argv(platform),
        platform == Platform::Posix ==> command_env(command, "TERM"@) == Some("xterm-256color"@),
        command_cwd(command) == chosen_cwd(
            match cwd {
                Some(dir) => Some(dir@),
                None => None,
            },
            cwd_exists,
        ),
{
    let mut command = match platform {
        Platform::Posix => {
            let mut command = command_new("bash");
            command_arg(&mut command, "-i");
            command_set_env(&mut command, "TERM", "xterm-256color");
            command
        },
        Platform::Windows => command_new("cmd.exe"),
    };
    if let Some(dir) = cwd {
        if cwd_exists {
            command_set_cwd(&mut command, dir);
        }
    }
    command
}

} // verus!
