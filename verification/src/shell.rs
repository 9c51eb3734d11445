//! Winland as the shell of a user: the command line, the values in the registry, and the scheduled task
//! that starts the daemon with more rights.

use vstd::prelude::*;

use crate::numeral::{decimal, numeral, signed_decimal, signed_numeral};
use crate::text::{
    ascii_lower, chars_of, contains_part, has_part, same_text, text_of, trim_chars, trimmed,
};

verus! {

/// The registry key that holds the shell of the user.
pub const USER_WINLOGON_KEY: &'static str =
    "HKCU\\Software\\Microsoft\\Windows NT\\CurrentVersion\\Winlogon";

/// The name of the scheduled task.
pub const ELEVATED_DAEMON_TASK_NAME: &'static str = "\\Winland\\DaemonElevated";

/// What the description of the scheduled task holds before the path of the daemon.
pub const TASK_XML_HEAD: &'static str = "<?xml version=\"1.0\" encoding=\"UTF-16\"?>\n<Task version=\"1.4\" xmlns=\"http://schemas.microsoft.com/windows/2004/02/mit/task\">\n  <RegistrationInfo>\n    <Description>Starts the Winland daemon elevated for experimental shell replacement testing.</Description>\n  </RegistrationInfo>\n  <Principals>\n    <Principal id=\"Author\">\n      <LogonType>InteractiveToken</LogonType>\n      <RunLevel>HighestAvailable</RunLevel>\n    </Principal>\n  </Principals>\n  <Settings>\n    <MultipleInstancesPolicy>IgnoreNew</MultipleInstancesPolicy>\n    <DisallowStartIfOnBatteries>false</DisallowStartIfOnBatteries>\n    <StopIfGoingOnBatteries>false</StopIfGoingOnBatteries>\n    <AllowHardTerminate>true</AllowHardTerminate>\n    <StartWhenAvailable>false</StartWhenAvailable>\n    <RunOnlyIfNetworkAvailable>false</RunOnlyIfNetworkAvailable>\n    <IdleSettings>\n      <StopOnIdleEnd>false</StopOnIdleEnd>\n      <RestartOnIdle>false</RestartOnIdle>\n    </IdleSettings>\n    <AllowStartOnDemand>true</AllowStartOnDemand>\n    <Enabled>true</Enabled>\n    <Hidden>false</Hidden>\n    <RunOnlyIfIdle>false</RunOnlyIfIdle>\n    <WakeToRun>false</WakeToRun>\n    <ExecutionTimeLimit>PT0S</ExecutionTimeLimit>\n    <Priority>7</Priority>\n  </Settings>\n  <Actions Context=\"Author\">\n    <Exec>\n      <Command>";

/// What the description of the scheduled task holds behind the path of the daemon.
pub const TASK_XML_TAIL: &'static str = "</Command>\n    </Exec>\n  </Actions>\n</Task>";

/// Why the shell could not be changed.
#[derive(Debug, Clone, PartialEq, Eq)]
pub enum ShellError {
    InvalidShellCommand,
    MissingShellBackup,
    Operation { operation: &'static str, message: String },
}

/// The values of the registry that concern the shell: the shell, what was the shell before Winland was
/// installed, and `1` if there was one.
#[derive(Debug, Clone, PartialEq, Eq)]
pub struct ShellValues {
    pub shell: Option<String>,
    pub backup_shell: Option<String>,
    pub backup_was_present: Option<String>,
}

/// The values as texts.
pub ghost struct ShellValuesView {
    pub shell: Option<Seq<char>>,
    pub backup_shell: Option<Seq<char>>,
    pub backup_was_present: Option<Seq<char>>,
}

/// What is known of the shell of the user.
#[derive(Debug, Clone, PartialEq, Eq)]
pub struct ShellReplacementStatus {
    pub registry_key: &'static str,
    pub current_shell: Option<String>,
    pub backup_shell: Option<String>,
    pub backup_shell_was_present: Option<bool>,
    pub is_winland_shell: bool,
}

/// A change of the shell of the user.
#[derive(Debug, Clone, PartialEq, Eq)]
pub struct ShellReplacementChange {
    pub registry_key: &'static str,
    pub previous_shell: Option<String>,
    pub new_shell: Option<String>,
}

/// The text of an optional value.
pub open spec fn value_view(value: Option<String>) -> Option<Seq<char>> {
    match value {
        Some(text) => Some(text@),
        None => None,
    }
}

impl View for ShellValues {
    type V = ShellValuesView;

    open spec fn view(&self) -> ShellValuesView {
        ShellValuesView {
            shell: value_view(self.shell),
            backup_shell: value_view(self.backup_shell),
            backup_was_present: value_view(self.backup_was_present),
        }
    }
}

fn copy_value(value: &Option<String>) -> (r: Option<String>)
    ensures
        value_view(r) == value_view(*value),
{
    match value {
        Some(text) => Some(text.clone()),
        None => None,
    }
}

/// Whether a character separates arguments.
pub open spec fn separates(c: char) -> bool {
    c == ' ' || c == '\t' || c == '\n' || c == '\r' || c == '\u{c}'
}

/// Whether an argument can stand in a command line as it is.
pub open spec fn is_plain(argument: Seq<char>) -> bool {
    argument.len() > 0 && forall|i: int|
        0 <= i < argument.len() ==> !separates(#[trigger] argument[i]) && argument[i] != '"'
            && argument[i] != '\\'
}

/// A number of backslashes.
pub open spec fn backslashes(count: nat) -> Seq<char> {
    Seq::new(count, |i: int| '\\')
}

/// How many backslashes a text ends in.
pub open spec fn trailing_backslashes(text: Seq<char>) -> nat
    decreases text.len(),
{
    if text.len() > 0 && text.last() == '\\' {
        trailing_backslashes(text.drop_last()) + 1
    } else {
        0
    }
}

/// An argument with its quotes, and the backslashes before them, escaped; the backslashes at its end are
/// left out.
pub open spec fn escaped(argument: Seq<char>) -> Seq<char>
    decreases argument.len(),
{
    if argument.len() == 0 {
        Seq::empty()
    } else {
        let rest = argument.drop_last();
        if argument.last() == '\\' {
            escaped(rest)
        } else if argument.last() == '"' {
            (escaped(rest) + backslashes(2 * trailing_backslashes(rest) + 1)).push('"')
        } else {
            (escaped(rest) + backslashes(trailing_backslashes(rest))).push(argument.last())
        }
    }
}

/// An argument as it stands in a command line.
pub open spec fn quoted(argument: Seq<char>) -> Seq<char> {
    if is_plain(argument) {
        argument
    } else {
        (seq!['"'] + escaped(argument) + backslashes(2 * trailing_backslashes(argument))).push('"')
    }
}

fn push_backslashes(text: &mut Vec<char>, count: usize)
    ensures
        final(text)@ == old(text)@ + backslashes(count as nat),
{
    let ghost before = text@;
    let mut done: usize = 0;
    proof {
        assert(text@ =~= before + backslashes(0));
    }
    while done < count
        invariant
            done <= count,
            text@ == before + backslashes(done as nat),
        decreases count - done,
    {
        text.push('\\');
        proof {
            assert(text@ =~= before + backslashes((done + 1) as nat));
        }
        done = done + 1;
    }
}

fn plain_argument(argument: &[char]) -> (r: bool)
    ensures
        r == is_plain(argument@),
{
    if argument.len() == 0 {
        return false;
    }
    let mut index: usize = 0;
    while index < argument.len()
        invariant
            index <= argument.len(),
            argument.len() > 0,
            forall|i: int|
                0 <= i < index ==> !separates(#[trigger] argument@[i]) && argument@[i] != '"'
                    && argument@[i] != '\\',
        decreases argument.len() - index,
    {
        let c: char = argument[index];
        if c == ' ' || c == '\t' || c == '\n' || c == '\r' || c == '\u{c}' || c == '"' || c == '\\' {
            return false;
        }
        index = index + 1;
    }
    true
}

/// Quotes an argument for a command line.
pub fn quote_windows_arg(argument: &str) -> (r: String)
    ensures
        r@ == quoted(argument@),
{
    let chars: Vec<char> = chars_of(argument);
    if plain_argument(&chars) {
        return argument.to_owned();
    }
    let mut text: Vec<char> = Vec::new();
    text.push('"');
    let mut pending: usize = 0;
    let mut index: usize = 0;
    proof {
        assert(text@ =~= seq!['"'] + escaped(chars@.take(0)));
    }
    while index < chars.len()
        invariant
            index <= chars.len(),
            chars@ == argument@,
            pending <= index,
            pending == trailing_backslashes(chars@.take(index as int)),
            text@ == seq!['"'] + escaped(chars@.take(index as int)),
        decreases chars.len() - index,
    {
        let c: char = chars[index];
        let ghost rest = chars@.take(index as int);
        let ghost before = text@;
        proof {
            assert(chars@.take(index + 1).drop_last() =~= rest);
            assert(chars@.take(index + 1).last() == c);
        }
        if c == '\\' {
            pending = pending + 1;
        } else if c == '"' {
            push_backslashes(&mut text, pending);
            push_backslashes(&mut text, pending);
            text.push('\\');
            text.push('"');
            proof {
                assert(text@ =~= (before + backslashes((2 * pending + 1) as nat)).push('"'));
                assert(text@ =~= seq!['"'] + escaped(chars@.take(index + 1)));
            }
            pending = 0;
        } else {
            push_backslashes(&mut text, pending);
            text.push(c);
            proof {
                assert(text@ =~= seq!['"'] + escaped(chars@.take(index + 1)));
            }
            pending = 0;
        }
        index = index + 1;
    }
    proof {
        assert(chars@.take(index as int) =~= chars@);
    }
    let ghost before = text@;
    push_backslashes(&mut text, pending);
    push_backslashes(&mut text, pending);
    text.push('"');
    proof {
        assert(text@ =~= (before + backslashes((2 * pending) as nat)).push('"'));
    }
    text_of(&text)
}

/// How far a command line was read: the argument so far, how many backslashes wait for what follows
/// them, and whether the text stands between quotes.
pub ghost struct Reading {
    pub argument: Seq<char>,
    pub pending: nat,
    pub between_quotes: bool,
}

/// Reads an argument of a command line: backslashes stand for themselves unless a quote follows them;
/// then two stand for one, and an odd one makes the quote stand for itself.
pub open spec fn reading(text: Seq<char>) -> Reading
    decreases text.len(),
{
    if text.len() == 0 {
        Reading { argument: Seq::empty(), pending: 0, between_quotes: false }
    } else {
        let before = reading(text.drop_last());
        if text.last() == '\\' {
            Reading { pending: before.pending + 1, ..before }
        } else if text.last() == '"' {
            if before.pending % 2 == 0 {
                Reading {
                    argument: before.argument + backslashes(before.pending / 2),
                    pending: 0,
                    between_quotes: !before.between_quotes,
                }
            } else {
                Reading {
                    argument: (before.argument + backslashes(before.pending / 2)).push('"'),
                    pending: 0,
                    ..before
                }
            }
        } else {
            Reading {
                argument: (before.argument + backslashes(before.pending)).push(text.last()),
                pending: 0,
                ..before
            }
        }
    }
}

/// The argument that was read.
pub open spec fn read_argument(text: Seq<char>) -> Seq<char> {
    reading(text).argument + backslashes(reading(text).pending)
}

/// A quoted argument is read as the argument, and the quotes are closed.
pub proof fn quoted_argument_is_read_back(argument: Seq<char>)
    ensures
        read_argument(quoted(argument)) == argument,
        !reading(quoted(argument)).between_quotes,
{
    if is_plain(argument) {
        lemma_plain_reading(argument);
        assert(read_argument(argument) =~= argument);
    } else {
        let count = trailing_backslashes(argument);
        let open = seq!['"'] + escaped(argument);
        let text = open + backslashes(2 * count);
        lemma_escaped_reading(argument);
        lemma_pending(open, 2 * count);
        assert(quoted(argument).drop_last() =~= text);
        lemma_trailing(argument);
        assert((2 * count) % 2 == 0 && (2 * count) / 2 == count) by (nonlinear_arith);
        assert(reading(quoted(argument)).argument =~= argument);
        assert(read_argument(quoted(argument)) =~= argument);
    }
}

/// Within a quoted argument, what separates arguments stands between quotes.
pub proof fn quoted_argument_is_one_argument(argument: Seq<char>, at: int)
    requires
        0 <= at < quoted(argument).len(),
        separates(quoted(argument)[at]),
    ensures
        reading(quoted(argument).take(at)).between_quotes,
{
    if !is_plain(argument) {
        let open = seq!['"'] + escaped(argument);
        let count = trailing_backslashes(argument);
        assert(at < open.len()) by {
            if at >= open.len() {
                assert(quoted(argument)[at] == '\\' || quoted(argument)[at] == '"');
            }
        }
        assert(at > 0);
        assert(quoted(argument).take(at) =~= open.take(at));
        lemma_inside(argument, at);
    }
}

proof fn lemma_trailing(text: Seq<char>)
    ensures
        trailing_backslashes(text) <= text.len(),
        text == text.take(text.len() - trailing_backslashes(text)) + backslashes(
            trailing_backslashes(text),
        ),
    decreases text.len(),
{
    let count = trailing_backslashes(text);
    if text.len() > 0 && text.last() == '\\' {
        let rest = text.drop_last();
        lemma_trailing(rest);
        assert(text =~= rest.push('\\'));
        assert(rest.take(rest.len() - trailing_backslashes(rest)) =~= text.take(text.len() - count));
    }
    assert(text =~= text.take(text.len() - count) + backslashes(count));
}

proof fn lemma_pending(text: Seq<char>, count: nat)
    requires
        reading(text).pending == 0,
    ensures
        reading(text + backslashes(count)) == (Reading { pending: count, ..reading(text) }),
    decreases count,
{
    let whole = text + backslashes(count);
    if count == 0 {
        assert(whole =~= text);
    } else {
        lemma_pending(text, (count - 1) as nat);
        assert(whole.drop_last() =~= text + backslashes((count - 1) as nat));
        assert(whole.last() == '\\');
    }
}

proof fn lemma_escaped_reading(argument: Seq<char>)
    ensures
        reading(seq!['"'] + escaped(argument)) == (Reading {
            argument: argument.take(argument.len() - trailing_backslashes(argument)),
            pending: 0,
            between_quotes: true,
        }),
    decreases argument.len(),
{
    let open = seq!['"'] + escaped(argument);
    lemma_trailing(argument);
    if argument.len() == 0 {
        assert(open =~= seq!['"']);
        assert(open.drop_last() =~= Seq::<char>::empty());
        let start = reading(Seq::<char>::empty());
        assert(start.pending == 0 && start.argument.len() == 0);
        assert(open.last() == '"');
        assert(reading(open).argument =~= argument.take(0));
    } else {
        let rest = argument.drop_last();
        let before = seq!['"'] + escaped(rest);
        let count = trailing_backslashes(rest);
        lemma_escaped_reading(rest);
        lemma_trailing(rest);
        if argument.last() == '\\' {
            assert(rest.take(rest.len() - count) =~= argument.take(
                argument.len() - trailing_backslashes(argument),
            ));
        } else if argument.last() == '"' {
            lemma_pending(before, 2 * count + 1);
            assert(open.drop_last() =~= before + backslashes(2 * count + 1));
            assert(open.last() == '"');
            assert((2 * count + 1) % 2 == 1 && (2 * count + 1) / 2 == count) by (nonlinear_arith);
            assert(reading(open).argument =~= argument.take(argument.len() as int));
        } else {
            lemma_pending(before, count);
            assert(open.drop_last() =~= before + backslashes(count));
            assert(open.last() == argument.last());
            assert(reading(open).argument =~= argument.take(argument.len() as int));
        }
    }
}

proof fn lemma_plain_reading(argument: Seq<char>)
    requires
        forall|i: int|
            0 <= i < argument.len() ==> #[trigger] argument[i] != '"' && argument[i] != '\\',
    ensures
        reading(argument) == (Reading { argument, pending: 0, between_quotes: false }),
    decreases argument.len(),
{
    if argument.len() == 0 {
        assert(argument =~= Seq::empty());
    } else {
        lemma_plain_reading(argument.drop_last());
        assert(argument.last() == argument[argument.len() - 1]);
        assert(reading(argument).argument =~= argument);
    }
}

proof fn lemma_inside(argument: Seq<char>, at: int)
    requires
        0 < at <= escaped(argument).len() + 1,
    ensures
        reading((seq!['"'] + escaped(argument)).take(at)).between_quotes,
    decreases argument.len(),
{
    let open = seq!['"'] + escaped(argument);
    if at == open.len() {
        assert(open.take(at) =~= open);
        lemma_escaped_reading(argument);
    } else if argument.len() > 0 {
        let rest = argument.drop_last();
        let before = seq!['"'] + escaped(rest);
        let count = trailing_backslashes(rest);
        if at <= before.len() {
            assert(open.take(at) =~= before.take(at));
            lemma_inside(rest, at);
        } else {
            let more = (at - before.len()) as nat;
            lemma_escaped_reading(rest);
            lemma_pending(before, more);
            assert(open.take(at) =~= before + backslashes(more));
        }
    }
}

/// The command line that starts an executable.
pub fn shell_command_for_executable(executable: &str) -> (r: String)
    ensures
        r@ == quoted(executable@),
{
    quote_windows_arg(executable)
}

/// The command line that starts the shell, with the daemon that it is to start.
pub open spec fn shell_line(shell: Seq<char>, daemon: Option<Seq<char>>, elevated: bool) -> Seq<char> {
    quoted(shell) + (if elevated {
        " --elevated-daemon"@
    } else {
        Seq::empty()
    }) + (match daemon {
        Some(daemon) => " --daemon "@ + quoted(daemon),
        None => Seq::empty(),
    })
}

/// The command line that starts the shell, with the daemon that it is to start.
pub fn shell_command_with_daemon(shell: &str, daemon: Option<&str>, elevated_daemon: bool) -> (r: String)
    ensures
        r@ == shell_line(
            shell@,
            match daemon {
                Some(daemon) => Some(daemon@),
                None => None,
            },
            elevated_daemon,
        ),
{
    let mut command: String = shell_command_for_executable(shell);
    if elevated_daemon {
        command.push_str(" --elevated-daemon");
    }
    if let Some(path) = daemon {
        command.push_str(" --daemon ");
        command.push_str(&quote_windows_arg(path));
    }
    proof {
        assert(command@ =~= shell_line(
            shell@,
            match daemon {
                Some(daemon) => Some(daemon@),
                None => None,
            },
            elevated_daemon,
        ));
    }
    command
}

/// A text with the letters `A` to `Z` made small.
pub open spec fn ascii_lowercase(text: Seq<char>) -> Seq<char> {
    text.map_values(|c: char| ascii_lower(c))
}

/// Whether a command line starts Winland as the shell.
pub open spec fn starts_winland(shell: Seq<char>) -> bool {
    let lower = ascii_lowercase(shell);
    has_part(lower, "winland-shell"@) || (has_part(lower, "winland-daemon"@) && has_part(
        lower,
        "--shell-mode"@,
    ))
}

/// Makes the letters `A` to `Z` of a text small.
pub fn ascii_lowercase_chars(text: &str) -> (r: Vec<char>)
    ensures
        r@ == ascii_lowercase(text@),
{
    let chars: Vec<char> = chars_of(text);
    let mut lower: Vec<char> = Vec::new();
    let mut index: usize = 0;
    while index < chars.len()
        invariant
            index <= chars.len(),
            chars@ == text@,
            lower.len() == index,
            forall|i: int| 0 <= i < index ==> #[trigger] lower@[i] == ascii_lower(text@[i]),
        decreases chars.len() - index,
    {
        let c: char = chars[index];
        if 'A' <= c && c <= 'Z' {
            lower.push((c as u8 + 32u8) as char);
        } else {
            lower.push(c);
        }
        index = index + 1;
    }
    proof {
        assert(lower@ =~= ascii_lowercase(text@));
    }
    lower
}

/// Whether a command line starts Winland as the shell.
pub fn shell_command_looks_like_winland(shell: &str) -> (r: bool)
    ensures
        r == starts_winland(shell@),
{
    let lower: Vec<char> = ascii_lowercase_chars(shell);
    contains_part(&lower, &chars_of("winland-shell")) || (contains_part(
        &lower,
        &chars_of("winland-daemon"),
    ) && contains_part(&lower, &chars_of("--shell-mode")))
}

/// What is known of the shell; `values` is nothing if there is no such key.
pub fn shell_replacement_status(values: &Option<ShellValues>) -> (r: ShellReplacementStatus)
    ensures
        r.registry_key@ == USER_WINLOGON_KEY@,
        match *values {
            None => r.current_shell is None && r.backup_shell is None && r.backup_shell_was_present
                is None && !r.is_winland_shell,
            Some(held) => {
                &&& value_view(r.current_shell) == held@.shell
                &&& value_view(r.backup_shell) == held@.backup_shell
                &&& r.backup_shell_was_present == (match held@.backup_was_present {
                    Some(text) => Some(text == "1"@),
                    None => None,
                })
                &&& r.is_winland_shell == (held@.shell matches Some(shell) && starts_winland(shell))
            },
        },
{
    match values {
        None => ShellReplacementStatus {
            registry_key: USER_WINLOGON_KEY,
            current_shell: None,
            backup_shell: None,
            backup_shell_was_present: None,
            is_winland_shell: false,
        },
        Some(held) => ShellReplacementStatus {
            registry_key: USER_WINLOGON_KEY,
            current_shell: copy_value(&held.shell),
            backup_shell: copy_value(&held.backup_shell),
            backup_shell_was_present: match &held.backup_was_present {
                Some(text) => Some(same_text(text, "1")),
                None => None,
            },
            is_winland_shell: match &held.shell {
                Some(shell) => shell_command_looks_like_winland(shell),
                None => false,
            },
        },
    }
}

/// A command without the white space around it, or nothing if there is no more.
pub fn trimmed_command(command: &str) -> (r: Result<String, ShellError>)
    ensures
        match r {
            Ok(text) => text@ == trimmed(command@) && text@.len() > 0,
            Err(error) => error == ShellError::InvalidShellCommand && trimmed(command@).len() == 0,
        },
{
    let chars: Vec<char> = trim_chars(&chars_of(command));
    if chars.len() == 0 {
        Err(ShellError::InvalidShellCommand)
    } else {
        Ok(text_of(&chars))
    }
}

impl ShellValuesView {
    /// The values after a shell was installed; what was the shell before is kept, unless something is
    /// kept already.
    pub open spec fn installed(self, command: Seq<char>) -> ShellValuesView {
        let kept = if self.backup_was_present is None {
            ShellValuesView {
                backup_was_present: Some(
                    if self.shell is Some {
                        "1"@
                    } else {
                        "0"@
                    },
                ),
                backup_shell: Some(
                    match self.shell {
                        Some(shell) => shell,
                        None => ""@,
                    },
                ),
                ..self
            }
        } else {
            self
        };
        ShellValuesView { shell: Some(command), ..kept }
    }

    /// Whether there is something to restore.
    pub open spec fn can_be_restored(self) -> bool {
        self.backup_was_present matches Some(text) && (text == "1"@ ==> self.backup_shell is Some)
    }

    /// The values after the shell was restored.
    pub open spec fn restored(self) -> ShellValuesView {
        ShellValuesView {
            shell: if self.backup_was_present == Some("1"@) {
                self.backup_shell
            } else {
                None
            },
            backup_shell: None,
            backup_was_present: None,
        }
    }
}

/// Installs a shell: gives the values to be written, and the change.
pub fn install_shell_replacement(values: &ShellValues, shell_command: &str) -> (r: Result<
    (ShellValues, ShellReplacementChange),
    ShellError,
>)
    ensures
        match r {
            Ok((next, change)) => {
                &&& trimmed(shell_command@).len() > 0
                &&& next@ == values@.installed(trimmed(shell_command@))
                &&& change.registry_key@ == USER_WINLOGON_KEY@
                &&& value_view(change.previous_shell) == values@.shell
                &&& value_view(change.new_shell) == Some(trimmed(shell_command@))
            },
            Err(error) => error == ShellError::InvalidShellCommand && trimmed(
                shell_command@,
            ).len() == 0,
        },
{
    let command: String = match trimmed_command(shell_command) {
        Ok(command) => command,
        Err(error) => {
            return Err(error);
        },
    };
    let next: ShellValues = if values.backup_was_present.is_none() {
        ShellValues {
            shell: Some(command.clone()),
            backup_was_present: Some(
                (if values.shell.is_some() {
                    "1"
                } else {
                    "0"
                }).to_owned(),
            ),
            backup_shell: Some(
                match &values.shell {
                    Some(shell) => shell.clone(),
                    None => "".to_owned(),
                },
            ),
        }
    } else {
        ShellValues {
            shell: Some(command.clone()),
            backup_was_present: copy_value(&values.backup_was_present),
            backup_shell: copy_value(&values.backup_shell),
        }
    };
    let change: ShellReplacementChange = ShellReplacementChange {
        registry_key: USER_WINLOGON_KEY,
        previous_shell: copy_value(&values.shell),
        new_shell: Some(command),
    };
    Ok((next, change))
}

/// Restores the shell that was there before: gives the values to be written, and the change.
pub fn restore_shell_replacement(values: &ShellValues) -> (r: Result<
    (ShellValues, ShellReplacementChange),
    ShellError,
>)
    ensures
        match r {
            Ok((next, change)) => {
                &&& values@.can_be_restored()
                &&& next@ == values@.restored()
                &&& change.registry_key@ == USER_WINLOGON_KEY@
                &&& value_view(change.previous_shell) == values@.shell
                &&& value_view(change.new_shell) == values@.restored().shell
            },
            Err(error) => error == ShellError::MissingShellBackup && !values@.can_be_restored(),
        },
{
    let was_present: bool = match &values.backup_was_present {
        None => {
            return Err(ShellError::MissingShellBackup);
        },
        Some(text) => same_text(text, "1"),
    };
    let shell: Option<String> = if was_present {
        match &values.backup_shell {
            Some(shell) => Some(shell.clone()),
            None => {
                return Err(ShellError::MissingShellBackup);
            },
        }
    } else {
        None
    };
    let change: ShellReplacementChange = ShellReplacementChange {
        registry_key: USER_WINLOGON_KEY,
        previous_shell: copy_value(&values.shell),
        new_shell: copy_value(&shell),
    };
    Ok((ShellValues { shell, backup_shell: None, backup_was_present: None }, change))
}

/// Restoring undoes an installation, however often Winland was installed anew in between.
pub proof fn restoring_undoes_installing(values: ShellValuesView, first: Seq<char>, second: Seq<char>)
    requires
        values.backup_was_present is None,
        values.backup_shell is None,
    ensures
        values.installed(first).can_be_restored(),
        values.installed(first).restored() == values,
        values.installed(first).installed(second).can_be_restored(),
        values.installed(first).installed(second).restored() == values,
{
    reveal_strlit("0");
    reveal_strlit("1");
    assert("0"@[0] != "1"@[0]);
}

/// A character as it stands in XML.
pub open spec fn xml_character(c: char) -> Seq<char> {
    if c == '&' {
        "&amp;"@
    } else if c == '<' {
        "&lt;"@
    } else if c == '>' {
        "&gt;"@
    } else if c == '"' {
        "&quot;"@
    } else if c == '\'' {
        "&apos;"@
    } else {
        seq![c]
    }
}

/// A text as it stands in XML.
pub open spec fn xml_text(text: Seq<char>) -> Seq<char>
    decreases text.len(),
{
    if text.len() == 0 {
        Seq::empty()
    } else {
        xml_text(text.drop_last()) + xml_character(text.last())
    }
}

/// Escapes a text for XML.
pub fn escape_xml(value: &str) -> (r: String)
    ensures
        r@ == xml_text(value@),
{
    let chars: Vec<char> = chars_of(value);
    let mut text: String = String::new();
    let mut index: usize = 0;
    while index < chars.len()
        invariant
            index <= chars.len(),
            chars@ == value@,
            text@ == xml_text(chars@.take(index as int)),
        decreases chars.len() - index,
    {
        let c: char = chars[index];
        proof {
            assert(chars@.take(index + 1).drop_last() =~= chars@.take(index as int));
            assert(chars@.take(index + 1).last() == c);
        }
        let ghost before = text@;
        if c == '&' {
            text.push_str("&amp;");
        } else if c == '<' {
            text.push_str("&lt;");
        } else if c == '>' {
            text.push_str("&gt;");
        } else if c == '"' {
            text.push_str("&quot;");
        } else if c == '\'' {
            text.push_str("&apos;");
        } else {
            text.push(c);
            proof {
                assert(text@ =~= before + seq![c]);
            }
        }
        index = index + 1;
    }
    proof {
        assert(chars@.take(index as int) =~= chars@);
    }
    text
}

/// Nothing in an escaped text opens or closes markup, or ends an attribute.
pub proof fn escaped_text_is_no_markup(text: Seq<char>, at: int)
    requires
        0 <= at < xml_text(text).len(),
    ensures
        xml_text(text)[at] != '<',
        xml_text(text)[at] != '>',
        xml_text(text)[at] != '"',
        xml_text(text)[at] != '\'',
    decreases text.len(),
{
    if text.len() > 0 {
        let rest = xml_text(text.drop_last());
        if at < rest.len() {
            escaped_text_is_no_markup(text.drop_last(), at);
        } else {
            reveal_strlit("&amp;");
            reveal_strlit("&lt;");
            reveal_strlit("&gt;");
            reveal_strlit("&quot;");
            reveal_strlit("&apos;");
            assert(xml_text(text)[at] == xml_character(text.last())[at - rest.len()]);
        }
    }
}

/// The description of the scheduled task that starts the daemon with more rights.
pub fn elevated_daemon_task_xml(daemon: &str) -> (r: String)
    ensures
        r@ == TASK_XML_HEAD@ + xml_text(daemon@) + TASK_XML_TAIL@,
{
    let mut text: String = TASK_XML_HEAD.to_owned();
    text.push_str(&escape_xml(daemon));
    text.push_str(TASK_XML_TAIL);
    text
}

/// What came of the program that manages scheduled tasks, as an outcome of an operation.
pub fn task_outcome(operation: &'static str, exit_code: u32) -> (r: Result<(), ShellError>)
    ensures
        match r {
            Ok(()) => exit_code == 0,
            Err(error) => {
                &&& exit_code != 0
                &&& error matches ShellError::Operation { operation: failed, message }
                &&& failed@ == operation@
                &&& message@ == "schtasks.exe exited with code "@ + numeral(exit_code as nat, 10)
            },
        },
{
    if exit_code == 0 {
        return Ok(());
    }
    let mut message: String = "schtasks.exe exited with code ".to_owned();
    message.push_str(&decimal(exit_code as u64));
    Err(ShellError::Operation { operation, message })
}

/// What is said of a program that failed: what it wrote, errors before anything else.
pub open spec fn failure_message(code: Option<i32>, stderr: Seq<char>, stdout: Seq<char>) -> Seq<char> {
    "schtasks.exe exited with code "@ + (match code {
        Some(code) => signed_numeral(code as int),
        None => "unknown"@,
    }) + ": "@ + (if trimmed(stderr).len() > 0 {
        trimmed(stderr)
    } else if trimmed(stdout).len() > 0 {
        trimmed(stdout)
    } else {
        "no output"@
    })
}

/// What is said of a program that failed.
pub fn command_failure(operation: &'static str, code: Option<i32>, stderr: &str, stdout: &str) -> (r:
    ShellError)
    ensures
        r matches ShellError::Operation { operation: failed, message } && failed@ == operation@
            && message@ == failure_message(code, stderr@, stdout@),
{
    let mut message: String = "schtasks.exe exited with code ".to_owned();
    match code {
        Some(number) => {
            message.push_str(&signed_decimal(number as i64));
        },
        None => {
            message.push_str("unknown");
        },
    }
    message.push_str(": ");
    let errors: Vec<char> = trim_chars(&chars_of(stderr));
    let output: Vec<char> = trim_chars(&chars_of(stdout));
    if errors.len() > 0 {
        message.push_str(&text_of(&errors));
    } else if output.len() > 0 {
        message.push_str(&text_of(&output));
    } else {
        message.push_str("no output");
    }
    ShellError::Operation { operation, message }
}

/// The name of an executable that stands beside another one: it has the other one's extension.
pub open spec fn named_beside(stem: Seq<char>, extension: Option<Seq<char>>) -> Seq<char> {
    match extension {
        Some(extension) => if extension.len() > 0 {
            stem + "."@ + extension
        } else {
            stem
        },
        None => stem,
    }
}

/// The name of an executable that stands beside another one.
pub fn executable_file_name(stem: &str, extension: Option<&str>) -> (r: String)
    ensures
        r@ == named_beside(
            stem@,
            match extension {
                Some(extension) => Some(extension@),
                None => None,
            },
        ),
{
    let mut name: String = stem.to_owned();
    if let Some(extension) = extension {
        if extension.unicode_len() > 0 {
            name.push_str(".");
            name.push_str(extension);
        }
    }
    name
}

/// The command line that a shell is started by: the one that is given, if one is, or else that of the
/// executable.
pub fn shell_command(
    shell: &str,
    daemon: Option<&str>,
    elevated_daemon: bool,
    command: Option<&str>,
) -> (r: Result<String, ShellError>)
    ensures
        match command {
            Some(command) => match r {
                Ok(text) => text@ == trimmed(command@) && text@.len() > 0,
                Err(error) => error == ShellError::InvalidShellCommand && trimmed(
                    command@,
                ).len() == 0,
            },
            None => r matches Ok(text) && text@ == shell_line(
                shell@,
                match daemon {
                    Some(daemon) => Some(daemon@),
                    None => None,
                },
                elevated_daemon,
            ),
        },
{
    match command {
        Some(command) => trimmed_command(command),
        None => Ok(shell_command_with_daemon(shell, daemon, elevated_daemon)),
    }
}

} // verus!
