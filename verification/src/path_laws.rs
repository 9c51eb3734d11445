//! Which part of a path names the file, and which command lines start this shell.

use vstd::prelude::*;

use crate::path_name::{file_name, last_name, run_start, separates};
use crate::shell::{
    ascii_lowercase, failure_message, install_shell_replacement, named_beside, restore_shell_replacement,
    shell_line, shell_replacement_status, starts_winland, task_outcome, value_view, xml_text, ShellError,
    ShellReplacementChange, ShellReplacementStatus, ShellValues, ShellValuesView,
};
use crate::text::{stands_at, trimmed};

verus! {

proof fn lemma_run(path: Seq<char>, start: int, end: int)
    requires
        0 < start <= end <= path.len(),
        separates(path[start - 1], false),
        forall|i: int| start <= i < end ==> !separates(#[trigger] path[i], false),
    ensures
        run_start(path, end, false) == start,
    decreases end - start,
{
    if start < end {
        lemma_run(path, start, end - 1);
    }
}

/// The file of a path on a drive is named by what stands behind the last backslash or slash; separators
/// at the end do not count.
pub proof fn file_is_named_at_the_end(drive: char, directory: Seq<char>, name: Seq<char>, separator: char)
    requires
        'a' <= drive <= 'z' || 'A' <= drive <= 'Z',
        directory.len() > 0,
        directory[directory.len() - 1] == '\\' || directory[directory.len() - 1] == '/',
        name.len() > 0,
        forall|i: int| 0 <= i < name.len() ==> #[trigger] name[i] != '\\' && name[i] != '/',
        name != seq!['.'],
        name != seq!['.', '.'],
        separator == '\\' || separator == '/',
    ensures
        file_name(seq![drive, ':'] + directory + name) == Some(name),
        file_name((seq![drive, ':'] + directory + name).push(separator)) == Some(name),
{
    let path = seq![drive, ':'] + directory + name;
    let start = 2 + directory.len();
    assert(path[0] == drive && path[1] == ':');
    assert(path[start - 1] == directory[directory.len() - 1]);
    assert forall|i: int| start <= i < path.len() implies !separates(#[trigger] path[i], false) by {
        assert(path[i] == name[i - start]);
    }
    lemma_run(path, start as int, path.len() as int);
    assert(path.subrange(start as int, path.len() as int) =~= name);
    assert(path[path.len() - 1] == name[name.len() - 1]);
    let longer = path.push(separator);
    assert(longer[0] == drive && longer[1] == ':');
    assert(longer[start - 1] == path[start - 1]);
    assert forall|i: int| start <= i < path.len() implies !separates(#[trigger] longer[i], false) by {
        assert(longer[i] == path[i]);
    }
    lemma_run(longer, start as int, path.len() as int);
    assert(longer.subrange(start as int, path.len() as int) =~= name);
    assert(longer[path.len() as int] == separator);
    assert(last_name(longer, 2, longer.len(), false) == last_name(longer, 2, path.len(), false));
    assert(longer[path.len() - 1] == name[name.len() - 1]);
}

/// A command line starts this shell if the name of the shell stands in it, without regard to the case of
/// its letters.
pub proof fn command_line_with_the_shell_starts_it(before: Seq<char>, name: Seq<char>, after: Seq<char>)
    requires
        ascii_lowercase(name) == "winland-shell"@,
    ensures
        starts_winland(before + name + after),
{
    let line = before + name + after;
    let lower = ascii_lowercase(line);
    let at = before.len() as int;
    assert(lower.subrange(at, at + name.len()) =~= ascii_lowercase(name));
    assert(stands_at(lower, "winland-shell"@, at));
}

/// A command line that starts this shell names it, or names the daemon and asks it to be the shell.
pub proof fn command_line_that_starts_the_shell_names_it(line: Seq<char>)
    requires
        starts_winland(line),
        !exists|at: int| #[trigger] stands_at(ascii_lowercase(line), "winland-shell"@, at),
    ensures
        exists|at: int| #[trigger] stands_at(ascii_lowercase(line), "winland-daemon"@, at),
        exists|at: int| #[trigger] stands_at(ascii_lowercase(line), "--shell-mode"@, at),
{
}

/// The command line of the shell starts with the shell, then says that the daemon is to be elevated if it
/// is, and then names the daemon if there is one to name.
pub proof fn command_line_of_the_shell_says_what_to_start(
    shell: Seq<char>,
    daemon: Seq<char>,
)
    ensures
        shell_line(shell, None, false) == crate::shell::quoted(shell),
        shell_line(shell, None, true) == crate::shell::quoted(shell) + " --elevated-daemon"@,
        shell_line(shell, Some(daemon), false) == crate::shell::quoted(shell) + " --daemon "@
            + crate::shell::quoted(daemon),
        shell_line(shell, Some(daemon), true) == crate::shell::quoted(shell) + " --elevated-daemon"@
            + " --daemon "@ + crate::shell::quoted(daemon),
{
    assert(shell_line(shell, None, false) =~= crate::shell::quoted(shell));
    assert(shell_line(shell, None, true) =~= crate::shell::quoted(shell) + " --elevated-daemon"@);
    assert(shell_line(shell, Some(daemon), false) =~= crate::shell::quoted(shell) + " --daemon "@
        + crate::shell::quoted(daemon));
    assert(shell_line(shell, Some(daemon), true) =~= crate::shell::quoted(shell)
        + " --elevated-daemon"@ + " --daemon "@ + crate::shell::quoted(daemon));
}

/// The shell that is installed is the one that is started; the one before is kept, and a second
/// installation keeps the same one.
pub proof fn installed_shell_is_started(values: ShellValuesView, first: Seq<char>, second: Seq<char>)
    ensures
        values.installed(first).shell == Some(first),
        values.installed(first).installed(second).shell == Some(second),
        values.installed(first).installed(second).backup_shell == values.installed(first).backup_shell,
        values.backup_was_present is None && values.shell is Some ==> values.installed(
            first,
        ).backup_shell == values.shell,
        values.backup_was_present is Some ==> values.installed(first).backup_shell
            == values.backup_shell,
{
}

/// A command for the shell is taken without the white space around it, and one of nothing but white space
/// is refused.
pub proof fn empty_shell_commands_are_refused(
    values: &ShellValues,
    command: &str,
    installed: Result<(ShellValues, ShellReplacementChange), ShellError>,
    restored: Result<(ShellValues, ShellReplacementChange), ShellError>,
)
    requires
        call_ensures(install_shell_replacement, (values, command), installed),
        call_ensures(restore_shell_replacement, (values,), restored),
    ensures
        installed is Ok <==> trimmed(command@).len() > 0,
        installed matches Err(error) ==> error == ShellError::InvalidShellCommand,
        installed matches Ok((next, change)) ==> next@.shell == Some(trimmed(command@)) && (
        change.new_shell matches Some(text) && text@ == trimmed(command@)) && value_view(
            change.previous_shell,
        ) == values@.shell,
        restored matches Err(error) ==> error == ShellError::MissingShellBackup,
        values@.backup_was_present is None ==> restored is Err,
        restored matches Ok((next, change)) ==> next@.backup_shell is None
            && next@.backup_was_present is None && value_view(change.previous_shell) == values@.shell
            && value_view(change.new_shell) == next@.shell,
        values@.backup_was_present == Some("0"@) ==> (restored matches Ok((next, change))
            && next@.shell is None),
        values@.backup_was_present == Some("1"@) && values@.backup_shell is Some ==> (
        restored matches Ok((next, change)) && next@.shell == values@.backup_shell),
{
    reveal_strlit("0");
    reveal_strlit("1");
    assert("0"@[0] == '0' && "1"@[0] == '1');
}

/// What is told of the shell is what is kept of it, and whether it is this one.
pub proof fn shell_is_told_as_it_is_kept(values: Option<ShellValues>, told: ShellReplacementStatus)
    requires
        call_ensures(shell_replacement_status, (&values,), told),
    ensures
        values is None ==> told.current_shell is None && !told.is_winland_shell,
        values matches Some(kept) ==> value_view(told.current_shell) == kept@.shell && value_view(
            told.backup_shell,
        ) == kept@.backup_shell && (told.is_winland_shell <==> kept@.shell is Some && starts_winland(
            kept@.shell.unwrap(),
        )),
        values matches Some(kept) ==> (kept@.backup_was_present == Some("1"@)
            ==> told.backup_shell_was_present == Some(true)),
        values matches Some(kept) ==> (kept@.backup_was_present is None
            ==> told.backup_shell_was_present is None),
{
}

/// A task that ends with nothing but zero has failed, and what it wrote is told: errors first, then what
/// else it wrote, and that it wrote nothing otherwise.
pub proof fn failed_tasks_are_told(
    operation: &'static str,
    code: u32,
    outcome: Result<(), ShellError>,
    errors: Seq<char>,
    output: Seq<char>,
)
    requires
        call_ensures(task_outcome, (operation, code), outcome),
    ensures
        outcome is Ok <==> code == 0,
        trimmed(errors).len() > 0 ==> failure_message(None, errors, output)
            == "schtasks.exe exited with code "@ + "unknown"@ + ": "@ + trimmed(errors),
        trimmed(errors).len() == 0 && trimmed(output).len() > 0 ==> failure_message(
            None,
            errors,
            output,
        ) == "schtasks.exe exited with code "@ + "unknown"@ + ": "@ + trimmed(output),
        trimmed(errors).len() == 0 && trimmed(output).len() == 0 ==> failure_message(
            None,
            errors,
            output,
        ) == "schtasks.exe exited with code "@ + "unknown"@ + ": "@ + "no output"@,
{
}

/// An executable beside another one has its extension, if that has one.
pub proof fn executables_share_the_extension(stem: Seq<char>, extension: Seq<char>)
    ensures
        named_beside(stem, None) == stem,
        extension.len() > 0 ==> named_beside(stem, Some(extension)) == stem + "."@ + extension,
        extension.len() == 0 ==> named_beside(stem, Some(extension)) == stem,
{
}

/// Each character that means something in markup is written by its name, and every other one as it is.
pub proof fn markup_characters_are_named(text: Seq<char>, c: char)
    ensures
        xml_text(text.push(c)) == xml_text(text) + (if c == '&' {
            "&amp;"@
        } else if c == '<' {
            "&lt;"@
        } else if c == '>' {
            "&gt;"@
        } else if c == '"' {
            "&quot;"@
        } else if c == '\'' {
            "&apos;"@
        } else {
            seq![c]
        }),
        xml_text(Seq::empty()).len() == 0,
{
    assert(text.push(c).drop_last() =~= text);
}

/// The shell may be replaced only by someone who says that they know it to be experimental.
pub proof fn experiments_are_agreed_to(agreed: bool, answer: Result<(), &'static str>)
    requires
        call_ensures(crate::shell_report::require_experimental, (agreed,), answer),
    ensures
        answer is Ok <==> agreed,
{
}

} // verus!
