//! What is told to the user about Winland as the shell.

use vstd::prelude::*;

use crate::shell::{ShellReplacementChange, ShellReplacementStatus};
use crate::table::{yes_no, yes_or_no};

verus! {

/// A text, or another one if there is none.
pub open spec fn given_or(text: Option<String>, other: Seq<char>) -> Seq<char> {
    match text {
        Some(text) => text@,
        None => other,
    }
}

fn or_else<'a>(text: &'a Option<String>, other: &'a str) -> (r: &'a str)
    ensures
        r@ == given_or(*text, other@),
{
    match text {
        Some(text) => text.as_str(),
        None => other,
    }
}

/// What is said of the shell of the user.
pub open spec fn status_text(status: ShellReplacementStatus) -> Seq<char> {
    "Experimental shell replacement status\nRegistry value: "@ + status.registry_key@
        + "\\Shell\nCurrent shell: "@ + given_or(status.current_shell, "<not set>"@)
        + "\nWinland shell mode: "@ + yes_or_no(status.is_winland_shell)
        + "\nStored previous shell: "@ + given_or(status.backup_shell, "<not stored>"@)
        + "\nPrevious Shell value existed: "@ + (match status.backup_shell_was_present {
        Some(present) => yes_or_no(present),
        None => "<not stored>"@,
    }) + "\n"@
}

/// What is said of the shell of the user.
pub fn format_shell_status(status: &ShellReplacementStatus) -> (r: String)
    ensures
        r@ == status_text(*status),
{
    let mut text: String = "Experimental shell replacement status\nRegistry value: ".to_owned();
    text.push_str(status.registry_key);
    text.push_str("\\Shell\nCurrent shell: ");
    text.push_str(or_else(&status.current_shell, "<not set>"));
    text.push_str("\nWinland shell mode: ");
    text.push_str(yes_no(status.is_winland_shell));
    text.push_str("\nStored previous shell: ");
    text.push_str(or_else(&status.backup_shell, "<not stored>"));
    text.push_str("\nPrevious Shell value existed: ");
    text.push_str(
        match status.backup_shell_was_present {
            Some(present) => yes_no(present),
            None => "<not stored>",
        },
    );
    text.push_str("\n");
    text
}

/// What is said before a shell is installed.
pub open spec fn install_text(status: ShellReplacementStatus, command: Seq<char>) -> Seq<char> {
    "Installing experimental per-user shell replacement.\nRegistry value: "@ + status.registry_key@
        + "\\Shell\nCurrent shell: "@ + given_or(status.current_shell, "<not set>"@)
        + "\nNew shell: "@ + command
        + "\nUndo command: winland shell uninstall --experimental\n"@
}

/// What is said before a shell is installed.
pub fn format_shell_install(status: &ShellReplacementStatus, command: &str) -> (r: String)
    ensures
        r@ == install_text(*status, command@),
{
    let mut text: String =
        "Installing experimental per-user shell replacement.\nRegistry value: ".to_owned();
    text.push_str(status.registry_key);
    text.push_str("\\Shell\nCurrent shell: ");
    text.push_str(or_else(&status.current_shell, "<not set>"));
    text.push_str("\nNew shell: ");
    text.push_str(command);
    text.push_str("\nUndo command: winland shell uninstall --experimental\n");
    text
}

/// What is said of a change of the shell.
pub open spec fn change_text(verb: Seq<char>, change: ShellReplacementChange) -> Seq<char> {
    verb + " "@ + change.registry_key@ + "\\Shell from "@ + given_or(
        change.previous_shell,
        "<not set>"@,
    ) + " to "@ + given_or(change.new_shell, "<not set>"@) + "."@
}

/// What is said of a change of the shell.
pub fn format_shell_change(verb: &str, change: &ShellReplacementChange) -> (r: String)
    ensures
        r@ == change_text(verb@, *change),
{
    let mut text: String = verb.to_owned();
    text.push_str(" ");
    text.push_str(change.registry_key);
    text.push_str("\\Shell from ");
    text.push_str(or_else(&change.previous_shell, "<not set>"));
    text.push_str(" to ");
    text.push_str(or_else(&change.new_shell, "<not set>"));
    text.push_str(".");
    text
}

/// Whether the user said that they know that a command is experimental; if not, what they are told.
pub fn require_experimental(experimental: bool) -> (r: Result<(), &'static str>)
    ensures
        match r {
            Ok(_) => experimental,
            Err(text) => !experimental && text@
                == "persistent shell replacement is experimental; rerun with --experimental after taking a VM checkpoint"@,
        },
{
    if experimental {
        Ok(())
    } else {
        Err(
            "persistent shell replacement is experimental; rerun with --experimental after taking a VM checkpoint",
        )
    }
}

} // verus!
