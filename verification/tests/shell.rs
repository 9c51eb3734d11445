use winland::shell::{
    command_failure, elevated_daemon_task_xml, escape_xml, executable_file_name,
    install_shell_replacement, quote_windows_arg, restore_shell_replacement, shell_command,
    shell_command_for_executable, shell_command_looks_like_winland, shell_command_with_daemon,
    shell_replacement_status, task_outcome, trimmed_command, ShellError, ShellValues,
};
use winland::shell_report::{
    format_shell_change, format_shell_install, format_shell_status, require_experimental,
};

fn values(shell: Option<&str>) -> ShellValues {
    ShellValues {
        shell: shell.map(str::to_owned),
        backup_shell: None,
        backup_was_present: None,
    }
}

#[test]
fn shell_command_quotes_shell_path() {
    let command = shell_command_for_executable(r"C:\Program Files\Winland\winland-shell.exe");

    assert_eq!(command, r#""C:\Program Files\Winland\winland-shell.exe""#);
}

#[test]
fn shell_command_quotes_optional_daemon_path() {
    let command = shell_command_with_daemon(
        r"C:\Program Files\Winland\winland-shell.exe",
        Some(r"C:\Tools\winland-daemon.exe"),
        false,
    );

    assert_eq!(
        command,
        r#""C:\Program Files\Winland\winland-shell.exe" --daemon "C:\Tools\winland-daemon.exe""#
    );
}

#[test]
fn shell_command_includes_elevated_daemon_flag_before_daemon_path() {
    let command = shell_command_with_daemon(
        r"C:\Program Files\Winland\winland-shell.exe",
        Some(r"C:\Tools\winland-daemon.exe"),
        true,
    );

    assert_eq!(
        command,
        r#""C:\Program Files\Winland\winland-shell.exe" --elevated-daemon --daemon "C:\Tools\winland-daemon.exe""#
    );
}

#[test]
fn quote_windows_arg_escapes_embedded_quotes() {
    assert_eq!(
        quote_windows_arg(r#"C:\Tools\a"b.exe"#),
        r#""C:\Tools\a\"b.exe""#
    );
}

#[test]
fn elevated_task_xml_escapes_daemon_path() {
    let xml = elevated_daemon_task_xml(r"C:\A&B\winland-daemon.exe");

    assert!(xml.contains(r"C:\A&amp;B\winland-daemon.exe"));
    assert!(xml.contains("<RunLevel>HighestAvailable</RunLevel>"));
    assert!(xml.contains("<AllowStartOnDemand>true</AllowStartOnDemand>"));
}

#[test]
fn sibling_executable_path_uses_current_extension() {
    let current = std::path::PathBuf::from(r"winland-shell.exe");
    let extension = current.extension().and_then(|value| value.to_str());
    let path = current.with_file_name(executable_file_name("winland-daemon", extension));

    assert!(
        path.file_name()
            .unwrap()
            .to_string_lossy()
            .starts_with("winland-daemon")
    );
    assert_eq!(executable_file_name("winland-daemon", Some("exe")), "winland-daemon.exe");
    assert_eq!(executable_file_name("winland-daemon", Some("")), "winland-daemon");
    assert_eq!(executable_file_name("winland-daemon", None), "winland-daemon");
}

#[test]
fn plain_argument_is_not_quoted() {
    assert_eq!(quote_windows_arg("winland.exe"), "winland.exe");
    assert_eq!(quote_windows_arg(""), "\"\"");
}

#[test]
fn backslashes_before_the_closing_quote_are_doubled() {
    assert_eq!(quote_windows_arg(r"C:\a b\"), r#""C:\a b\\""#);
    assert_eq!(quote_windows_arg(r#"a\\"b"#), r#""a\\\\\"b""#);
}

#[test]
fn restoring_brings_the_previous_shell_back() {
    let before = values(Some("explorer.exe"));

    let (installed, change) = install_shell_replacement(&before, " winland-shell.exe ").unwrap();
    assert_eq!(installed.shell.as_deref(), Some("winland-shell.exe"));
    assert_eq!(installed.backup_shell.as_deref(), Some("explorer.exe"));
    assert_eq!(change.previous_shell.as_deref(), Some("explorer.exe"));
    assert_eq!(change.new_shell.as_deref(), Some("winland-shell.exe"));

    let status = shell_replacement_status(&Some(installed.clone()));
    assert!(status.is_winland_shell);
    assert_eq!(status.backup_shell_was_present, Some(true));

    let (restored, _) = restore_shell_replacement(&installed).unwrap();
    assert_eq!(restored, before);
}

#[test]
fn installing_twice_keeps_the_first_backup() {
    let (once, _) = install_shell_replacement(&values(None), "winland-shell.exe").unwrap();
    let (twice, _) = install_shell_replacement(&once, "winland-shell.exe --x").unwrap();

    assert_eq!(twice.backup_was_present.as_deref(), Some("0"));
    let (restored, _) = restore_shell_replacement(&twice).unwrap();
    assert_eq!(restored, values(None));
}

#[test]
fn restoring_without_a_backup_is_refused() {
    assert!(matches!(
        restore_shell_replacement(&values(Some("explorer.exe"))),
        Err(ShellError::MissingShellBackup)
    ));
}

#[test]
fn blank_shell_command_is_refused() {
    assert!(matches!(
        trimmed_command("  "),
        Err(ShellError::InvalidShellCommand)
    ));
    assert!(matches!(
        install_shell_replacement(&values(None), " "),
        Err(ShellError::InvalidShellCommand)
    ));
    assert_eq!(trimmed_command(" a ").unwrap(), "a");
}

#[test]
fn shell_command_prefers_the_given_command() {
    assert_eq!(
        shell_command("shell.exe", None, false, Some(" custom ")).unwrap(),
        "custom"
    );
    assert_eq!(
        shell_command("shell.exe", None, true, None).unwrap(),
        "shell.exe --elevated-daemon"
    );
}

#[test]
fn winland_shells_are_recognised() {
    assert!(shell_command_looks_like_winland("C:\\WINLAND-SHELL.EXE"));
    assert!(shell_command_looks_like_winland(
        "winland-daemon.exe --shell-mode"
    ));
    assert!(!shell_command_looks_like_winland("winland-daemon.exe"));
    assert!(!shell_command_looks_like_winland("explorer.exe"));
}

#[test]
fn missing_registry_key_has_no_shell() {
    let status = shell_replacement_status(&None);

    assert_eq!(status.current_shell, None);
    assert_eq!(status.backup_shell_was_present, None);
    assert!(!status.is_winland_shell);
}

#[test]
fn markup_characters_are_escaped() {
    assert_eq!(
        escape_xml(r#"<a href='x'>"&"</a>"#),
        "&lt;a href=&apos;x&apos;&gt;&quot;&amp;&quot;&lt;/a&gt;"
    );
}

#[test]
fn failed_tasks_say_why() {
    assert!(task_outcome("run", 0).is_ok());
    assert!(matches!(
        task_outcome("run", 5),
        Err(ShellError::Operation { operation: "run", .. })
    ));
    let ShellError::Operation { message, .. } = command_failure("create", Some(1), " ", "denied\n")
    else {
        panic!("expected an operation error");
    };
    assert_eq!(message, "schtasks.exe exited with code 1: denied");
    let ShellError::Operation { message, .. } = command_failure("create", None, "", "") else {
        panic!("expected an operation error");
    };
    assert_eq!(message, "schtasks.exe exited with code unknown: no output");
}

#[test]
fn shell_status_is_human_readable() {
    let status = shell_replacement_status(&Some(ShellValues {
        shell: Some("winland-shell.exe".to_owned()),
        backup_shell: None,
        backup_was_present: Some("0".to_owned()),
    }));

    assert_eq!(
        format_shell_status(&status),
        format!(
            "Experimental shell replacement status\nRegistry value: {}\\Shell\nCurrent shell: winland-shell.exe\nWinland shell mode: yes\nStored previous shell: <not stored>\nPrevious Shell value existed: no\n",
            status.registry_key
        )
    );
    assert!(format_shell_install(&status, "new.exe").contains("\nNew shell: new.exe\n"));
}

#[test]
fn shell_changes_are_told() {
    let (_, change) = install_shell_replacement(&values(None), "new.exe").unwrap();

    assert_eq!(
        format_shell_change("Updated", &change),
        format!(
            "Updated {}\\Shell from <not set> to new.exe.",
            change.registry_key
        )
    );
    assert_eq!(require_experimental(true), Ok(()));
    assert!(require_experimental(false)
        .unwrap_err()
        .contains("--experimental"));
}
