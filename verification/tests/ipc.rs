//! The JSON of the messages is written and read by this file: the names on the wire are those of the
//! application, which turns bytes into values. What these tests hold the library to is the frame, the
//! version, and that the bytes of a body are handed over as they are.

use serde_json::Value;
use winland::ipc::{
    decode_framed_ipc_responses, decode_request, decode_response, encode_request, encode_response,
    ensure_version, trim_message, CommandReport, DaemonPerformanceSnapshot, DaemonStateSnapshot,
    IpcCommand, IpcError, IpcRequest, IpcResponse, IpcResponseResult, MonitorStateSnapshot,
    ProtocolError, ReloadConfigReport, WindowParticipationSnapshot, WindowStateSnapshot,
    PROTOCOL_VERSION,
};
use winland::report::{expect_reload_config, expect_state};

fn object(fields: Vec<(&str, Value)>) -> Value {
    let mut map = serde_json::Map::new();
    for (name, value) in fields {
        map.insert(name.to_owned(), value);
    }
    Value::Object(map)
}

fn optional<T: Into<Value>>(value: Option<T>) -> Value {
    match value {
        Some(value) => value.into(),
        None => Value::Null,
    }
}

fn participation_name(participation: WindowParticipationSnapshot) -> &'static str {
    match participation {
        WindowParticipationSnapshot::Tiled => "tiled",
        WindowParticipationSnapshot::Floating => "floating",
        WindowParticipationSnapshot::TemporarilyFloating => "temporarily-floating",
        WindowParticipationSnapshot::OverflowFloating => "overflow-floating",
    }
}

fn participation_named(name: &str) -> WindowParticipationSnapshot {
    match name {
        "tiled" => WindowParticipationSnapshot::Tiled,
        "floating" => WindowParticipationSnapshot::Floating,
        "temporarily-floating" => WindowParticipationSnapshot::TemporarilyFloating,
        _ => WindowParticipationSnapshot::OverflowFloating,
    }
}

fn window_value(window: &WindowStateSnapshot) -> Value {
    object(vec![
        ("handle", window.handle.into()),
        ("title", window.title.clone().into()),
        ("monitor_id", optional(window.monitor_id)),
        ("workspace_id", optional(window.workspace_id)),
        ("focused", window.focused.into()),
        ("is_minimized", window.is_minimized.into()),
        (
            "participation",
            participation_name(window.participation).into(),
        ),
        ("constrained", window.constrained.into()),
        (
            "visible_on_active_workspace",
            window.visible_on_active_workspace.into(),
        ),
    ])
}

fn read_window(value: &Value) -> WindowStateSnapshot {
    WindowStateSnapshot {
        handle: value["handle"].as_u64().unwrap(),
        title: value["title"].as_str().unwrap().to_owned(),
        monitor_id: value["monitor_id"].as_u64(),
        workspace_id: value["workspace_id"].as_u64().map(|id| id as u16),
        focused: value["focused"].as_bool().unwrap(),
        is_minimized: value["is_minimized"].as_bool().unwrap(),
        participation: participation_named(value["participation"].as_str().unwrap()),
        constrained: value["constrained"].as_bool().unwrap(),
        visible_on_active_workspace: value["visible_on_active_workspace"].as_bool().unwrap(),
    }
}

fn state_fields(snapshot: &DaemonStateSnapshot) -> Vec<(&'static str, Value)> {
    let performance = &snapshot.performance;
    vec![
        ("config_path", optional(snapshot.config_path.clone())),
        ("config_version", snapshot.config_version.into()),
        (
            "config_loaded_at_unix_ms",
            snapshot.config_loaded_at_unix_ms.into(),
        ),
        ("total_windows", snapshot.total_windows.into()),
        ("manageable_windows", snapshot.manageable_windows.into()),
        ("floating_windows", snapshot.floating_windows.into()),
        (
            "temporary_floating_windows",
            snapshot.temporary_floating_windows.into(),
        ),
        ("active_workspace", snapshot.active_workspace.into()),
        ("foreground_window", optional(snapshot.foreground_window)),
        (
            "monitors",
            Value::Array(
                snapshot
                    .monitors
                    .iter()
                    .map(|monitor| {
                        object(vec![
                            ("monitor_id", monitor.monitor_id.into()),
                            ("workspace_id", monitor.workspace_id.into()),
                            ("focused", monitor.focused.into()),
                        ])
                    })
                    .collect(),
            ),
        ),
        (
            "windows",
            Value::Array(snapshot.windows.iter().map(window_value).collect()),
        ),
        (
            "performance",
            object(vec![
                ("relayout_count", performance.relayout_count.into()),
                (
                    "skipped_relayout_count",
                    performance.skipped_relayout_count.into(),
                ),
                (
                    "last_relayout_duration_ms",
                    performance.last_relayout_duration_ms.into(),
                ),
                (
                    "last_relayout_move_count",
                    performance.last_relayout_move_count.into(),
                ),
                (
                    "managed_window_count",
                    performance.managed_window_count.into(),
                ),
                (
                    "border_window_count",
                    performance.border_window_count.into(),
                ),
                ("game_mode_active", performance.game_mode_active.into()),
                (
                    "config_reload_count",
                    performance.config_reload_count.into(),
                ),
            ]),
        ),
    ]
}

fn count(value: &Value) -> usize {
    value.as_u64().unwrap() as usize
}

fn read_state(value: &Value) -> DaemonStateSnapshot {
    let performance = &value["performance"];
    DaemonStateSnapshot {
        config_path: value["config_path"].as_str().map(str::to_owned),
        config_version: value["config_version"].as_u64().unwrap(),
        config_loaded_at_unix_ms: value["config_loaded_at_unix_ms"].as_u64().unwrap(),
        total_windows: count(&value["total_windows"]),
        manageable_windows: count(&value["manageable_windows"]),
        floating_windows: count(&value["floating_windows"]),
        temporary_floating_windows: count(&value["temporary_floating_windows"]),
        active_workspace: value["active_workspace"].as_u64().unwrap() as u16,
        foreground_window: value["foreground_window"].as_u64(),
        monitors: value["monitors"]
            .as_array()
            .unwrap()
            .iter()
            .map(|monitor| MonitorStateSnapshot {
                monitor_id: monitor["monitor_id"].as_u64().unwrap(),
                workspace_id: monitor["workspace_id"].as_u64().unwrap() as u16,
                focused: monitor["focused"].as_bool().unwrap(),
            })
            .collect(),
        windows: value["windows"]
            .as_array()
            .unwrap()
            .iter()
            .map(read_window)
            .collect(),
        performance: DaemonPerformanceSnapshot {
            relayout_count: performance["relayout_count"].as_u64().unwrap(),
            skipped_relayout_count: performance["skipped_relayout_count"].as_u64().unwrap(),
            last_relayout_duration_ms: performance["last_relayout_duration_ms"].as_u64().unwrap(),
            last_relayout_move_count: count(&performance["last_relayout_move_count"]),
            managed_window_count: count(&performance["managed_window_count"]),
            border_window_count: count(&performance["border_window_count"]),
            game_mode_active: performance["game_mode_active"].as_bool().unwrap(),
            config_reload_count: performance["config_reload_count"].as_u64().unwrap(),
        },
    }
}

fn body(value: Value) -> Result<Vec<u8>, String> {
    serde_json::to_vec(&value).map_err(|error| error.to_string())
}

fn written_request(request: &IpcRequest) -> Vec<u8> {
    let command = match &request.command {
        IpcCommand::State => object(vec![("type", "state".into())]),
        IpcCommand::ReloadConfig => object(vec![("type", "reload-config".into())]),
        IpcCommand::SubscribeState => object(vec![("type", "subscribe-state".into())]),
        IpcCommand::Command { command } => object(vec![
            ("type", "command".into()),
            ("command", command.clone().into()),
        ]),
    };
    let json = object(vec![
        ("protocol_version", request.protocol_version.into()),
        ("command", command),
    ]);
    encode_request(request, body(json)).unwrap()
}

fn read_request(input: &[u8]) -> Result<IpcRequest, ProtocolError> {
    decode_request(
        serde_json::from_slice::<Value>(&trim_message(input))
            .map(|value| IpcRequest {
                protocol_version: value["protocol_version"].as_u64().unwrap() as u16,
                command: match value["command"]["type"].as_str().unwrap() {
                    "state" => IpcCommand::State,
                    "reload-config" => IpcCommand::ReloadConfig,
                    "subscribe-state" => IpcCommand::SubscribeState,
                    _ => IpcCommand::Command {
                        command: value["command"]["command"].as_str().unwrap().to_owned(),
                    },
                },
            })
            .map_err(|error| error.to_string()),
    )
}

fn written_response(response: &IpcResponse) -> Vec<u8> {
    let result = match &response.result {
        IpcResponseResult::State(snapshot) => {
            let mut fields = vec![("type", "state".into())];
            fields.extend(state_fields(snapshot));
            object(fields)
        }
        IpcResponseResult::ReloadConfig(report) => object(vec![
            ("type", "reload-config".into()),
            ("config_path", optional(report.config_path.clone())),
            ("config_version", report.config_version.into()),
            ("reloaded_at_unix_ms", report.reloaded_at_unix_ms.into()),
            ("changed_sections", report.changed_sections.clone().into()),
            ("state", object(state_fields(&report.state))),
        ]),
        IpcResponseResult::Command(report) => object(vec![
            ("type", "command".into()),
            ("command", report.command.clone().into()),
        ]),
        IpcResponseResult::Error(error) => object(vec![
            ("type", "error".into()),
            ("message", error.message.clone().into()),
        ]),
    };
    let json = object(vec![
        ("protocol_version", response.protocol_version.into()),
        ("result", result),
    ]);
    encode_response(response, body(json)).unwrap()
}

fn read_response(input: &[u8]) -> Result<IpcResponse, ProtocolError> {
    decode_response(
        serde_json::from_slice::<Value>(&trim_message(input))
            .map(|value| {
                let result = &value["result"];
                IpcResponse {
                    protocol_version: value["protocol_version"].as_u64().unwrap() as u16,
                    result: match result["type"].as_str().unwrap() {
                        "state" => IpcResponseResult::State(read_state(result)),
                        "reload-config" => IpcResponseResult::ReloadConfig(ReloadConfigReport {
                            config_path: result["config_path"].as_str().map(str::to_owned),
                            config_version: result["config_version"].as_u64().unwrap(),
                            reloaded_at_unix_ms: result["reloaded_at_unix_ms"].as_u64().unwrap(),
                            changed_sections: result["changed_sections"]
                                .as_array()
                                .unwrap()
                                .iter()
                                .map(|name| name.as_str().unwrap().to_owned())
                                .collect(),
                            state: read_state(&result["state"]),
                        }),
                        "command" => IpcResponseResult::Command(CommandReport {
                            command: result["command"].as_str().unwrap().to_owned(),
                        }),
                        _ => IpcResponseResult::Error(IpcError {
                            message: result["message"].as_str().unwrap().to_owned(),
                        }),
                    },
                }
            })
            .map_err(|error| error.to_string()),
    )
}

fn performance() -> DaemonPerformanceSnapshot {
    DaemonPerformanceSnapshot {
        relayout_count: 0,
        skipped_relayout_count: 0,
        last_relayout_duration_ms: 0,
        last_relayout_move_count: 0,
        managed_window_count: 0,
        border_window_count: 0,
        game_mode_active: false,
        config_reload_count: 0,
    }
}

fn test_snapshot(handle: u64, title: &str) -> DaemonStateSnapshot {
    DaemonStateSnapshot {
        config_path: None,
        config_version: 1,
        config_loaded_at_unix_ms: 10,
        total_windows: 1,
        manageable_windows: 1,
        floating_windows: 0,
        temporary_floating_windows: 0,
        active_workspace: 1,
        foreground_window: Some(handle),
        monitors: vec![MonitorStateSnapshot {
            monitor_id: 1,
            workspace_id: 1,
            focused: true,
        }],
        windows: vec![WindowStateSnapshot {
            handle,
            title: title.to_owned(),
            monitor_id: Some(1),
            workspace_id: Some(1),
            focused: true,
            is_minimized: false,
            participation: WindowParticipationSnapshot::Tiled,
            constrained: false,
            visible_on_active_workspace: true,
        }],
        performance: performance(),
    }
}

// Holds the frame and the version; the JSON is that of this file.
#[test]
fn state_request_round_trips_with_version() {
    let encoded = written_request(&IpcRequest::state());
    let decoded = read_request(&encoded).unwrap();

    assert_eq!(decoded, IpcRequest::state());
    assert!(encoded.ends_with(b"\n"));
}

// Holds the frame and the version; the JSON is that of this file.
#[test]
fn state_response_round_trips() {
    let snapshot = DaemonStateSnapshot {
        config_path: Some(r"C:\Users\me\.config\winland\winland.toml".to_owned()),
        config_version: 3,
        config_loaded_at_unix_ms: 1234,
        total_windows: 4,
        manageable_windows: 3,
        floating_windows: 1,
        temporary_floating_windows: 0,
        active_workspace: 2,
        foreground_window: Some(0x1234),
        monitors: vec![MonitorStateSnapshot {
            monitor_id: 1,
            workspace_id: 2,
            focused: true,
        }],
        windows: vec![WindowStateSnapshot {
            handle: 0x1234,
            title: "Editor".to_owned(),
            monitor_id: Some(1),
            workspace_id: Some(2),
            focused: true,
            is_minimized: false,
            participation: WindowParticipationSnapshot::Tiled,
            constrained: false,
            visible_on_active_workspace: true,
        }],
        performance: performance(),
    };

    let encoded = written_response(&IpcResponse::state(snapshot.clone()));
    let decoded = read_response(&encoded).unwrap();

    assert_eq!(decoded, IpcResponse::state(snapshot));
}

// Holds the frame and the version; the JSON is that of this file.
#[test]
fn state_response_json_uses_stable_kebab_case_tags_and_values() {
    let snapshot = DaemonStateSnapshot {
        config_path: None,
        config_version: 1,
        config_loaded_at_unix_ms: 10,
        total_windows: 1,
        manageable_windows: 1,
        floating_windows: 0,
        temporary_floating_windows: 1,
        active_workspace: 1,
        foreground_window: Some(0xBEEF),
        monitors: vec![MonitorStateSnapshot {
            monitor_id: 7,
            workspace_id: 1,
            focused: true,
        }],
        windows: vec![WindowStateSnapshot {
            handle: 0xBEEF,
            title: "Diagnostics".to_owned(),
            monitor_id: Some(7),
            workspace_id: Some(1),
            focused: true,
            is_minimized: true,
            participation: WindowParticipationSnapshot::TemporarilyFloating,
            constrained: true,
            visible_on_active_workspace: false,
        }],
        performance: performance(),
    };

    let encoded = written_response(&IpcResponse::state(snapshot));
    let json: Value = serde_json::from_slice(encoded.trim_ascii_end()).unwrap();

    assert_eq!(json["protocol_version"], PROTOCOL_VERSION);
    assert_eq!(json["result"]["type"], "state");
    assert_eq!(
        json["result"]["windows"][0]["participation"],
        "temporarily-floating"
    );
    assert_eq!(json["result"]["windows"][0]["constrained"], true);
    assert_eq!(
        json["result"]["windows"][0]["visible_on_active_workspace"],
        false
    );
    assert_eq!(json["result"]["windows"][0]["is_minimized"], true);
}

// Holds the frame and the version; the JSON is that of this file.
#[test]
fn reload_config_request_and_response_round_trip() {
    let encoded = written_request(&IpcRequest::reload_config());
    let decoded = read_request(&encoded).unwrap();

    assert_eq!(decoded, IpcRequest::reload_config());

    let snapshot = DaemonStateSnapshot {
        config_path: None,
        config_version: 2,
        config_loaded_at_unix_ms: 42,
        total_windows: 0,
        manageable_windows: 0,
        floating_windows: 0,
        temporary_floating_windows: 0,
        active_workspace: 1,
        foreground_window: None,
        monitors: Vec::new(),
        windows: Vec::new(),
        performance: performance(),
    };
    let report = ReloadConfigReport {
        config_path: None,
        config_version: 2,
        reloaded_at_unix_ms: 42,
        changed_sections: vec!["hotkeys".to_owned(), "layout".to_owned()],
        state: snapshot,
    };

    let encoded = written_response(&IpcResponse::reload_config(report.clone()));
    let decoded = read_response(&encoded).unwrap();

    assert_eq!(decoded, IpcResponse::reload_config(report));
}

// Holds the frame and the version; the JSON is that of this file.
#[test]
fn subscribe_state_request_round_trips() {
    let encoded = written_request(&IpcRequest::subscribe_state());
    let decoded = read_request(&encoded).unwrap();
    let json: Value = serde_json::from_slice(encoded.trim_ascii_end()).unwrap();

    assert_eq!(decoded, IpcRequest::subscribe_state());
    assert_eq!(json["command"]["type"], "subscribe-state");
}

// Holds the frame and the version; the JSON is that of this file.
#[test]
fn command_request_and_response_round_trip() {
    let encoded = written_request(&IpcRequest::command("switch-workspace 2"));
    let decoded = read_request(&encoded).unwrap();
    let json: Value = serde_json::from_slice(encoded.trim_ascii_end()).unwrap();

    assert_eq!(decoded, IpcRequest::command("switch-workspace 2"));
    assert_eq!(json["command"]["type"], "command");
    assert_eq!(json["command"]["command"], "switch-workspace 2");

    let report = CommandReport {
        command: "switch-workspace 2".to_owned(),
    };
    let encoded = written_response(&IpcResponse::command(report.clone()));
    let decoded = read_response(&encoded).unwrap();

    assert_eq!(decoded, IpcResponse::command(report));
}

#[test]
fn unsupported_versions_are_rejected() {
    let input = br#"{"protocol_version":99,"command":{"type":"state"}}"#;

    assert!(matches!(
        read_request(input),
        Err(ProtocolError::UnsupportedVersion {
            actual: 99,
            expected: PROTOCOL_VERSION,
        })
    ));
}

#[test]
fn framed_ipc_decoder_handles_combined_and_split_json_lines() {
    let first = written_response(&IpcResponse::state(test_snapshot(1, "One")));
    let second = written_response(&IpcResponse::state(test_snapshot(2, "Two")));
    let mut combined = first.clone();
    combined.extend_from_slice(&second[..8]);

    let mut buffer = Vec::new();
    let decoded = decode_framed_ipc_responses(&mut buffer, &combined);

    assert_eq!(decoded.len(), 1);
    assert!(!buffer.is_empty());

    let decoded = decode_framed_ipc_responses(&mut buffer, &second[8..]);
    assert_eq!(decoded.len(), 1);
    let response = read_response(&decoded.into_iter().next().unwrap()).unwrap();
    let IpcResponseResult::State(snapshot) = response.result else {
        panic!("expected state response");
    };
    assert_eq!(snapshot.windows[0].title, "Two");
}

#[test]
fn blank_lines_between_messages_are_skipped() {
    let mut buffer = Vec::new();

    let decoded = decode_framed_ipc_responses(&mut buffer, b"\n\r\nfirst\r\n\nsecond");

    assert_eq!(decoded, vec![b"first".to_vec()]);
    assert_eq!(buffer, b"second".to_vec());
}

#[test]
fn chunks_of_one_byte_give_the_same_messages() {
    let mut buffer = Vec::new();
    let mut decoded = Vec::new();
    for byte in b"one\ntwo\nthree" {
        decoded.extend(decode_framed_ipc_responses(&mut buffer, &[*byte]));
    }

    assert_eq!(decoded, vec![b"one".to_vec(), b"two".to_vec()]);
    assert_eq!(buffer, b"three".to_vec());
}

#[test]
fn error_response_keeps_its_message() {
    let encoded = written_response(&IpcResponse::error("not now"));

    assert_eq!(
        read_response(&encoded).unwrap().result,
        IpcResponseResult::Error(IpcError {
            message: "not now".to_owned()
        })
    );
}

#[test]
fn unreadable_request_is_a_json_error() {
    let error = read_request(b"{").unwrap_err();

    assert!(matches!(error, ProtocolError::Json(_)));
    assert!(error.to_text().starts_with("invalid IPC JSON: "));
}

#[test]
fn failed_body_is_a_json_error() {
    let request = IpcRequest::state();

    assert_eq!(
        encode_request(&request, Err("no".to_owned())),
        Err(ProtocolError::Json("no".to_owned()))
    );
}

#[test]
fn only_the_own_version_is_accepted() {
    assert!(ensure_version(PROTOCOL_VERSION).is_ok());
    assert_eq!(
        ensure_version(2).unwrap_err().to_text(),
        "unsupported IPC protocol version 2; expected 1"
    );
}

#[test]
fn other_answers_are_told() {
    let command = || {
        IpcResponseResult::Command(CommandReport {
            command: "retile".to_owned(),
        })
    };
    let refused = || {
        IpcResponseResult::Error(IpcError {
            message: "no".to_owned(),
        })
    };

    assert_eq!(
        expect_state(IpcResponseResult::State(test_snapshot(7, "Editor"))),
        Ok(test_snapshot(7, "Editor"))
    );
    assert_eq!(
        expect_state(command()).unwrap_err(),
        "daemon returned command response to state request"
    );
    assert_eq!(expect_state(refused()).unwrap_err(), "daemon IPC error: no");
    assert_eq!(
        expect_reload_config(IpcResponseResult::State(test_snapshot(7, "Editor"))).unwrap_err(),
        "daemon returned state response to reload-config request"
    );
    assert_eq!(
        expect_reload_config(command()).unwrap_err(),
        "daemon returned command response to reload-config request"
    );
    assert_eq!(
        expect_reload_config(refused()).unwrap_err(),
        "daemon IPC error: no"
    );
}
