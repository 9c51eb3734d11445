use winland::cli::{
    diagnose_window, empty_dash, format_monitors, format_move_results, format_style,
    format_windows, fullscreen_suffix, game_mode_reason, manageability_label,
    manageability_reason, monitor_label, move_result_row, parse_hwnd, primary_monitor, tile_once,
    tile_once_message, tile_once_title, tile_once_windows,
};
use winland::config::{format_config_summary, Config};
use winland::detection::detect_game_mode;
use winland::game_mode::{FullscreenArea, FullscreenDetection, GameModeReason};
use winland::geometry::{MonitorId, MonitorInfo, Rect, TileAssignment, WindowHandle};
use winland::ipc::{
    CommandReport, DaemonPerformanceSnapshot, DaemonStateSnapshot, MonitorStateSnapshot,
    ReloadConfigReport, WindowParticipationSnapshot, WindowStateSnapshot,
};
use winland::layout::{LayoutConfig, LayoutKind};
use winland::plugin::{parse_plugin_block, PluginWidgetBlock};
use winland::report::{
    format_command_report, format_reload_config_report, format_state_snapshot,
    participation_label,
};
use winland::rules::WindowRuleMode;
use winland::runtime_config::RuntimeConfig;
use winland::table::{format_table, truncate, yes_no};
use winland::widget::{
    bottom_widget_rect, cli_daemon_command, cli_executable, rect_distance_score,
    widget_summary_label, widget_target_monitors, widget_window_for_process, WidgetData,
    WidgetUpdate,
};
use winland::window::{WindowInfo, WindowStyles};

fn test_performance() -> DaemonPerformanceSnapshot {
    DaemonPerformanceSnapshot {
        relayout_count: 0,
        skipped_relayout_count: 0,
        last_relayout_duration_ms: 0,
        last_relayout_move_count: 0,
        managed_window_count: 0,
        border_window_count: 0,
        game_mode_active: false,
        config_reload_count: 0,
    }
}

fn monitor(id: u64, is_primary: bool) -> MonitorInfo {
    MonitorInfo {
        id: MonitorId(id),
        is_primary,
        rect: Rect::from_size(0, 0, 1000, 800),
        work_area: Rect::from_size(0, 0, 1000, 760),
    }
}

fn window(handle: u64, title: &str, rect: Rect) -> WindowInfo {
    WindowInfo {
        handle: WindowHandle(handle),
        title: title.to_owned(),
        class_name: "ApplicationFrameWindow".to_owned(),
        process_id: 42,
        executable_path: Some(r"C:\Tools\editor.exe".to_owned()),
        is_visible: true,
        is_minimized: false,
        is_dwm_cloaked: false,
        has_owner: false,
        is_tool_window: false,
        styles: WindowStyles {
            style: 0x10,
            extended_style: 0,
        },
        rect,
    }
}

#[test]
fn state_snapshot_format_is_human_readable() {
    let snapshot = DaemonStateSnapshot {
        config_path: Some(r"C:\winland.toml".to_owned()),
        config_version: 5,
        config_loaded_at_unix_ms: 1000,
        total_windows: 3,
        manageable_windows: 2,
        floating_windows: 1,
        temporary_floating_windows: 0,
        active_workspace: 4,
        foreground_window: Some(0xCAFE),
        monitors: vec![MonitorStateSnapshot {
            monitor_id: 1,
            workspace_id: 4,
            focused: true,
        }],
        windows: vec![WindowStateSnapshot {
            handle: 0xCAFE,
            title: "Editor".to_owned(),
            monitor_id: Some(1),
            workspace_id: Some(4),
            focused: true,
            is_minimized: false,
            participation: WindowParticipationSnapshot::Floating,
            constrained: true,
            visible_on_active_workspace: true,
        }],
        performance: test_performance(),
    };

    let output = format_state_snapshot(&snapshot);

    assert!(output.contains("IPC protocol v1"));
    assert!(output.contains("Config: v5 from C:\\winland.toml loaded at 1000"));
    assert!(output.contains("3 total, 2 manageable"));
    assert!(output.contains("Workspace: active 4"));
    assert!(output.contains("Foreground: 0xCAFE"));
    assert!(output.contains("0x1 workspace 4 focused"));
    assert!(output.contains("0xCAFE ws 4 mon 0x1 floating constrained visible"));
}

#[test]
fn reload_config_report_format_is_human_readable() {
    let report = ReloadConfigReport {
        config_path: None,
        config_version: 2,
        reloaded_at_unix_ms: 42,
        changed_sections: vec!["hotkeys".to_owned(), "window-rules".to_owned()],
        state: DaemonStateSnapshot {
            config_path: None,
            config_version: 2,
            config_loaded_at_unix_ms: 42,
            total_windows: 3,
            manageable_windows: 2,
            floating_windows: 0,
            temporary_floating_windows: 0,
            active_workspace: 1,
            foreground_window: None,
            monitors: Vec::new(),
            windows: Vec::new(),
            performance: test_performance(),
        },
    };

    let output = format_reload_config_report(&report);

    assert!(output.contains("Config reloaded successfully"));
    assert!(output.contains("v2 from <defaults>"));
    assert!(output.contains("hotkeys, window-rules"));
    assert!(output.contains("3 total, 2 manageable"));
}

#[test]
fn widget_data_maps_daemon_state_to_workspace_and_window_rows() {
    let mut data = WidgetData::new(2, "winland", "12:00".to_owned());
    data.apply(WidgetUpdate::DaemonState(DaemonStateSnapshot {
        config_path: None,
        config_version: 1,
        config_loaded_at_unix_ms: 10,
        total_windows: 1,
        manageable_windows: 1,
        floating_windows: 0,
        temporary_floating_windows: 0,
        active_workspace: 2,
        foreground_window: Some(0xCAFE),
        monitors: vec![MonitorStateSnapshot {
            monitor_id: 1,
            workspace_id: 2,
            focused: true,
        }],
        windows: vec![WindowStateSnapshot {
            handle: 0xCAFE,
            title: "Editor".to_owned(),
            monitor_id: Some(1),
            workspace_id: Some(2),
            focused: true,
            is_minimized: false,
            participation: WindowParticipationSnapshot::Tiled,
            constrained: false,
            visible_on_active_workspace: true,
        }],
        performance: test_performance(),
    }));

    assert_eq!(data.workspaces.len(), 2);
    assert!(data.workspaces[1].active);
    assert_eq!(data.workspaces[1].window_count, 1);
    assert_eq!(data.windows[0].title, "Editor");
    assert!(data.windows[0].focused);
    assert!(
        data.windows[0]
            .command
            .ends_with(" command focus-window 0xCAFE")
    );
}

#[test]
fn widget_data_shows_current_workspace_windows_and_keeps_minimized_rows() {
    let mut data = WidgetData::new(3, "winland", "12:00".to_owned());
    data.apply(WidgetUpdate::DaemonState(DaemonStateSnapshot {
        config_path: None,
        config_version: 1,
        config_loaded_at_unix_ms: 10,
        total_windows: 2,
        manageable_windows: 1,
        floating_windows: 0,
        temporary_floating_windows: 0,
        active_workspace: 1,
        foreground_window: Some(0xBEEF),
        monitors: vec![MonitorStateSnapshot {
            monitor_id: 1,
            workspace_id: 2,
            focused: true,
        }],
        windows: vec![
            WindowStateSnapshot {
                handle: 0xCAFE,
                title: "Other Workspace".to_owned(),
                monitor_id: Some(1),
                workspace_id: Some(1),
                focused: false,
                is_minimized: false,
                participation: WindowParticipationSnapshot::Tiled,
                constrained: false,
                visible_on_active_workspace: false,
            },
            WindowStateSnapshot {
                handle: 0xBEEF,
                title: "Minimized Editor".to_owned(),
                monitor_id: Some(1),
                workspace_id: Some(2),
                focused: true,
                is_minimized: true,
                participation: WindowParticipationSnapshot::Tiled,
                constrained: false,
                visible_on_active_workspace: true,
            },
        ],
        performance: test_performance(),
    }));

    assert_eq!(
        data.windows
            .iter()
            .map(|window| window.title.as_str())
            .collect::<Vec<_>>(),
        vec!["Minimized Editor"]
    );
    assert!(data.windows[0].is_minimized);
    assert_eq!(data.active_workspace, 2);
}

#[test]
fn plugin_json_accepts_label_and_text_fields() {
    let block = parse_plugin_block(
        "my-plugin",
        r#"{"label":"CPU","text":"14%","ignored":["nested"]}"#,
    )
    .unwrap();

    assert_eq!(
        block,
        PluginWidgetBlock {
            source: "my-plugin".to_owned(),
            label: "CPU".to_owned(),
            text: "14%".to_owned(),
        }
    );
}

#[test]
fn plugin_json_falls_back_to_name_value_and_program() {
    let block = parse_plugin_block("disk", r#"{"name":"Disk","value":7}"#).unwrap();
    assert_eq!(block.label, "Disk");
    assert_eq!(block.text, "7");

    let block = parse_plugin_block("net", r#"{"status":true}"#).unwrap();
    assert_eq!(block.label, "net");
    assert_eq!(block.text, "true");

    let block = parse_plugin_block("raw", "[1, 2]").unwrap();
    assert_eq!(block.label, "raw");
    assert_eq!(block.text, "[1,2]");
}

#[test]
fn plugin_output_that_is_no_json_is_dropped() {
    assert_eq!(parse_plugin_block("broken", "{"), None);
    assert_eq!(parse_plugin_block("silent", ""), None);
}

#[test]
fn table_columns_are_as_wide_as_their_widest_cell() {
    let headers = vec!["ID".to_owned(), "Name".to_owned()];
    let rows = vec![
        vec!["100".to_owned(), "a".to_owned()],
        vec!["2".to_owned(), "longer".to_owned()],
    ];

    assert_eq!(
        format_table(&headers, &rows),
        "ID   Name  \n---  ------\n100  a     \n2    longer\n"
    );
}

#[test]
fn long_text_is_cut_with_dots() {
    assert_eq!(truncate("abcdef", 6), "abcdef");
    assert_eq!(truncate("abcdefg", 6), "abcdef...");
    assert_eq!(yes_no(true), "yes");
    assert_eq!(yes_no(false), "no");
}

#[test]
fn participation_labels_name_each_kind() {
    assert_eq!(
        participation_label(WindowParticipationSnapshot::Tiled),
        "tiled"
    );
    assert_eq!(
        participation_label(WindowParticipationSnapshot::Floating),
        "floating"
    );
    assert_eq!(
        participation_label(WindowParticipationSnapshot::TemporarilyFloating),
        "temporary-floating"
    );
    assert_eq!(
        participation_label(WindowParticipationSnapshot::OverflowFloating),
        "overflow-floating"
    );
}

#[test]
fn command_report_names_the_command() {
    let report = CommandReport {
        command: "retile".to_owned(),
    };

    assert!(format_command_report(&report).contains("retile"));
}

#[test]
fn handles_are_read_in_decimal_and_hexadecimal() {
    assert_eq!(parse_hwnd(" 0xCAFE "), Some(WindowHandle(0xCAFE)));
    assert_eq!(parse_hwnd("0X1f"), Some(WindowHandle(0x1F)));
    assert_eq!(parse_hwnd("42"), Some(WindowHandle(42)));
    assert_eq!(parse_hwnd("0x"), None);
    assert_eq!(parse_hwnd("window"), None);
    assert_eq!(parse_hwnd("18446744073709551616"), None);
}

#[test]
fn styles_have_eight_digits() {
    assert_eq!(format_style(0x10), "0x00000010");
    assert_eq!(format_style(0xFFFF_FFFF), "0xFFFFFFFF");
}

#[test]
fn blank_text_is_a_dash() {
    assert_eq!(empty_dash("  "), "-");
    assert_eq!(empty_dash("x"), "x");
}

#[test]
fn window_list_says_what_is_managed_and_why_not() {
    let mut hidden = window(2, "Hidden", Rect::from_size(0, 0, 10, 10));
    hidden.is_visible = false;
    let shown = window(1, "Shown", Rect::from_size(0, 0, 10, 10));
    let windows = [shown.clone(), hidden.clone()];

    let all = format_windows(&windows, false);
    assert!(all.contains("Shown"));
    assert!(all.contains("not visible"));
    assert!(!format_windows(&windows, true).contains("Hidden"));
    assert_eq!(format_windows(&[], false), "No windows found.\n");
    assert_eq!(format_windows(&[hidden.clone()], true), "No windows found.\n");
    assert_eq!(manageability_label(&shown), "manage");
    assert_eq!(manageability_reason(&shown), "-");
    assert_eq!(manageability_label(&hidden), "skip");
    assert_eq!(manageability_reason(&hidden), "not visible");
}

#[test]
fn monitor_list_names_the_primary_monitor() {
    let text = format_monitors(&[monitor(1, true)]);

    assert!(text.starts_with("ID   Primary"));
    assert!(text.contains("0x1  yes"));
    assert_eq!(format_monitors(&[]), "No monitors found.\n");
}

#[test]
fn primary_monitor_is_preferred_to_the_first() {
    let monitors = [monitor(1, false), monitor(2, true)];

    assert_eq!(primary_monitor(&monitors).unwrap().id, MonitorId(2));
    assert_eq!(primary_monitor(&monitors[..1]).unwrap().id, MonitorId(1));
    assert!(primary_monitor(&[]).is_none());
}

#[test]
fn diagnosis_explains_a_fullscreen_game() {
    let monitors = [monitor(1, true)];
    let game = window(7, "Game", monitors[0].rect);
    let settings = RuntimeConfig::default().game_mode;
    let detection = detect_game_mode(Some(&game), &monitors, &[], &settings.policy);

    let text = diagnose_window(&game, &monitors, &detection, &settings);

    assert!(text.starts_with("Window: 0x7\nTitle: Game\n"));
    assert!(text.contains("Monitor: 0x1\n"));
    assert!(text.contains("Fullscreen: yes (MonitorBounds on 0x1)\n"));
    assert!(text.contains("Game mode: active\n"));
    assert!(text.contains("Layout pause scope: global\n"));
    assert!(text.contains("Borders paused: yes\n"));
    assert_eq!(monitor_label(&game, &monitors), "0x1");
    assert_eq!(monitor_label(&game, &[]), "-");
}

#[test]
fn diagnosis_of_an_ordinary_window_pauses_nothing() {
    let monitors = [monitor(1, true)];
    let editor = window(7, " ", Rect::from_size(0, 0, 100, 100));
    let settings = RuntimeConfig::default().game_mode;
    let detection = detect_game_mode(Some(&editor), &monitors, &[], &settings.policy);

    let text = diagnose_window(&editor, &monitors, &detection, &settings);

    assert!(text.contains("Title: -\n"));
    assert!(text.contains("Game mode: inactive\nDetection reason: -\n"));
    assert!(text.contains("Layout pause scope: -\n"));
    assert!(text.contains("Keyboard/mouse hook bypass: no\n"));
}

#[test]
fn reasons_of_game_mode_are_explained() {
    assert_eq!(
        game_mode_reason(&GameModeReason::ConfiguredExecutable("cs2.exe".to_owned())),
        "configured executable cs2.exe"
    );
    assert_eq!(
        game_mode_reason(&GameModeReason::WindowRule {
            mode: WindowRuleMode::Game,
            matched_rules: vec!["a".to_owned(), "b".to_owned()],
        }),
        "window rule mode Game via a, b"
    );
    assert_eq!(
        game_mode_reason(&GameModeReason::Fullscreen {
            monitor: MonitorId(2),
            area: FullscreenArea::WorkArea,
        }),
        "fullscreen WorkArea on 0x2"
    );
    assert_eq!(
        fullscreen_suffix(&FullscreenDetection {
            is_fullscreen: false,
            monitor: None,
            area: None,
        }),
        ""
    );
}

#[test]
fn one_shot_tiling_takes_the_manageable_windows_of_the_monitor() {
    let target = monitor(1, true);
    let mut minimized = window(3, "Minimized", Rect::from_size(0, 0, 100, 100));
    minimized.is_minimized = true;
    let windows = [
        window(1, "One", Rect::from_size(0, 0, 100, 100)),
        window(2, "Elsewhere", Rect::from_size(2000, 0, 100, 100)),
        minimized,
        window(4, "Four", Rect::from_size(200, 0, 100, 100)),
    ];

    assert_eq!(
        tile_once_windows(&windows, &target),
        vec![WindowHandle(1), WindowHandle(4)]
    );
    assert_eq!(
        tile_once(&windows, &target, LayoutConfig::default()),
        vec![
            TileAssignment {
                window: WindowHandle(1),
                rect: Rect::from_size(0, 0, 500, 760),
            },
            TileAssignment {
                window: WindowHandle(4),
                rect: Rect::from_size(500, 0, 500, 760),
            },
        ]
    );
    assert_eq!(tile_once_title(&windows, &target, WindowHandle(4)), "Four");
    assert_eq!(tile_once_title(&windows, &target, WindowHandle(2)), "-");
    assert!(
        tile_once_message(2, &target, LayoutKind::MasterStack)
            .starts_with("Tiling 2 window(s) on primary monitor 0x1 using master-stack")
    );
    assert!(
        tile_once_message(0, &target, LayoutKind::MasterStack)
            .starts_with("No manageable windows found on primary monitor 0x1")
    );
}

#[test]
fn move_results_say_what_failed() {
    let tile = TileAssignment {
        window: WindowHandle(1),
        rect: Rect::from_size(0, 0, 10, 10),
    };

    assert_eq!(move_result_row(&tile, "One", None)[3], "ok");
    assert_eq!(move_result_row(&tile, "One", Some("denied"))[3], "denied");
    assert!(format_move_results(&[move_result_row(&tile, "One", None)]).contains("0x1"));
}

#[test]
fn config_summary_is_human_readable() {
    let config = Config::default();

    assert_eq!(
        format_config_summary(None, &config.layout_config(), &config.game_mode),
        "Config is valid: no config file found, using built-in defaults.\n\
         Layout: master-stack (gap 0, border 0, smart_split no, preserve_split no)\n\
         Game mode: enabled (fullscreen yes, tolerance 2px, game_exes 0, ignored_exes 0)\n"
    );
    assert!(
        format_config_summary(Some("a.toml"), &config.layout_config(), &config.game_mode)
            .starts_with("Config is valid: a.toml\n")
    );
}

#[test]
fn widget_commands_go_through_the_tool() {
    assert_eq!(cli_executable(None), "winland");
    assert_eq!(
        cli_executable(Some(r"C:\Program Files\winland.exe")),
        r#""C:\Program Files\winland.exe""#
    );
    assert_eq!(
        cli_daemon_command("winland", "retile"),
        "winland command retile"
    );
}

#[test]
fn widget_keeps_one_block_for_each_program() {
    let block = |text: &str| PluginWidgetBlock {
        source: "cpu".to_owned(),
        label: "CPU".to_owned(),
        text: text.to_owned(),
    };
    let mut data = WidgetData::new(0, "winland", "12:00".to_owned());
    data.apply(WidgetUpdate::PluginBlock(block("1%")));
    data.apply(WidgetUpdate::PluginBlock(block("2%")));
    data.apply(WidgetUpdate::Time("12:01".to_owned()));

    assert_eq!(data.plugin_blocks, vec![block("2%")]);
    assert_eq!(data.time_text, "12:01");
    assert!(widget_summary_label(&data).ends_with(" | no focused window | 12:01"));
}

#[test]
fn widget_stands_at_the_bottom_of_its_monitor() {
    assert_eq!(
        bottom_widget_rect(&monitor(1, true), 40),
        Rect::from_size(0, 760, 1000, 40)
    );
    assert_eq!(
        bottom_widget_rect(&monitor(1, true), 4000),
        Rect::from_size(0, 0, 1000, 800)
    );
}

#[test]
fn widget_is_shown_on_the_primary_monitor_or_on_all() {
    let monitors = [monitor(1, false), monitor(2, true)];

    assert_eq!(
        widget_target_monitors(&monitors, false),
        Some(vec![monitors[1]])
    );
    assert_eq!(
        widget_target_monitors(&monitors, true),
        Some(monitors.to_vec())
    );
    assert_eq!(widget_target_monitors(&[], false), None);
}

#[test]
fn widget_window_is_the_most_alike_of_its_process() {
    let target = Rect::from_size(0, 760, 1000, 40);
    let mut other = window(3, "Other", target);
    other.process_id = 7;
    let windows = [
        window(1, "Far", Rect::from_size(0, 0, 10, 10)),
        window(2, "Near", Rect::from_size(0, 755, 1000, 40)),
        other,
    ];

    assert_eq!(rect_distance_score(target, target), 0);
    assert_eq!(
        rect_distance_score(Rect::from_size(0, 755, 1000, 40), target),
        25
    );
    assert_eq!(
        widget_window_for_process(&windows, 42, target),
        Some(WindowHandle(2))
    );
    assert_eq!(widget_window_for_process(&windows, 1, target), None);
}
