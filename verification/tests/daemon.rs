use winland::border::BorderColor;
use winland::commands::{
    daemon_command_from_binding, daemon_command_from_name, hotkey_label, CycleDirection,
    DaemonCommand, FocusDirection, HotkeyBindingConfig, MonitorSelector,
};
use winland::config::{Config, ConfigDiff, WindowRuleConfig};
use winland::daemon_diff::SnapshotDiff;
use winland::daemon_drag::DragReading;
use winland::daemon_events::{event_route, EventRoute};
use winland::daemon_feedback::RelayoutProgress;
use winland::daemon_state::{
    ActiveInteractiveDrag, ActiveModifierDrag, DaemonPerformance, DaemonState, DropContext,
};
use winland::dwindle::DwindleSplit;
use winland::events::{
    coalesce_window_events, count_events, should_process_window_event_immediately, WindowEvent,
    WindowEventKind,
};
use winland::game_mode::{
    FullscreenArea, FullscreenDetection, GameModeActions, GameModeActivation, GameModeReason,
    GameModeRuntimeState, GameModeTransition,
};
use winland::geometry::{MonitorId, MonitorInfo, Point, Rect, TileAssignment, WindowHandle};
use winland::handles::handles_of;
use winland::hotkey::{HotkeyBinding, HotkeyId, HotkeyModifierSet, VirtualKey};
use winland::ipc::{
    IpcResponse, IpcResponseResult, MonitorStateSnapshot, WindowParticipationSnapshot,
};
use winland::layout::{LayoutConfig, LayoutKind, SplitDirection, WindowParticipation};
use winland::monitors::{monitor_for_point, monitor_for_rect, offset_rect_by_cursor_delta};
use winland::rules::{
    TextMatcher, WindowRule, WindowRuleAction, WindowRuleMatch, WindowRuleMode,
};
use winland::runtime_config::{OverflowFloatPersistence, OverflowFocusPolicy, RuntimeConfig};
use winland::size::WindowSizeConstraints;
use winland::sorted_map::SortedMap;
use winland::split_memory::SplitMemory;
use winland::tiling::WindowLayoutInfo;
use winland::window::{WindowInfo, WindowStyles};
use winland::workspace::{WorkspaceId, WorkspaceManager, WorkspaceVisibilityChange};

fn daemon_state<const N: usize>(list: [WindowInfo; N]) -> DaemonState {
    let mut windows = SortedMap::new();
    for window in list {
        windows.insert(window.handle.0, window);
    }
    let mut state = DaemonState {
        windows,
        size_constraints: SortedMap::new(),
        foreground: None,
        tile_order: Vec::new(),
        participation: SortedMap::new(),
        dwindle_splits: SplitMemory::new(),
        previous_rects: SortedMap::new(),
        learned_size_constraints: SortedMap::new(),
        window_monitor_overrides: SortedMap::new(),
        overflow_promoted_floating: SortedMap::new(),
        workspaces: WorkspaceManager::new(9),
        active_modifier_drag: None,
        active_interactive_drag: None,
        suppressed_modifier_drag_events: SortedMap::new(),
        config: RuntimeConfig::default(),
        config_path: None,
        config_version: 1,
        config_loaded_at_unix_ms: 0,
        game_mode: GameModeRuntimeState::default(),
        perf: DaemonPerformance::default(),
    };
    state.tile_order = state.manageable_handles_sorted();
    state.sync_workspace_state(&[primary_test_monitor()]);
    state
}

struct EventPlan {
    moves: Vec<TileAssignment>,
}

fn no_reading() -> DragReading {
    DragReading {
        cursor: None,
        rect: None,
    }
}

fn plan_after(
    state: &mut DaemonState,
    batch: &[WindowEvent],
    monitors: &[MonitorInfo],
) -> EventPlan {
    let readings = vec![no_reading(); batch.len()];
    EventPlan {
        moves: state.plan_after_window_events(
            batch,
            &readings,
            &SnapshotDiff::default(),
            monitors,
            None,
        ),
    }
}

fn update_game_mode(state: &mut DaemonState, monitors: &[MonitorInfo]) -> GameModeTransition {
    state.update_game_mode(monitors)
}

fn event(kind: WindowEventKind, handle: u64) -> WindowEvent {
    WindowEvent {
        kind,
        window: WindowHandle(handle),
        event_time: 0,
    }
}

fn primary_test_monitor() -> MonitorInfo {
    MonitorInfo {
        id: MonitorId(1),
        is_primary: true,
        rect: Rect::from_size(0, 0, 1000, 800),
        work_area: Rect::from_size(0, 0, 1000, 760),
    }
}

fn secondary_test_monitor() -> MonitorInfo {
    MonitorInfo {
        id: MonitorId(2),
        is_primary: false,
        rect: Rect::from_size(1000, 0, 800, 600),
        work_area: Rect::from_size(1000, 0, 800, 560),
    }
}

fn window(handle: u64, title: &str, rect: Rect) -> WindowInfo {
    WindowInfo {
        handle: WindowHandle(handle),
        title: title.to_owned(),
        class_name: "ApplicationFrameWindow".to_owned(),
        process_id: 42,
        executable_path: Some(r"C:\Windows\System32\notepad.exe".to_owned()),
        is_visible: true,
        is_minimized: false,
        is_dwm_cloaked: false,
        has_owner: false,
        is_tool_window: false,
        styles: WindowStyles {
            style: 0,
            extended_style: 0,
        },
        rect,
    }
}

fn active_interactive_drag(window: WindowHandle) -> ActiveInteractiveDrag {
    ActiveInteractiveDrag {
        window,
        start_cursor: Point { x: 0, y: 0 },
        start_rect: Rect::from_size(0, 0, 100, 100),
        monitors: vec![primary_test_monitor()],
    }
}

#[test]
fn config_hotkey_commands_route_without_real_hotkeys() {
    assert_eq!(
        daemon_command_from_name("focus-right"),
        Some(DaemonCommand::Focus(FocusDirection::Right))
    );
    assert_eq!(
        daemon_command_from_name("retile"),
        Some(DaemonCommand::Retile)
    );
    assert_eq!(
        daemon_command_from_name("toggle-float"),
        Some(DaemonCommand::ToggleFloat)
    );
    assert_eq!(
        daemon_command_from_name("switch-workspace-2"),
        Some(DaemonCommand::SwitchWorkspace(WorkspaceId(2)))
    );
    assert_eq!(
        daemon_command_from_name("move-to-workspace-9"),
        Some(DaemonCommand::MoveFocusedToWorkspace(WorkspaceId(9)))
    );
    assert_eq!(
        daemon_command_from_name("switch-workspace next"),
        Some(DaemonCommand::SwitchWorkspaceRelative(CycleDirection::Next))
    );
    assert_eq!(
        daemon_command_from_name("focus-monitor prev"),
        Some(DaemonCommand::FocusMonitor(MonitorSelector::Prev))
    );
    assert_eq!(
        daemon_command_from_name("move-window-to-monitor 2"),
        Some(DaemonCommand::MoveFocusedToMonitor(MonitorSelector::Index(
            2
        )))
    );
    assert_eq!(
        daemon_command_from_name("move-window-to-workspace 3"),
        Some(DaemonCommand::MoveFocusedToWorkspace(WorkspaceId(3)))
    );
    assert_eq!(
        daemon_command_from_name("move-window-to-workspace-and-follow 3"),
        Some(DaemonCommand::MoveFocusedToWorkspaceAndFollow(WorkspaceId(
            3
        )))
    );
    assert_eq!(
        daemon_command_from_name("send-workspace-to-monitor 3 0x2"),
        Some(DaemonCommand::SendWorkspaceToMonitor {
            workspace: WorkspaceId(3),
            monitor: MonitorSelector::Id(MonitorId(2)),
        })
    );
    assert_eq!(daemon_command_from_name("quit"), Some(DaemonCommand::Quit));
    assert_eq!(daemon_command_from_name("unknown"), None);

    let launch = HotkeyBindingConfig {
        keys: "Win+T".to_owned(),
        command: None,
        launch: Some("wt.exe".to_owned()),
        override_app: false,
    };
    assert_eq!(
        daemon_command_from_binding(&launch).unwrap(),
        (
            DaemonCommand::Launch("wt.exe".to_owned()),
            "launch wt.exe".to_owned()
        )
    );
}

#[test]
fn hotkey_label_is_human_readable() {
    let binding = HotkeyBinding::new(
        HotkeyId(1),
        HotkeyModifierSet::new().control().alt(),
        VirtualKey::space(),
        "toggle float",
    );

    assert_eq!(hotkey_label(&binding), "Ctrl+Alt+Space");
}

#[test]
fn focus_command_selects_directional_neighbor() {
    let mut state = daemon_state([
        window(1, "Left", Rect::from_size(0, 0, 100, 100)),
        window(2, "Current", Rect::from_size(200, 0, 100, 100)),
        window(3, "Right", Rect::from_size(400, 0, 100, 100)),
    ]);
    state.foreground = Some(WindowHandle(2));

    let plan = state.plan_command(&DaemonCommand::Focus(FocusDirection::Right), &[primary_test_monitor()], None);

    assert_eq!(plan.focus, Some(WindowHandle(3)));
    assert_eq!(state.foreground, Some(WindowHandle(3)));
}

#[test]
fn swap_command_reorders_tiling_without_real_hotkeys() {
    let mut state = daemon_state([
        window(1, "One", Rect::from_size(0, 0, 100, 100)),
        window(2, "Two", Rect::from_size(200, 0, 100, 100)),
    ]);
    state.foreground = Some(WindowHandle(1));

    let plan = state.plan_command(&DaemonCommand::Swap(FocusDirection::Right), &[primary_test_monitor()], None);

    assert_eq!(state.tile_order, vec![WindowHandle(2), WindowHandle(1)]);
    assert_eq!(plan.moves[0].window, WindowHandle(2));
    assert_eq!(plan.moves[1].window, WindowHandle(1));
}

#[test]
fn float_toggle_excludes_focused_window_from_retile() {
    let mut state = daemon_state([
        window(1, "One", Rect::from_size(0, 0, 100, 100)),
        window(2, "Two", Rect::from_size(200, 0, 100, 100)),
    ]);
    state.foreground = Some(WindowHandle(1));

    let plan = state.plan_command(&DaemonCommand::ToggleFloat, &[primary_test_monitor()], None);

    assert_eq!(
        state.window_participation(WindowHandle(1)),
        WindowParticipation::Floating
    );
    assert_eq!(
        plan.moves,
        vec![TileAssignment {
            window: WindowHandle(2),
            rect: primary_test_monitor().work_area,
        }]
    );
}

#[test]
fn retile_tiles_windows_on_each_monitor_independently() {
    let monitors = [
        primary_test_monitor(),
        MonitorInfo {
            id: MonitorId(2),
            is_primary: false,
            rect: Rect::from_size(1000, 0, 800, 600),
            work_area: Rect::from_size(1000, 0, 800, 560),
        },
    ];
    let mut state = daemon_state([
        window(1, "Primary One", Rect::from_size(0, 0, 100, 100)),
        window(2, "Primary Two", Rect::from_size(200, 0, 100, 100)),
        window(3, "Secondary", Rect::from_size(1100, 0, 100, 100)),
    ]);
    state.sync_workspace_state(&monitors);

    let plan = state.plan_command(&DaemonCommand::Retile, &monitors, None);

    assert_eq!(
        plan.moves,
        vec![
            TileAssignment {
                window: WindowHandle(1),
                rect: Rect::from_size(0, 0, 500, 760),
            },
            TileAssignment {
                window: WindowHandle(2),
                rect: Rect::from_size(500, 0, 500, 760),
            },
            TileAssignment {
                window: WindowHandle(3),
                rect: Rect::from_size(1000, 0, 800, 560),
            },
        ]
    );
}

#[test]
fn retile_uses_window_size_constraints_from_snapshot() {
    let monitor = primary_test_monitor();
    let fixed = window(1, "Fixed", Rect::from_size(0, 0, 300, 760));
    let mut state = daemon_state([
        fixed,
        window(2, "Flexible", Rect::from_size(200, 0, 100, 100)),
    ]);
    state.size_constraints.insert(1, WindowSizeConstraints::fixed(300, 760));

    let plan = state.plan_command(&DaemonCommand::Retile, std::slice::from_ref(&monitor), None);

    assert_eq!(
        plan.moves,
        vec![
            TileAssignment {
                window: WindowHandle(1),
                rect: Rect::from_size(0, 0, 300, 760),
            },
            TileAssignment {
                window: WindowHandle(2),
                rect: Rect::from_size(300, 0, 700, 760),
            },
        ]
    );
}

#[test]
fn overflow_floats_other_windows_to_keep_focused_window_tiled_by_default() {
    let monitor = primary_test_monitor();
    let work_area = monitor.work_area;
    let focused = window(1, "Focused", Rect::from_size(0, 0, 100, 100));
    let other = window(2, "Other", Rect::from_size(200, 0, 100, 100));
    let mut state = daemon_state([focused, other]);
    state.size_constraints.insert(1, WindowSizeConstraints::minimum(700, 0));
    state.size_constraints.insert(2, WindowSizeConstraints::minimum(700, 0));
    state.foreground = Some(WindowHandle(1));

    let plan = state.plan_command(&DaemonCommand::Retile, std::slice::from_ref(&monitor), None);

    assert_eq!(
        plan.moves,
        vec![TileAssignment {
            window: WindowHandle(1),
            rect: work_area,
        }]
    );
    assert_eq!(
        state.window_participation(WindowHandle(2)),
        WindowParticipation::Floating
    );
    assert_eq!(
        handles_of(&state.overflow_promoted_floating),
        vec![WindowHandle(2)]
    );
    assert_eq!(
        state.floating_z_order_windows(std::slice::from_ref(&monitor)),
        vec![WindowHandle(2)]
    );
}

#[test]
fn overflow_can_float_focused_window_first_when_configured() {
    let monitor = primary_test_monitor();
    let work_area = monitor.work_area;
    let focused = window(1, "Focused", Rect::from_size(0, 0, 100, 100));
    let other = window(2, "Other", Rect::from_size(200, 0, 100, 100));
    let mut state = daemon_state([focused, other]);
    state.size_constraints.insert(1, WindowSizeConstraints::minimum(700, 0));
    state.size_constraints.insert(2, WindowSizeConstraints::minimum(700, 0));
    state.foreground = Some(WindowHandle(1));
    state.config.overflow_focus_policy = OverflowFocusPolicy::FloatFocused;

    let plan = state.plan_command(&DaemonCommand::Retile, &[monitor], None);

    assert_eq!(
        plan.moves,
        vec![TileAssignment {
            window: WindowHandle(2),
            rect: work_area,
        }]
    );
    assert_eq!(
        state.window_participation(WindowHandle(1)),
        WindowParticipation::Floating
    );
    assert_eq!(
        handles_of(&state.overflow_promoted_floating),
        vec![WindowHandle(1)]
    );
}

#[test]
fn overflow_can_float_multiple_windows_until_layout_fits() {
    let monitor = primary_test_monitor();
    let work_area = monitor.work_area;
    let first = window(1, "Focused", Rect::from_size(0, 0, 100, 100));
    let second = window(2, "Second", Rect::from_size(0, 200, 100, 100));
    let third = window(3, "Third", Rect::from_size(0, 400, 100, 100));
    let mut state = daemon_state([first, second, third]);
    state.size_constraints.insert(1, WindowSizeConstraints::minimum(0, 400));
    state.size_constraints.insert(2, WindowSizeConstraints::minimum(0, 400));
    state.size_constraints.insert(3, WindowSizeConstraints::minimum(0, 400));
    state.config.layout.kind = LayoutKind::VerticalStack;
    state.foreground = Some(WindowHandle(1));

    let plan = state.plan_command(&DaemonCommand::Retile, &[monitor], None);

    assert_eq!(
        plan.moves,
        vec![TileAssignment {
            window: WindowHandle(1),
            rect: work_area,
        }]
    );
    assert_eq!(
        handles_of(&state.overflow_promoted_floating),
        vec![WindowHandle(2), WindowHandle(3)]
    );
}

#[test]
fn overflow_floats_focused_window_when_it_cannot_fit_by_itself() {
    let monitor = primary_test_monitor();
    let focused = window(1, "Focused", Rect::from_size(0, 0, 100, 100));
    let mut state = daemon_state([focused]);
    state.size_constraints.insert(1, WindowSizeConstraints::minimum( monitor.work_area.width() + 1, monitor.work_area.height(), ));
    state.foreground = Some(WindowHandle(1));

    let plan = state.plan_command(&DaemonCommand::Retile, &[monitor], None);

    assert!(plan.moves.is_empty());
    assert_eq!(
        state.window_participation(WindowHandle(1)),
        WindowParticipation::Floating
    );
    assert_eq!(
        handles_of(&state.overflow_promoted_floating),
        vec![WindowHandle(1)]
    );
}

#[test]
fn overflow_windows_stay_floating_after_they_can_fit_by_default() {
    let monitor = primary_test_monitor();
    let first = window(1, "One", Rect::from_size(0, 0, 100, 100));
    let second = window(2, "Two", Rect::from_size(200, 0, 100, 100));
    let mut state = daemon_state([first, second]);
    state.size_constraints.insert(1, WindowSizeConstraints::minimum(700, 0));
    state.size_constraints.insert(2, WindowSizeConstraints::minimum(700, 0));
    state.foreground = Some(WindowHandle(1));

    let _ = state.plan_command(&DaemonCommand::Retile, std::slice::from_ref(&monitor), None);
    assert_eq!(
        handles_of(&state.overflow_promoted_floating),
        vec![WindowHandle(2)]
    );

    state.size_constraints.remove(2);
    let plan = state.plan_command(&DaemonCommand::Retile, &[monitor], None);

    assert_eq!(
        state.window_participation(WindowHandle(2)),
        WindowParticipation::Floating
    );
    assert_eq!(
        handles_of(&state.overflow_promoted_floating),
        vec![WindowHandle(2)]
    );
    assert_eq!(plan.moves.len(), 1);
}

#[test]
fn overflow_promoted_window_retiles_after_explicit_drop_when_configured() {
    let monitor = primary_test_monitor();
    let first = window(1, "One", Rect::from_size(0, 0, 100, 100));
    let second = window(2, "Two", Rect::from_size(200, 0, 100, 100));
    let mut state = daemon_state([first, second]);
    state.size_constraints.insert(1, WindowSizeConstraints::minimum(700, 0));
    state.size_constraints.insert(2, WindowSizeConstraints::minimum(700, 0));
    state.config.overflow_float_persistence = OverflowFloatPersistence::RetileOnDragEnd;
    state.foreground = Some(WindowHandle(1));

    let _ = state.plan_command(&DaemonCommand::Retile, std::slice::from_ref(&monitor), None);
    assert_eq!(
        state.window_participation(WindowHandle(2)),
        WindowParticipation::Floating
    );

    state.size_constraints.remove(2);

    assert!(state.handle_movesize_end(
        WindowHandle(2),
        std::slice::from_ref(&monitor),
        Some(DropContext {
            rect: Rect::from_size(800, 0, 100, 100),
            cursor: Some(Point { x: 850, y: 50 }),
        }),
    ));
    assert_eq!(
        state.window_participation(WindowHandle(2)),
        WindowParticipation::Tiled
    );
    assert!(state.overflow_promoted_floating.is_empty());
}

#[test]
fn overflow_promoted_window_stays_floating_after_drop_when_layout_still_will_not_fit() {
    let monitor = primary_test_monitor();
    let first = window(1, "One", Rect::from_size(0, 0, 100, 100));
    let second = window(2, "Two", Rect::from_size(200, 0, 100, 100));
    let mut state = daemon_state([first, second]);
    state.size_constraints.insert(1, WindowSizeConstraints::minimum(700, 0));
    state.size_constraints.insert(2, WindowSizeConstraints::minimum(700, 0));
    state.config.overflow_float_persistence = OverflowFloatPersistence::RetileOnDragEnd;
    state.foreground = Some(WindowHandle(1));

    let _ = state.plan_command(&DaemonCommand::Retile, std::slice::from_ref(&monitor), None);

    assert!(!state.handle_movesize_end(
        WindowHandle(2),
        std::slice::from_ref(&monitor),
        Some(DropContext {
            rect: Rect::from_size(800, 0, 100, 100),
            cursor: Some(Point { x: 850, y: 50 }),
        }),
    ));
    assert_eq!(
        state.window_participation(WindowHandle(2)),
        WindowParticipation::Floating
    );
    assert_eq!(
        handles_of(&state.overflow_promoted_floating),
        vec![WindowHandle(2)]
    );
}

#[test]
fn retile_keeps_partially_offscreen_windows_on_nearest_monitor() {
    let monitor = primary_test_monitor();
    let mut state = daemon_state([
        window(1, "Mostly Offscreen", Rect::from_size(-900, 0, 1000, 100)),
        window(2, "Visible", Rect::from_size(200, 0, 100, 100)),
    ]);

    let plan = state.plan_command(&DaemonCommand::Retile, &[monitor], None);

    assert_eq!(
        plan.moves,
        vec![
            TileAssignment {
                window: WindowHandle(1),
                rect: Rect::from_size(0, 0, 500, 760),
            },
            TileAssignment {
                window: WindowHandle(2),
                rect: Rect::from_size(500, 0, 500, 760),
            },
        ]
    );
}

#[test]
fn monitor_selection_uses_overlap_before_center() {
    let monitors = [primary_test_monitor(), secondary_test_monitor()];

    assert_eq!(
        monitor_for_rect(Rect::from_size(-900, 0, 1000, 100), &monitors),
        Some(MonitorId(1))
    );
}

#[test]
fn monitor_selection_falls_back_to_nearest_monitor_when_fully_offscreen() {
    let monitors = [primary_test_monitor(), secondary_test_monitor()];

    assert_eq!(
        monitor_for_rect(Rect::from_size(2600, 0, 100, 100), &monitors),
        Some(MonitorId(2))
    );
}

#[test]
fn monitor_selection_can_use_cursor_position() {
    let monitors = [primary_test_monitor(), secondary_test_monitor()];

    assert_eq!(
        monitor_for_point(Point { x: 1200, y: 300 }, &monitors),
        Some(MonitorId(2))
    );
}

#[test]
fn monitor_override_from_drag_controls_next_retile_assignment() {
    let monitors = [primary_test_monitor(), secondary_test_monitor()];
    let mut state = daemon_state([window(1, "Dragged", Rect::from_size(0, 0, 100, 100))]);
    state
        .window_monitor_overrides
        .insert(1, MonitorId(2));

    let plan = state.plan_command(&DaemonCommand::Retile, &monitors, None);

    assert_eq!(
        plan.moves,
        vec![TileAssignment {
            window: WindowHandle(1),
            rect: Rect::from_size(1000, 0, 800, 560),
        }]
    );
}

#[test]
fn learned_constraints_are_merged_into_layout_inputs() {
    let mut state = daemon_state([window(1, "Task Manager", Rect::from_size(0, 0, 100, 100))]);
    state.learned_size_constraints.insert(
        1,
        WindowSizeConstraints::minimum(420, 300),
    );

    let windows = state.layout_windows_for_handles(&[WindowHandle(1)]);

    assert_eq!(
        windows,
        vec![WindowLayoutInfo {
            handle: WindowHandle(1),
            size_constraints: WindowSizeConstraints::minimum(420, 300),
        }]
    );
}

#[test]
fn retile_uses_monitor_specific_layout_override() {
    let monitors = [primary_test_monitor(), secondary_test_monitor()];
    let mut state = daemon_state([
        window(1, "Primary One", Rect::from_size(0, 0, 100, 100)),
        window(2, "Primary Two", Rect::from_size(200, 0, 100, 100)),
        window(3, "Secondary One", Rect::from_size(1100, 0, 100, 100)),
        window(4, "Secondary Two", Rect::from_size(1300, 0, 100, 100)),
    ]);
    state.config.layout_per_monitor.push((
        MonitorId(2).to_text(),
        LayoutConfig {
            kind: LayoutKind::VerticalStack,
            ..LayoutConfig::default()
        },
    ));
    state.sync_workspace_state(&monitors);

    let plan = state.plan_command(&DaemonCommand::Retile, &monitors, None);

    assert_eq!(
        plan.moves,
        vec![
            TileAssignment {
                window: WindowHandle(1),
                rect: Rect::from_size(0, 0, 500, 760),
            },
            TileAssignment {
                window: WindowHandle(2),
                rect: Rect::from_size(500, 0, 500, 760),
            },
            TileAssignment {
                window: WindowHandle(3),
                rect: Rect::from_size(1000, 0, 800, 280),
            },
            TileAssignment {
                window: WindowHandle(4),
                rect: Rect::from_size(1000, 280, 800, 280),
            },
        ]
    );
}

#[test]
fn dwindle_drop_splits_assignment_under_drop_point() {
    let monitor = primary_test_monitor();
    let mut state = daemon_state([
        window(1, "Top Left", Rect::from_size(0, 0, 100, 100)),
        window(2, "Bottom", Rect::from_size(0, 600, 1000, 160)),
        window(3, "Top Right", Rect::from_size(500, 0, 100, 100)),
    ]);
    state.config.layout = LayoutConfig {
        kind: LayoutKind::Dwindle,
        smart_split: true,
        ..LayoutConfig::default()
    };
    state.dwindle_splits.insert(
        WorkspaceId(1),
        monitor.id,
        vec![
            DwindleSplit {
                target: WindowHandle(1),
                new_window: WindowHandle(2),
                direction: SplitDirection::Down,
            },
            DwindleSplit {
                target: WindowHandle(1),
                new_window: WindowHandle(3),
                direction: SplitDirection::Right,
            },
        ],
    );

    assert!(state.retarget_dwindle_drop(
        WindowHandle(2),
        Rect::from_size(700, 700, 100, 100),
        Some(Point { x: 200, y: 0 }),
        &[WindowHandle(1), WindowHandle(3)],
        &monitor,
        state.config.layout,
    ));

    assert_eq!(
        state.dwindle_splits.get(WorkspaceId(1), monitor.id),
        vec![
            DwindleSplit {
                target: WindowHandle(1),
                new_window: WindowHandle(3),
                direction: SplitDirection::Right,
            },
            DwindleSplit {
                target: WindowHandle(1),
                new_window: WindowHandle(2),
                direction: SplitDirection::Up,
            },
        ]
    );
}

#[test]
fn dwindle_drop_commits_pruned_preview_before_new_split() {
    let monitor = primary_test_monitor();
    let mut state = daemon_state([
        window(1, "B", Rect::from_size(0, 0, 500, 760)),
        window(2, "A", Rect::from_size(500, 0, 500, 760)),
        window(3, "C", Rect::from_size(500, 0, 500, 380)),
    ]);
    state.config.layout = LayoutConfig {
        kind: LayoutKind::Dwindle,
        smart_split: true,
        ..LayoutConfig::default()
    };
    state.dwindle_splits.insert(
        WorkspaceId(1),
        monitor.id,
        vec![
            DwindleSplit {
                target: WindowHandle(1),
                new_window: WindowHandle(3),
                direction: SplitDirection::Right,
            },
            DwindleSplit {
                target: WindowHandle(3),
                new_window: WindowHandle(2),
                direction: SplitDirection::Down,
            },
        ],
    );

    assert!(state.retarget_dwindle_drop(
        WindowHandle(3),
        Rect::from_size(500, 0, 500, 380),
        Some(Point { x: 750, y: 10 }),
        &[WindowHandle(1), WindowHandle(2)],
        &monitor,
        state.config.layout,
    ));

    assert_eq!(
        state.dwindle_splits.get(WorkspaceId(1), monitor.id),
        vec![
            DwindleSplit {
                target: WindowHandle(1),
                new_window: WindowHandle(2),
                direction: SplitDirection::Right,
            },
            DwindleSplit {
                target: WindowHandle(2),
                new_window: WindowHandle(3),
                direction: SplitDirection::Up,
            },
        ]
    );

    let plan = state.plan_command(&DaemonCommand::Retile, &[monitor], None);

    assert_eq!(
        plan.moves,
        vec![
            TileAssignment {
                window: WindowHandle(1),
                rect: Rect::from_size(0, 0, 500, 760),
            },
            TileAssignment {
                window: WindowHandle(2),
                rect: Rect::from_size(500, 380, 500, 380),
            },
            TileAssignment {
                window: WindowHandle(3),
                rect: Rect::from_size(500, 0, 500, 380),
            },
        ]
    );
}

#[test]
fn movesize_start_temporarily_floats_tiled_window() {
    let mut state = daemon_state([
        window(1, "One", Rect::from_size(0, 0, 100, 100)),
        window(2, "Two", Rect::from_size(200, 0, 100, 100)),
    ]);

    let plan = plan_after(&mut state, &[event(WindowEventKind::MoveSizeStart, 1)], &[primary_test_monitor()]);

    assert_eq!(
        state.window_participation(WindowHandle(1)),
        WindowParticipation::TemporarilyFloating
    );
    assert_eq!(
        state.previous_rects.get(1).copied(),
        Some(Rect::from_size(0, 0, 100, 100))
    );
    assert_eq!(
        plan.moves,
        vec![TileAssignment {
            window: WindowHandle(2),
            rect: primary_test_monitor().work_area,
        }]
    );
}

#[test]
fn movesize_end_reabsorbs_temporary_float_by_default() {
    let mut state = daemon_state([
        window(1, "One", Rect::from_size(0, 0, 100, 100)),
        window(2, "Two", Rect::from_size(200, 0, 100, 100)),
    ]);
    state.set_window_participation(WindowHandle(1), WindowParticipation::TemporarilyFloating);

    let plan = plan_after(&mut state, &[event(WindowEventKind::MoveSizeEnd, 1)], &[primary_test_monitor()]);

    assert_eq!(
        state.window_participation(WindowHandle(1)),
        WindowParticipation::Tiled
    );
    assert_eq!(plan.moves.len(), 2);
    assert_eq!(plan.moves[0].window, WindowHandle(1));
}

#[test]
fn modifier_drag_delta_offsets_original_rect() {
    let rect = offset_rect_by_cursor_delta(
        Rect::from_size(100, 200, 300, 400),
        Point { x: 125, y: 250 },
        Point { x: 175, y: 225 },
    );

    assert_eq!(rect, Rect::from_size(150, 175, 300, 400));
}

#[test]
fn modifier_drag_start_uses_temporary_float_like_normal_drag() {
    let mut state = daemon_state([
        window(1, "One", Rect::from_size(0, 0, 100, 100)),
        window(2, "Two", Rect::from_size(200, 0, 100, 100)),
    ]);

    assert!(state.handle_movesize_start(WindowHandle(1), no_reading(), &[primary_test_monitor()]));

    assert_eq!(
        state.window_participation(WindowHandle(1)),
        WindowParticipation::TemporarilyFloating
    );
    assert_eq!(
        state.previous_rects.get(1).copied(),
        Some(Rect::from_size(0, 0, 100, 100))
    );
}

#[test]
fn movesize_end_reorders_tiled_window_from_drop_position() {
    let mut state = daemon_state([
        window(1, "One", Rect::from_size(700, 500, 100, 100)),
        window(2, "Two", Rect::from_size(100, 0, 100, 100)),
        window(3, "Three", Rect::from_size(300, 0, 100, 100)),
    ]);
    state.set_window_participation(WindowHandle(1), WindowParticipation::TemporarilyFloating);

    let plan = plan_after(&mut state, &[event(WindowEventKind::MoveSizeEnd, 1)], &[primary_test_monitor()]);

    assert_eq!(
        state.tile_order,
        vec![WindowHandle(2), WindowHandle(3), WindowHandle(1)]
    );
    assert_eq!(
        plan.moves
            .iter()
            .map(|assignment| assignment.window)
            .collect::<Vec<_>>(),
        vec![WindowHandle(2), WindowHandle(3), WindowHandle(1)]
    );
}

#[test]
fn explicit_modifier_drop_uses_supplied_final_position() {
    let mut state = daemon_state([
        window(1, "One", Rect::from_size(0, 0, 100, 100)),
        window(2, "Two", Rect::from_size(300, 0, 100, 100)),
        window(3, "Three", Rect::from_size(600, 0, 100, 100)),
    ]);
    state.set_window_participation(WindowHandle(1), WindowParticipation::TemporarilyFloating);

    assert!(state.reorder_window_by_drop_at(
        WindowHandle(1),
        &[primary_test_monitor()],
        Rect::from_size(850, 500, 100, 100),
        Some(Point { x: 900, y: 550 }),
    ));

    assert_eq!(
        state.tile_order,
        vec![WindowHandle(2), WindowHandle(3), WindowHandle(1)]
    );
}

#[test]
fn explicit_modifier_drop_uses_cursor_instead_of_final_rect_center() {
    let mut state = daemon_state([
        window(1, "One", Rect::from_size(0, 0, 100, 100)),
        window(2, "Two", Rect::from_size(300, 0, 100, 100)),
        window(3, "Three", Rect::from_size(600, 0, 100, 100)),
    ]);
    state.set_window_participation(WindowHandle(1), WindowParticipation::TemporarilyFloating);

    assert!(state.reorder_window_by_drop_at(
        WindowHandle(1),
        &[primary_test_monitor()],
        Rect::from_size(0, 0, 100, 100),
        Some(Point { x: 900, y: 550 }),
    ));

    assert_eq!(
        state.tile_order,
        vec![WindowHandle(2), WindowHandle(3), WindowHandle(1)]
    );
}

#[test]
fn movesize_end_accepts_explicit_modifier_drop_context() {
    let mut state = daemon_state([
        window(1, "One", Rect::from_size(0, 0, 100, 100)),
        window(2, "Two", Rect::from_size(300, 0, 100, 100)),
        window(3, "Three", Rect::from_size(600, 0, 100, 100)),
    ]);
    state.set_window_participation(WindowHandle(1), WindowParticipation::TemporarilyFloating);

    assert!(state.handle_movesize_end(
        WindowHandle(1),
        &[primary_test_monitor()],
        Some(DropContext {
            rect: Rect::from_size(0, 0, 100, 100),
            cursor: Some(Point { x: 900, y: 550 }),
        }),
    ));

    assert_eq!(
        state.window_participation(WindowHandle(1)),
        WindowParticipation::Tiled
    );
    assert_eq!(
        state.tile_order,
        vec![WindowHandle(2), WindowHandle(3), WindowHandle(1)]
    );
}

#[test]
fn active_modifier_drag_window_events_are_ignored_while_batching() {
    let mut state = daemon_state([window(1, "One", Rect::from_size(0, 0, 100, 100))]);
    state.active_modifier_drag = Some(ActiveModifierDrag {
        window: WindowHandle(1),
        start_cursor: Point { x: 10, y: 10 },
        last_cursor: Point { x: 10, y: 10 },
        start_rect: Rect::from_size(0, 0, 100, 100),
        move_count: 0,
        started_temporary_float: true,
    });

    assert!(state.should_ignore_modifier_drag_window_event(event(WindowEventKind::Moved, 1)));
    assert!(
        state
            .should_ignore_modifier_drag_window_event(event(WindowEventKind::MoveSizeStart, 1))
    );
    assert!(
        state.should_ignore_modifier_drag_window_event(event(WindowEventKind::MoveSizeEnd, 1))
    );
}

#[test]
fn stale_modifier_drag_window_events_are_ignored_after_drop() {
    let mut state = daemon_state([window(1, "One", Rect::from_size(0, 0, 100, 100))]);
    state
        .suppressed_modifier_drag_events
        .insert(1, ());

    let relevant = state.take_relevant_events(&[
            event(WindowEventKind::Moved, 1),
            event(WindowEventKind::MoveSizeStart, 1),
            event(WindowEventKind::MoveSizeEnd, 1),
        ]);
    assert_eq!(event_route(&relevant), EventRoute::Nothing);

    assert!(state.suppressed_modifier_drag_events.is_empty());
    assert_eq!(
        state
            .windows
            .get(1)
            .map(|window| window.rect),
        Some(Rect::from_size(0, 0, 100, 100))
    );
}

#[test]
fn native_drag_moved_events_are_processed_without_debounce() {
    let mut state = daemon_state([window(1, "Dragged", Rect::from_size(0, 0, 100, 100))]);
    state.active_interactive_drag = Some(active_interactive_drag(WindowHandle(1)));

    assert!(state.should_process_moved_event_immediately(event(WindowEventKind::Moved, 1)));
    assert!(!state.should_process_moved_event_immediately(event(WindowEventKind::Moved, 2)));
    assert!(!state.should_process_moved_event_immediately(event(WindowEventKind::Shown, 1)));
}

#[test]
fn native_drag_tick_updates_cached_rect_and_monitor_override() {
    let mut state = daemon_state([window(1, "Dragged", Rect::from_size(0, 0, 100, 100))]);
    let monitors = [primary_test_monitor(), secondary_test_monitor()];
    let dragged = WindowHandle(1);
    state.active_interactive_drag = Some(ActiveInteractiveDrag {
        window: dragged,
        start_cursor: Point { x: 10, y: 10 },
        start_rect: Rect::from_size(1000, 0, 240, 180),
        monitors: monitors.to_vec(),
    });
    let dragged_rect = state
        .interactive_drag_rect_from_cursor(dragged, Point { x: 210, y: 30 })
        .unwrap();

    assert!(state.apply_interactive_drag_rect(dragged, dragged_rect, &monitors));
    assert_eq!(dragged_rect, Rect::from_size(1200, 20, 240, 180));
    assert_eq!(state.windows.get(dragged.0).unwrap().rect, dragged_rect);
    assert_eq!(
        state.window_monitor_overrides.get(dragged.0),
        Some(&MonitorId(2))
    );
}

#[test]
fn native_drag_delta_uses_initial_cursor_and_visible_rect() {
    let state = {
        let mut state =
            daemon_state([window(1, "Dragged", Rect::from_size(100, 100, 200, 120))]);
        state.active_interactive_drag = Some(ActiveInteractiveDrag {
            window: WindowHandle(1),
            start_cursor: Point { x: 124, y: 118 },
            start_rect: Rect::from_size(100, 100, 200, 120),
            monitors: vec![primary_test_monitor()],
        });
        state
    };

    assert_eq!(
        state.interactive_drag_rect_from_cursor(WindowHandle(1), Point { x: 324, y: 218 }),
        Some(Rect::from_size(300, 200, 200, 120))
    );
}

#[test]
fn native_drag_tick_ignores_stale_windows() {
    let mut state = daemon_state([window(1, "Dragged", Rect::from_size(0, 0, 100, 100))]);
    let monitors = [primary_test_monitor()];

    assert!(!state.apply_interactive_drag_rect(
        WindowHandle(1),
        Rect::from_size(10, 10, 100, 100),
        &monitors
    ));
    assert_eq!(
        state.windows.get(1).unwrap().rect,
        Rect::from_size(0, 0, 100, 100)
    );
}

#[test]
fn permanent_floating_survives_movesize_start() {
    let mut state = daemon_state([
        window(1, "One", Rect::from_size(0, 0, 100, 100)),
        window(2, "Two", Rect::from_size(200, 0, 100, 100)),
    ]);
    state.set_window_participation(WindowHandle(1), WindowParticipation::Floating);

    let plan = plan_after(&mut state, &[event(WindowEventKind::MoveSizeStart, 1)], &[primary_test_monitor()]);

    assert_eq!(
        state.window_participation(WindowHandle(1)),
        WindowParticipation::Floating
    );
    assert!(plan.moves.is_empty());
}

#[test]
fn dynamic_retile_can_be_disabled() {
    let mut state = daemon_state([
        window(1, "One", Rect::from_size(0, 0, 100, 100)),
        window(2, "Two", Rect::from_size(200, 0, 100, 100)),
    ]);
    state.config.dynamic_retile = false;

    let plan = plan_after(&mut state, &[event(WindowEventKind::Shown, 2)], &[primary_test_monitor()]);

    assert!(plan.moves.is_empty());
}

#[test]
fn monitor_moves_request_dynamic_retile() {
    let monitors = [primary_test_monitor(), secondary_test_monitor()];
    let old = daemon_state([window(1, "One", Rect::from_size(100, 0, 100, 100))]);
    let refreshed = daemon_state([window(1, "One", Rect::from_size(1100, 0, 100, 100))]);

    let diff = old.diff(&refreshed, &monitors);

    assert_eq!(diff.moved_between_monitors, 1);
    assert!(refreshed.should_retile_after_events(&[event(WindowEventKind::Moved, 1)], &diff));
}

#[test]
fn metadata_changes_request_dynamic_retile() {
    let state = daemon_state([window(1, "Paint", Rect::from_size(0, 0, 100, 100))]);

    assert!(state.should_retile_after_events(
        &[event(WindowEventKind::MetadataChanged, 1)],
        &SnapshotDiff::default(),
    ));
}

#[test]
fn metadata_changes_clear_learned_size_constraint_before_retile() {
    let monitor = primary_test_monitor();
    let work_area = monitor.work_area;
    let mut state = daemon_state([window(1, "Paint", Rect::from_size(0, 0, 100, 100))]);
    state.learned_size_constraints.insert(
        1,
        WindowSizeConstraints::minimum(work_area.width() + 200, work_area.height() + 200),
    );

    let plan = plan_after(&mut state, &[event(WindowEventKind::MetadataChanged, 1)], &[monitor]);

    assert!(
        !state
            .learned_size_constraints
            .contains_key(1)
    );
    assert_eq!(
        plan.moves,
        vec![TileAssignment {
            window: WindowHandle(1),
            rect: work_area,
        }]
    );
}

#[test]
fn drag_start_clears_learned_size_constraint() {
    let monitor = primary_test_monitor();
    let mut state = daemon_state([window(1, "Paint", Rect::from_size(0, 0, 100, 100))]);
    state
        .learned_size_constraints
        .insert(1, WindowSizeConstraints::minimum(900, 700));

    let _ = plan_after(&mut state, &[event(WindowEventKind::MoveSizeStart, 1)], &[monitor]);

    assert!(
        !state
            .learned_size_constraints
            .contains_key(1)
    );
}

#[test]
fn switch_workspace_plans_hide_show_and_retile_for_target_workspace() {
    let mut state = daemon_state([
        window(1, "One", Rect::from_size(0, 0, 100, 100)),
        window(2, "Two", Rect::from_size(200, 0, 100, 100)),
    ]);
    state
        .workspaces
        .move_window_to_workspace(WindowHandle(2), WorkspaceId(2));

    let plan = state.plan_command(&DaemonCommand::SwitchWorkspace(WorkspaceId(2)), &[primary_test_monitor()], None);

    assert_eq!(state.workspaces.active_workspace(), WorkspaceId(2));
    assert_eq!(plan.hide, vec![WindowHandle(1)]);
    assert_eq!(
        plan.show,
        vec![WorkspaceVisibilityChange {
            window: WindowHandle(2),
            restore_rect: Some(Rect::from_size(200, 0, 100, 100)),
        }]
    );
    assert_eq!(
        plan.moves,
        vec![TileAssignment {
            window: WindowHandle(2),
            rect: primary_test_monitor().work_area,
        }]
    );
}

#[test]
fn switching_workspace_while_dragging_moves_dragged_window_to_target_workspace() {
    let mut state = daemon_state([
        window(1, "Dragged", Rect::from_size(0, 0, 100, 100)),
        window(2, "Stays Behind", Rect::from_size(200, 0, 100, 100)),
        window(3, "Already There", Rect::from_size(400, 0, 100, 100)),
    ]);
    state
        .workspaces
        .move_window_to_workspace(WindowHandle(3), WorkspaceId(2));

    assert!(state.handle_movesize_start(WindowHandle(1), no_reading(), &[primary_test_monitor()]));

    let plan = state.plan_command(&DaemonCommand::SwitchWorkspace(WorkspaceId(2)), &[primary_test_monitor()], None);

    assert_eq!(
        state
            .workspaces
            .window_state(WindowHandle(1))
            .map(|state| state.workspace),
        Some(WorkspaceId(2))
    );
    assert_eq!(
        state.window_participation(WindowHandle(1)),
        WindowParticipation::TemporarilyFloating
    );
    assert_eq!(state.foreground, Some(WindowHandle(1)));
    assert_eq!(plan.focus, Some(WindowHandle(1)));
    assert_eq!(plan.hide, vec![WindowHandle(2)]);
    assert_eq!(
        plan.show,
        vec![
            WorkspaceVisibilityChange {
                window: WindowHandle(1),
                restore_rect: Some(Rect::from_size(0, 0, 100, 100)),
            },
            WorkspaceVisibilityChange {
                window: WindowHandle(3),
                restore_rect: Some(Rect::from_size(400, 0, 100, 100)),
            },
        ]
    );
    assert_eq!(
        plan.moves,
        vec![TileAssignment {
            window: WindowHandle(3),
            rect: primary_test_monitor().work_area,
        }]
    );
}

#[test]
fn switching_workspace_while_dragging_floating_window_preserves_floating_state() {
    let mut state = daemon_state([
        window(1, "Floating", Rect::from_size(0, 0, 100, 100)),
        window(2, "Stays Behind", Rect::from_size(200, 0, 100, 100)),
    ]);
    state.set_window_participation(WindowHandle(1), WindowParticipation::Floating);

    assert!(!state.handle_movesize_start(WindowHandle(1), no_reading(), &[primary_test_monitor()]));
    assert_eq!(
        state.active_interactive_drag_window(),
        Some(WindowHandle(1))
    );

    let plan = state.plan_command(&DaemonCommand::SwitchWorkspace(WorkspaceId(2)), &[primary_test_monitor()], None);

    assert_eq!(
        state
            .workspaces
            .window_state(WindowHandle(1))
            .map(|state| state.workspace),
        Some(WorkspaceId(2))
    );
    assert_eq!(
        state.window_participation(WindowHandle(1)),
        WindowParticipation::Floating
    );
    assert_eq!(plan.focus, Some(WindowHandle(1)));
    assert_eq!(plan.hide, vec![WindowHandle(2)]);
    assert_eq!(
        plan.show,
        vec![WorkspaceVisibilityChange {
            window: WindowHandle(1),
            restore_rect: Some(Rect::from_size(0, 0, 100, 100)),
        }]
    );
    assert!(plan.moves.is_empty());

    assert!(!state.handle_movesize_end(WindowHandle(1), &[primary_test_monitor()], None));
    assert_eq!(state.active_interactive_drag_window(), None);
}

#[test]
fn switching_workspace_while_modifier_dragging_uses_modifier_drag_window() {
    let mut state = daemon_state([
        window(1, "Dragged", Rect::from_size(0, 0, 100, 100)),
        window(2, "Stays Behind", Rect::from_size(200, 0, 100, 100)),
    ]);
    state.active_modifier_drag = Some(ActiveModifierDrag {
        window: WindowHandle(1),
        start_cursor: Point { x: 10, y: 10 },
        last_cursor: Point { x: 10, y: 10 },
        start_rect: Rect::from_size(0, 0, 100, 100),
        move_count: 0,
        started_temporary_float: false,
    });

    let plan = state.plan_command(&DaemonCommand::SwitchWorkspace(WorkspaceId(2)), &[primary_test_monitor()], None);

    assert_eq!(
        state
            .workspaces
            .window_state(WindowHandle(1))
            .map(|state| state.workspace),
        Some(WorkspaceId(2))
    );
    assert_eq!(plan.focus, Some(WindowHandle(1)));
    assert_eq!(plan.hide, vec![WindowHandle(2)]);
    assert_eq!(
        plan.show,
        vec![WorkspaceVisibilityChange {
            window: WindowHandle(1),
            restore_rect: Some(Rect::from_size(0, 0, 100, 100)),
        }]
    );
}

#[test]
fn switching_relative_workspace_while_dragging_uses_dragged_monitor_workspace() {
    let monitors = [primary_test_monitor(), secondary_test_monitor()];
    let mut state = daemon_state([
        window(1, "Primary", Rect::from_size(0, 0, 100, 100)),
        window(2, "Dragged Secondary", Rect::from_size(1100, 0, 100, 100)),
    ]);
    state.sync_workspace_state(&monitors);

    assert!(state.handle_movesize_start(WindowHandle(2), no_reading(), &monitors));

    let plan = state.plan_command(&DaemonCommand::SwitchWorkspaceRelative(CycleDirection::Next), &monitors, None);

    assert_eq!(
        state
            .workspaces
            .window_state(WindowHandle(2))
            .map(|state| state.workspace),
        Some(WorkspaceId(3))
    );
    assert_eq!(
        state.workspaces.active_workspace_for_monitor(MonitorId(2)),
        WorkspaceId(3)
    );
    assert_eq!(plan.focus, Some(WindowHandle(2)));
    assert!(
        plan.show
            .iter()
            .any(|change| change.window == WindowHandle(2))
    );
}

#[test]
fn switching_workspace_while_dragging_fullscreen_window_does_not_move_it() {
    let mut state = daemon_state([
        window(1, "Fullscreen", primary_test_monitor().rect),
        window(2, "Stays Behind", Rect::from_size(200, 0, 100, 100)),
    ]);
    state.active_interactive_drag = Some(active_interactive_drag(WindowHandle(1)));

    let plan = state.plan_command(&DaemonCommand::SwitchWorkspace(WorkspaceId(2)), &[primary_test_monitor()], None);

    assert_ne!(
        state
            .workspaces
            .window_state(WindowHandle(1))
            .map(|state| state.workspace),
        Some(WorkspaceId(2))
    );
    assert_ne!(plan.focus, Some(WindowHandle(1)));
    assert!(
        !plan
            .show
            .iter()
            .any(|change| change.window == WindowHandle(1))
    );
}

#[test]
fn focus_monitor_next_focuses_visible_window_on_target_monitor() {
    let monitors = [primary_test_monitor(), secondary_test_monitor()];
    let mut state = daemon_state([
        window(1, "Primary", Rect::from_size(0, 0, 100, 100)),
        window(2, "Secondary", Rect::from_size(1100, 0, 100, 100)),
    ]);
    state.sync_workspace_state(&monitors);
    state.foreground = Some(WindowHandle(1));
    state.focus_monitor_for_window(WindowHandle(1), &monitors);

    let plan = state.plan_command(&DaemonCommand::FocusMonitor(MonitorSelector::Next), &monitors, None);

    assert_eq!(state.workspaces.focused_monitor(), Some(MonitorId(2)));
    assert_eq!(plan.focus, Some(WindowHandle(2)));
    assert_eq!(state.foreground, Some(WindowHandle(2)));
    assert!(plan.moves.is_empty());
}

#[test]
fn move_window_to_monitor_uses_target_monitor_active_workspace() {
    let monitors = [primary_test_monitor(), secondary_test_monitor()];
    let mut state = daemon_state([
        window(1, "Move Me", Rect::from_size(0, 0, 100, 100)),
        window(2, "Stay Primary", Rect::from_size(200, 0, 100, 100)),
        window(3, "Stay Secondary", Rect::from_size(1100, 0, 100, 100)),
    ]);
    state.sync_workspace_state(&monitors);
    state.foreground = Some(WindowHandle(1));
    state.focus_monitor_for_window(WindowHandle(1), &monitors);

    let plan = state.plan_command(&DaemonCommand::MoveFocusedToMonitor(MonitorSelector::Next), &monitors, None);

    assert_eq!(
        state
            .workspaces
            .window_state(WindowHandle(1))
            .map(|state| state.workspace),
        Some(WorkspaceId(2))
    );
    assert_eq!(
        state
            .window_monitor_overrides
            .get(1)
            .copied(),
        Some(MonitorId(2))
    );
    assert_eq!(plan.focus, Some(WindowHandle(1)));
    assert_eq!(
        plan.moves,
        vec![
            TileAssignment {
                window: WindowHandle(2),
                rect: primary_test_monitor().work_area,
            },
            TileAssignment {
                window: WindowHandle(1),
                rect: Rect::from_size(1000, 0, 400, 560),
            },
            TileAssignment {
                window: WindowHandle(3),
                rect: Rect::from_size(1400, 0, 400, 560),
            },
        ]
    );
}

#[test]
fn send_workspace_to_monitor_updates_window_ownership_and_focus() {
    let monitors = [primary_test_monitor(), secondary_test_monitor()];
    let mut state = daemon_state([
        window(1, "Workspace Two", Rect::from_size(0, 0, 100, 100)),
        window(2, "Workspace One", Rect::from_size(200, 0, 100, 100)),
    ]);
    state
        .workspaces
        .move_window_to_workspace(WindowHandle(1), WorkspaceId(2));
    state.set_window_participation(WindowHandle(1), WindowParticipation::Floating);

    let plan = state.plan_command(&DaemonCommand::SendWorkspaceToMonitor { workspace: WorkspaceId(2), monitor: MonitorSelector::Index(2), }, &monitors, None);

    assert_eq!(
        state
            .window_monitor_overrides
            .get(1)
            .copied(),
        Some(MonitorId(2))
    );
    assert_eq!(
        state.workspaces.active_workspace_for_monitor(MonitorId(2)),
        WorkspaceId(2)
    );
    assert_eq!(state.workspaces.focused_monitor(), Some(MonitorId(2)));
    assert_eq!(plan.focus, Some(WindowHandle(1)));
    assert_eq!(
        plan.show,
        vec![WorkspaceVisibilityChange {
            window: WindowHandle(1),
            restore_rect: Some(Rect::from_size(0, 0, 100, 100)),
        }]
    );
    assert_eq!(
        plan.moves,
        vec![
            TileAssignment {
                window: WindowHandle(2),
                rect: primary_test_monitor().work_area,
            },
            TileAssignment {
                window: WindowHandle(1),
                rect: Rect::from_size(1000, 0, 100, 100),
            },
        ]
    );
    assert_eq!(
        state.window_participation(WindowHandle(1)),
        WindowParticipation::Floating
    );
}

#[test]
fn move_window_to_workspace_and_follow_keeps_floating_state_and_focuses_window() {
    let mut state = daemon_state([
        window(1, "Floating", Rect::from_size(0, 0, 100, 100)),
        window(2, "Other", Rect::from_size(200, 0, 100, 100)),
    ]);
    state.foreground = Some(WindowHandle(1));
    state.set_window_participation(WindowHandle(1), WindowParticipation::Floating);

    let plan = state.plan_command(&DaemonCommand::MoveFocusedToWorkspaceAndFollow(WorkspaceId(2)), &[primary_test_monitor()], None);

    assert_eq!(state.workspaces.active_workspace(), WorkspaceId(2));
    assert_eq!(state.foreground, Some(WindowHandle(1)));
    assert_eq!(plan.focus, Some(WindowHandle(1)));
    assert_eq!(plan.hide, vec![WindowHandle(2)]);
    assert_eq!(
        plan.show,
        vec![WorkspaceVisibilityChange {
            window: WindowHandle(1),
            restore_rect: Some(Rect::from_size(0, 0, 100, 100)),
        }]
    );
    assert_eq!(
        state.window_participation(WindowHandle(1)),
        WindowParticipation::Floating
    );
    assert!(plan.moves.is_empty());
}

#[test]
fn inactive_workspace_windows_are_not_bordered() {
    let mut state = daemon_state([
        window(1, "Active", Rect::from_size(0, 0, 100, 100)),
        window(2, "Hidden", Rect::from_size(200, 0, 100, 100)),
    ]);
    state.config.borders.enabled = true;
    state
        .workspaces
        .move_window_to_workspace(WindowHandle(2), WorkspaceId(2));

    let candidates = state.border_candidates(&[primary_test_monitor()]);

    assert_eq!(
        candidates
            .iter()
            .map(|candidate| candidate.window)
            .collect::<Vec<_>>(),
        vec![WindowHandle(1)]
    );
}

#[test]
fn floating_z_order_raises_floating_temporary_and_overflow_windows() {
    let mut state = daemon_state([
        window(1, "Tiled", Rect::from_size(0, 0, 100, 100)),
        window(2, "Floating", Rect::from_size(200, 0, 100, 100)),
        window(3, "Temporary", Rect::from_size(400, 0, 100, 100)),
        window(4, "Overflow", Rect::from_size(600, 0, 100, 100)),
    ]);
    state.set_window_participation(WindowHandle(2), WindowParticipation::Floating);
    state.set_window_participation(WindowHandle(3), WindowParticipation::TemporarilyFloating);
    state.promote_overflow_window_to_floating(WindowHandle(4));
    state.foreground = Some(WindowHandle(3));

    let windows = state.floating_z_order_windows(&[primary_test_monitor()]);

    assert_eq!(
        windows,
        vec![WindowHandle(2), WindowHandle(4), WindowHandle(3)]
    );
}

#[test]
fn floating_z_order_stays_above_focused_tiled_window() {
    let mut state = daemon_state([
        window(1, "Focused Tiled", Rect::from_size(0, 0, 100, 100)),
        window(2, "Floating", Rect::from_size(200, 0, 100, 100)),
        window(3, "Overflow", Rect::from_size(400, 0, 100, 100)),
    ]);
    state.foreground = Some(WindowHandle(1));
    state.set_window_participation(WindowHandle(2), WindowParticipation::Floating);
    state.promote_overflow_window_to_floating(WindowHandle(3));

    let windows = state.floating_z_order_windows(&[primary_test_monitor()]);

    assert_eq!(windows, vec![WindowHandle(2), WindowHandle(3)]);
}

#[test]
fn floating_z_order_excludes_inactive_workspace_windows() {
    let mut state = daemon_state([window(1, "Hidden", Rect::from_size(0, 0, 100, 100))]);
    state.set_window_participation(WindowHandle(1), WindowParticipation::Floating);
    state
        .workspaces
        .move_window_to_workspace(WindowHandle(1), WorkspaceId(2));

    let hidden = state.floating_z_order_windows(&[primary_test_monitor()]);
    state.workspaces.switch_to(WorkspaceId(2));
    let shown = state.floating_z_order_windows(&[primary_test_monitor()]);

    assert!(hidden.is_empty());
    assert_eq!(shown, vec![WindowHandle(1)]);
}

#[test]
fn floating_z_order_respects_focused_monitor_game_mode_pause() {
    let monitors = [primary_test_monitor(), secondary_test_monitor()];
    let mut state = daemon_state([
        window(1, "Fullscreen Game", monitors[0].rect),
        window(2, "Primary Floating", Rect::from_size(200, 0, 100, 100)),
        window(3, "Secondary Floating", Rect::from_size(1100, 0, 100, 100)),
    ]);
    state.foreground = Some(WindowHandle(1));
    state.config.game_mode.pause_focused_monitor_only = true;
    state.set_window_participation(WindowHandle(2), WindowParticipation::Floating);
    state.set_window_participation(WindowHandle(3), WindowParticipation::Floating);

    update_game_mode(&mut state, &monitors);
    let windows = state.floating_z_order_windows(&monitors);

    assert_eq!(windows, vec![WindowHandle(3)]);
}

#[test]
fn state_snapshot_reports_monitor_workspace_and_window_visibility() {
    let monitors = [primary_test_monitor(), secondary_test_monitor()];
    let mut state = daemon_state([
        window(1, "Primary", Rect::from_size(0, 0, 100, 100)),
        window(2, "Secondary", Rect::from_size(1100, 0, 100, 100)),
    ]);
    state.sync_workspace_state(&monitors);
    state.foreground = Some(WindowHandle(2));
    state.focus_monitor_for_window(WindowHandle(2), &monitors);

    let snapshot = state.state_snapshot_with_monitors(&monitors);

    assert_eq!(
        snapshot.monitors,
        vec![
            MonitorStateSnapshot {
                monitor_id: 1,
                workspace_id: 1,
                focused: false,
            },
            MonitorStateSnapshot {
                monitor_id: 2,
                workspace_id: 2,
                focused: true,
            },
        ]
    );
    assert_eq!(snapshot.windows.len(), 2);
    assert_eq!(snapshot.windows[0].monitor_id, Some(1));
    assert_eq!(snapshot.windows[0].workspace_id, Some(1));
    assert!(snapshot.windows[0].visible_on_active_workspace);
    assert_eq!(snapshot.windows[1].monitor_id, Some(2));
    assert_eq!(snapshot.windows[1].workspace_id, Some(2));
    assert!(snapshot.windows[1].focused);
    assert!(snapshot.windows[1].visible_on_active_workspace);
}

#[test]
fn work_area_sized_window_on_inactive_workspace_is_not_hidden() {
    let mut state = daemon_state([window(1, "One", primary_test_monitor().work_area)]);
    state
        .workspaces
        .move_window_to_workspace(WindowHandle(1), WorkspaceId(2));
    state.workspaces.switch_to(WorkspaceId(2));

    let plan = state.plan_command(&DaemonCommand::SwitchWorkspace(WorkspaceId(1)), &[primary_test_monitor()], None);

    assert_eq!(plan.hide, Vec::<WindowHandle>::new());
    assert!(plan.moves.is_empty());
}

#[test]
fn move_focused_to_inactive_workspace_hides_it_and_retiles_remaining_windows() {
    let mut state = daemon_state([
        window(1, "One", Rect::from_size(0, 0, 100, 100)),
        window(2, "Two", Rect::from_size(200, 0, 100, 100)),
    ]);
    state.foreground = Some(WindowHandle(1));

    let plan = state.plan_command(&DaemonCommand::MoveFocusedToWorkspace(WorkspaceId(2)), &[primary_test_monitor()], None);

    assert_eq!(plan.hide, vec![WindowHandle(1)]);
    assert_eq!(plan.show, Vec::<WorkspaceVisibilityChange>::new());
    assert_eq!(
        state
            .workspaces
            .window_state(WindowHandle(1))
            .unwrap()
            .workspace,
        WorkspaceId(2)
    );
    assert_eq!(
        plan.moves,
        vec![TileAssignment {
            window: WindowHandle(2),
            rect: primary_test_monitor().work_area,
        }]
    );
}

#[test]
fn fullscreen_windows_are_not_hidden_by_workspace_switches() {
    let mut state = daemon_state([
        window(1, "Fullscreen", primary_test_monitor().rect),
        window(2, "Two", Rect::from_size(200, 0, 100, 100)),
    ]);
    state
        .workspaces
        .track_window(WindowHandle(1), primary_test_monitor().rect);
    state
        .workspaces
        .move_window_to_workspace(WindowHandle(2), WorkspaceId(2));

    let plan = state.plan_command(&DaemonCommand::SwitchWorkspace(WorkspaceId(2)), &[primary_test_monitor()], None);

    assert_eq!(plan.hide, Vec::<WindowHandle>::new());
}

#[test]
fn snapshot_diff_reports_added_removed_changed_and_foreground_changes() {
    let mut old = daemon_state([
        window(1, "Editor", Rect::from_size(10, 20, 800, 600)),
        window(2, "Terminal", Rect::from_size(10, 20, 800, 600)),
    ]);
    old.foreground = Some(WindowHandle(1));

    let mut refreshed = daemon_state([
        window(1, "Editor - changed", Rect::from_size(10, 20, 800, 600)),
        window(3, "Browser", Rect::from_size(10, 20, 800, 600)),
    ]);
    refreshed.foreground = Some(WindowHandle(3));

    let diff = old.diff(&refreshed, &[primary_test_monitor()]);

    assert_eq!(diff.added, vec![WindowHandle(3)]);
    assert_eq!(diff.removed, vec![WindowHandle(2)]);
    assert_eq!(diff.changed, 1);
    assert_eq!(diff.moved_between_monitors, 0);
    assert!(diff.foreground_changed);
}

#[test]
fn event_count_only_counts_requested_kind() {
    let batch = [
        event(WindowEventKind::Shown, 1),
        event(WindowEventKind::Moved, 1),
        event(WindowEventKind::Shown, 2),
    ];

    assert_eq!(count_events(&batch, WindowEventKind::Shown), 2);
    assert_eq!(count_events(&batch, WindowEventKind::Moved), 1);
    assert_eq!(count_events(&batch, WindowEventKind::Hidden), 0);
}

#[test]
fn duplicate_window_events_are_coalesced_to_last_observation() {
    let batch = [
        event(WindowEventKind::Shown, 1),
        event(WindowEventKind::Hidden, 2),
        event(WindowEventKind::Shown, 1),
        event(WindowEventKind::Moved, 1),
        event(WindowEventKind::Moved, 1),
    ];

    let coalesced = coalesce_window_events(&batch);

    assert_eq!(
        coalesced,
        vec![
            event(WindowEventKind::Hidden, 2),
            event(WindowEventKind::Shown, 1),
            event(WindowEventKind::Moved, 1),
        ]
    );
}

#[test]
fn no_op_relayout_is_counted_without_calling_win32_move() {
    let monitor = primary_test_monitor();
    let mut state = daemon_state([window(1, "Editor", monitor.work_area)]);
    let assignments = vec![TileAssignment {
        window: WindowHandle(1),
        rect: monitor.work_area,
    }];

    let (moves, progress) = state.next_moves(
        RelayoutProgress::new(),
        &assignments,
        std::slice::from_ref(&monitor),
    );
    assert!(moves.is_empty());
    state.record_relayout_result(progress, 0);

    assert_eq!(state.perf.relayout_count, 0);
    assert_eq!(state.perf.skipped_relayout_count, 1);
    assert_eq!(state.perf.last_relayout_move_count, 0);
}

#[test]
fn pointer_speed_window_events_bypass_batch_debounce() {
    assert!(should_process_window_event_immediately(event(
        WindowEventKind::Moved,
        1
    )));
    assert!(should_process_window_event_immediately(event(
        WindowEventKind::MoveSizeStart,
        1
    )));
    assert!(should_process_window_event_immediately(event(
        WindowEventKind::MoveSizeEnd,
        1
    )));
    assert!(should_process_window_event_immediately(event(
        WindowEventKind::ForegroundChanged,
        1
    )));
    assert!(!should_process_window_event_immediately(event(
        WindowEventKind::Created,
        1
    )));
}

#[test]
fn ipc_state_snapshot_reports_observable_daemon_counts() {
    let mut state = daemon_state([
        window(1, "One", Rect::from_size(0, 0, 100, 100)),
        window(2, "Two", Rect::from_size(200, 0, 100, 100)),
    ]);
    state.foreground = Some(WindowHandle(2));
    state.set_window_participation(WindowHandle(1), WindowParticipation::Floating);
    state.workspaces.switch_to(WorkspaceId(2));

    let response = IpcResponse::state(state.state_snapshot_with_monitors(&[primary_test_monitor()]));

    let IpcResponse {
        result: IpcResponseResult::State(snapshot),
        ..
    } = response
    else {
        panic!("expected state response");
    };

    assert_eq!(snapshot.total_windows, 2);
    assert_eq!(snapshot.manageable_windows, 2);
    assert_eq!(snapshot.floating_windows, 1);
    assert_eq!(snapshot.temporary_floating_windows, 0);
    assert_eq!(snapshot.active_workspace, 2);
    assert_eq!(snapshot.foreground_window, Some(2));
    assert_eq!(snapshot.windows.len(), 2);
    assert_eq!(
        snapshot.windows[0].participation,
        WindowParticipationSnapshot::Floating
    );
    assert!(snapshot.windows[1].focused);
}

#[test]
fn state_snapshot_reports_constrained_floating_and_hidden_workspace_status() {
    let constrained = window(1, "Constrained", Rect::from_size(0, 0, 100, 100));
    let mut state = daemon_state([
        constrained,
        window(2, "Overflow", Rect::from_size(200, 0, 100, 100)),
    ]);
    state.size_constraints.insert(1, WindowSizeConstraints::minimum(500, 300));
    state.promote_overflow_window_to_floating(WindowHandle(2));
    state
        .workspaces
        .move_window_to_workspace(WindowHandle(2), WorkspaceId(2));

    let snapshot = state.state_snapshot_with_monitors(&[primary_test_monitor()]);

    assert_eq!(snapshot.windows.len(), 2);
    assert!(snapshot.windows[0].constrained);
    assert_eq!(
        snapshot.windows[1].participation,
        WindowParticipationSnapshot::Floating
    );
    assert!(!snapshot.windows[1].visible_on_active_workspace);
}

#[test]
fn config_diff_reports_reload_sections() {
    let old = Config::default();
    let mut new = old.clone();
    new.layout.gap = 8;
    new.borders.enabled = true;
    new.game_mode.game_exes.push("game.exe".to_owned());

    let diff = ConfigDiff::between(&old, &new);

    assert_eq!(diff.changed_sections, vec!["gaps", "borders", "game-mode"]);
}

#[test]
fn config_diff_reports_rule_only_reload_section() {
    let old = Config::default();
    let mut new = old.clone();
    new.window_rules.push(WindowRuleConfig {
        name: Some("game".to_owned()),
        matcher: WindowRuleMatch {
            process_name: Some(TextMatcher::Exact(
                "game.exe".to_owned(),
            )),
            ..WindowRuleMatch::default()
        },
        action: WindowRuleAction {
            mode: Some(WindowRuleMode::Game),
            ..WindowRuleAction::default()
        },
    });

    let diff = ConfigDiff::between(&old, &new);

    assert_eq!(diff.changed_sections, vec!["window-rules"]);
}

#[test]
fn rule_reload_updates_workspace_and_respects_explicit_float_state() {
    let mut state = daemon_state([
        window(1, "Editor", Rect::from_size(0, 0, 100, 100)),
        window(2, "Settings", Rect::from_size(200, 0, 100, 100)),
    ]);
    state.set_window_participation(WindowHandle(2), WindowParticipation::Floating);
    state.config.window_rules = vec![WindowRule {
        name: "settings to workspace two".to_owned(),
        matcher: WindowRuleMatch {
            title: Some(TextMatcher::Exact("Settings".to_owned())),
            ..WindowRuleMatch::default()
        },
        action: WindowRuleAction {
            target_workspace: Some(WorkspaceId(2)),
            ..WindowRuleAction::default()
        },
    }];

    state.reapply_window_rules_after_reload(&[primary_test_monitor()]);

    assert_eq!(
        state
            .workspaces
            .window_state(WindowHandle(2))
            .unwrap()
            .workspace,
        WorkspaceId(2)
    );
    assert_eq!(
        state.window_participation(WindowHandle(2)),
        WindowParticipation::Floating
    );
}

#[test]
fn rule_reload_only_tiles_floating_window_when_rule_says_so() {
    let mut state = daemon_state([window(1, "Settings", Rect::from_size(0, 0, 100, 100))]);
    state.set_window_participation(WindowHandle(1), WindowParticipation::Floating);
    state.config.window_rules = vec![WindowRule {
        name: "force settings tiled".to_owned(),
        matcher: WindowRuleMatch {
            title: Some(TextMatcher::Exact("Settings".to_owned())),
            ..WindowRuleMatch::default()
        },
        action: WindowRuleAction {
            float: Some(false),
            ..WindowRuleAction::default()
        },
    }];

    state.reapply_window_rules_after_reload(&[primary_test_monitor()]);

    assert_eq!(
        state.window_participation(WindowHandle(1)),
        WindowParticipation::Tiled
    );
}

#[test]
fn rule_reload_removes_ignored_windows_from_tiling_order() {
    let mut state = daemon_state([
        window(1, "Editor", Rect::from_size(0, 0, 100, 100)),
        window(2, "Tool", Rect::from_size(200, 0, 100, 100)),
    ]);
    state.config.window_rules = vec![WindowRule {
        name: "ignore tool".to_owned(),
        matcher: WindowRuleMatch {
            title: Some(TextMatcher::Exact("Tool".to_owned())),
            ..WindowRuleMatch::default()
        },
        action: WindowRuleAction {
            manage: Some(false),
            ..WindowRuleAction::default()
        },
    }];

    let stats = state.reapply_window_rules_after_reload(&[primary_test_monitor()]);

    assert_eq!(stats.removed_from_tile_order, 1);
    assert_eq!(state.tile_order, vec![WindowHandle(1)]);
    assert!(state.workspaces.window_state(WindowHandle(2)).is_none());
}

#[test]
fn rule_reload_removes_game_mode_windows_from_tiling_order() {
    let mut state = daemon_state([
        window(1, "Editor", Rect::from_size(0, 0, 100, 100)),
        window(2, "Game", Rect::from_size(200, 0, 100, 100)),
    ]);
    state.config.window_rules = vec![WindowRule {
        name: "game mode".to_owned(),
        matcher: WindowRuleMatch {
            title: Some(TextMatcher::Exact("Game".to_owned())),
            ..WindowRuleMatch::default()
        },
        action: WindowRuleAction {
            mode: Some(WindowRuleMode::Game),
            ..WindowRuleAction::default()
        },
    }];

    let stats = state.reapply_window_rules_after_reload(&[primary_test_monitor()]);

    assert_eq!(stats.removed_from_tile_order, 1);
    assert_eq!(state.tile_order, vec![WindowHandle(1)]);
    assert!(state.workspaces.window_state(WindowHandle(2)).is_none());
}

#[test]
fn border_candidates_use_focus_inactive_and_floating_colors() {
    let mut state = daemon_state([
        window(1, "One", Rect::from_size(0, 0, 100, 100)),
        window(2, "Two", Rect::from_size(200, 0, 100, 100)),
        window(3, "Three", Rect::from_size(400, 0, 100, 100)),
    ]);
    state.config.borders.enabled = true;
    state.config.borders.active_color = BorderColor::new(1, 2, 3);
    state.config.borders.inactive_color = BorderColor::new(4, 5, 6);
    state.config.borders.floating_color = BorderColor::new(7, 8, 9);
    state.foreground = Some(WindowHandle(2));
    state.set_window_participation(WindowHandle(3), WindowParticipation::Floating);

    let candidates = state.border_candidates(&[primary_test_monitor()]);

    assert_eq!(
        candidates
            .iter()
            .map(|candidate| (candidate.window, candidate.color))
            .collect::<Vec<_>>(),
        vec![
            (WindowHandle(1), BorderColor::new(4, 5, 6)),
            (WindowHandle(2), BorderColor::new(1, 2, 3)),
            (WindowHandle(3), BorderColor::new(7, 8, 9)),
        ]
    );
}

#[test]
fn border_candidates_hide_inactive_when_configured() {
    let mut state = daemon_state([
        window(1, "One", Rect::from_size(0, 0, 100, 100)),
        window(2, "Two", Rect::from_size(200, 0, 100, 100)),
    ]);
    state.config.borders.enabled = true;
    state.config.borders.show_inactive = false;
    state.foreground = Some(WindowHandle(2));

    let candidates = state.border_candidates(&[primary_test_monitor()]);

    assert_eq!(
        candidates
            .iter()
            .map(|candidate| candidate.window)
            .collect::<Vec<_>>(),
        vec![WindowHandle(2)]
    );
}

#[test]
fn border_updates_layer_floating_borders_above_focused_tiled_borders() {
    let mut state = daemon_state([
        window(1, "Focused Tiled", Rect::from_size(0, 0, 300, 300)),
        window(2, "Floating", Rect::from_size(200, 0, 300, 300)),
    ]);
    state.config.borders.enabled = true;
    state.foreground = Some(WindowHandle(1));
    state.set_window_participation(WindowHandle(2), WindowParticipation::Floating);

    let updates = state.border_updates(&[primary_test_monitor()], &SortedMap::new());

    assert_eq!(
        updates
            .iter()
            .map(|update| update.window)
            .collect::<Vec<_>>(),
        vec![WindowHandle(1), WindowHandle(2)]
    );
}

#[test]
fn border_updates_layer_focused_floating_border_above_other_floating_borders() {
    let mut state = daemon_state([
        window(1, "Floating", Rect::from_size(0, 0, 300, 300)),
        window(2, "Focused Floating", Rect::from_size(200, 0, 300, 300)),
        window(3, "Tiled", Rect::from_size(400, 0, 300, 300)),
    ]);
    state.config.borders.enabled = true;
    state.foreground = Some(WindowHandle(2));
    state.set_window_participation(WindowHandle(1), WindowParticipation::Floating);
    state.set_window_participation(WindowHandle(2), WindowParticipation::Floating);

    let updates = state.border_updates(&[primary_test_monitor()], &SortedMap::new());

    assert_eq!(
        updates
            .iter()
            .map(|update| update.window)
            .collect::<Vec<_>>(),
        vec![WindowHandle(3), WindowHandle(1), WindowHandle(2)]
    );
}

#[test]
fn border_candidates_hide_all_for_focused_fullscreen_window() {
    let mut state = daemon_state([
        window(1, "Fullscreen", primary_test_monitor().rect),
        window(2, "Two", Rect::from_size(200, 0, 100, 100)),
    ]);
    state.config.borders.enabled = true;
    state.foreground = Some(WindowHandle(1));

    let candidates = state.border_candidates(&[primary_test_monitor()]);

    assert!(candidates.is_empty());
}

#[test]
fn border_candidates_hide_all_while_game_mode_disables_borders() {
    let mut game = window(1, "Configured Game", Rect::from_size(0, 0, 100, 100));
    game.executable_path = Some(r"C:\Games\game.exe".to_owned());
    let mut state =
        daemon_state([game, window(2, "Editor", Rect::from_size(200, 0, 100, 100))]);
    state.config.borders.enabled = true;
    state.config.game_mode.policy.game_exes = vec!["game.exe".to_owned()];
    state.config.game_mode.disable_borders = true;
    state.foreground = Some(WindowHandle(1));

    update_game_mode(&mut state, &[primary_test_monitor()]);
    let candidates = state.border_candidates(&[primary_test_monitor()]);

    assert!(candidates.is_empty());
}

#[test]
fn game_mode_activates_for_focused_fullscreen_window_and_pauses_layout() {
    let monitor = primary_test_monitor();
    let mut state = daemon_state([
        window(1, "Fullscreen Game", monitor.rect),
        window(2, "Editor", Rect::from_size(200, 0, 100, 100)),
    ]);
    state.foreground = Some(WindowHandle(1));

    let transition = update_game_mode(&mut state, std::slice::from_ref(&monitor));
    let assignments = state.tile_assignments(std::slice::from_ref(&monitor), None);

    assert!(transition.activated);
    assert!(state.game_mode.active.is_some());
    assert!(assignments.is_empty());
}

#[test]
fn focused_monitor_game_mode_keeps_other_monitors_tiling() {
    let monitors = [primary_test_monitor(), secondary_test_monitor()];
    let mut state = daemon_state([
        window(1, "Fullscreen Game", monitors[0].rect),
        window(2, "Secondary Editor", Rect::from_size(1100, 0, 100, 100)),
    ]);
    state.foreground = Some(WindowHandle(1));
    state.config.game_mode.pause_focused_monitor_only = true;

    let transition = update_game_mode(&mut state, &monitors);
    let assignments = state.tile_assignments(&monitors, None);

    assert!(transition.activated);
    assert_eq!(
        state
            .game_mode
            .active
            .as_ref()
            .and_then(|active| active.monitor),
        Some(monitors[0].id)
    );
    assert_eq!(
        assignments,
        vec![TileAssignment {
            window: WindowHandle(2),
            rect: monitors[1].work_area,
        }]
    );
}

#[test]
fn configured_game_executable_is_not_manageable_or_tiled() {
    let monitor = primary_test_monitor();
    let mut game = window(1, "Configured Game", Rect::from_size(0, 0, 100, 100));
    game.executable_path = Some(r"C:\Games\cs2.exe".to_owned());
    let mut state =
        daemon_state([game, window(2, "Editor", Rect::from_size(200, 0, 100, 100))]);
    state.config.game_mode.policy.game_exes = vec!["cs2.exe".to_owned()];
    state.tile_order = state.manageable_handles_sorted();
    state.sync_workspace_state(std::slice::from_ref(&monitor));

    let assignments = state
        .plan_command(&DaemonCommand::Retile, std::slice::from_ref(&monitor), None)
        .moves;

    assert!(!state.is_manageable_window(WindowHandle(1), std::slice::from_ref(&monitor)));
    assert_eq!(
        assignments,
        vec![TileAssignment {
            window: WindowHandle(2),
            rect: monitor.work_area,
        }]
    );
}

#[test]
fn fullscreen_game_mode_exit_waits_for_confirmation_then_retiles() {
    let monitor = primary_test_monitor();
    let mut state = daemon_state([
        window(1, "Former Game", Rect::from_size(0, 0, 100, 100)),
        window(2, "Editor", Rect::from_size(200, 0, 100, 100)),
    ]);
    state.foreground = Some(WindowHandle(1));
    state.game_mode.active = Some(GameModeActivation {
        window: WindowHandle(1),
        title: "Former Game".to_owned(),
        executable_path: Some(r"C:\Games\game.exe".to_owned()),
        monitor: Some(monitor.id),
        reason: GameModeReason::Fullscreen {
            monitor: monitor.id,
            area: FullscreenArea::MonitorBounds,
        },
        actions: GameModeActions {
            pause_layouts: true,
            hide_borders: true,
            ..GameModeActions::default()
        },
        fullscreen: FullscreenDetection {
            is_fullscreen: true,
            monitor: Some(monitor.id),
            area: Some(FullscreenArea::MonitorBounds),
        },
    });

    let first_transition = update_game_mode(&mut state, std::slice::from_ref(&monitor));
    assert!(!first_transition.deactivated);
    assert!(state.game_mode.active.is_some());

    let transition = update_game_mode(&mut state, std::slice::from_ref(&monitor));
    let assignments = state.tile_assignments(std::slice::from_ref(&monitor), None);

    assert!(transition.deactivated);
    assert_eq!(assignments.len(), 2);
}

#[test]
fn default_runtime_config_is_that_of_the_default_settings() {
    assert_eq!(
        RuntimeConfig::from_config(&Config::default()).unwrap(),
        RuntimeConfig::default()
    );
}
