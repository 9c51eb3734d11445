use winland::commands::{
    CycleDirection, DaemonCommand, FocusDirection, HotkeyBindingConfig, HotkeyBindingError, MonitorSelector,
};
use winland::config::{BorderConfigError, Config, HotkeyMode, WindowRuleConfig};
use winland::daemon_commands::CommandRoute;
use winland::daemon_drag::DragReading;
use winland::daemon_events::{
    drag_poll, event_route, extend_batch, movesize_start_window, next_tracker_step, BatchInput,
    BatchStep, DragPoll, EventRoute, EventTiming, TrackerStep,
};
use winland::daemon_feedback::RelayoutProgress;
use winland::daemon_settings::ReloadStart;
use winland::daemon_snapshot::saturating_duration_millis;
use winland::daemon_state::DaemonState;
use winland::detection::{detect_fullscreen_window, detect_game_mode};
use winland::events::{window_event, WindowEvent, WindowEventKind};
use winland::game_mode::{FullscreenArea, GameModeReason};
use winland::geometry::{MonitorId, MonitorInfo, Point, Rect, WindowHandle};
use winland::hotkey_settings::HotkeySettingError;
use winland::layout::{LayoutKind, WindowParticipation};
use winland::rules::{TextMatcher, WindowRuleAction, WindowRuleMatch};
use winland::runtime_config::{parse_border_color, BorderColorError, RuntimeConfig};
use winland::size::WindowSizeConstraints;
use winland::sorted_map::SortedMap;
use winland::validation::SettingsError;
use winland::window::{WindowInfo, WindowStyles};
use winland::workspace::WorkspaceId;

fn primary() -> MonitorInfo {
    MonitorInfo {
        id: MonitorId(1),
        is_primary: true,
        rect: Rect::from_size(0, 0, 1000, 800),
        work_area: Rect::from_size(0, 0, 1000, 760),
    }
}

fn secondary() -> MonitorInfo {
    MonitorInfo {
        id: MonitorId(2),
        is_primary: false,
        rect: Rect::from_size(1000, 0, 800, 600),
        work_area: Rect::from_size(1000, 0, 800, 560),
    }
}

fn window(handle: u64, rect: Rect) -> WindowInfo {
    WindowInfo {
        handle: WindowHandle(handle),
        title: format!("Window {handle}"),
        class_name: "ApplicationFrameWindow".to_owned(),
        process_id: 42,
        executable_path: Some(r"C:\Tools\editor.exe".to_owned()),
        is_visible: true,
        is_minimized: false,
        is_dwm_cloaked: false,
        has_owner: false,
        is_tool_window: false,
        styles: WindowStyles {
            style: 0,
            extended_style: 0,
        },
        rect,
    }
}

fn small(handle: u64) -> WindowInfo {
    window(handle, Rect::from_size(10 * handle as i32, 10, 200, 100))
}

fn discovered(list: &[WindowInfo], foreground: Option<u64>) -> DaemonState {
    discovered_with(RuntimeConfig::default(), list, foreground)
}

fn discovered_with(
    config: RuntimeConfig,
    list: &[WindowInfo],
    foreground: Option<u64>,
) -> DaemonState {
    let mut windows = SortedMap::new();
    let mut limits = SortedMap::new();
    for window in list {
        windows.insert(window.handle.0, window.clone());
        limits.insert(window.handle.0, WindowSizeConstraints::none());
    }
    DaemonState::discover(
        config,
        windows,
        limits,
        foreground.map(WindowHandle),
        &[primary(), secondary()],
    )
}

fn monitors() -> Vec<MonitorInfo> {
    vec![primary(), secondary()]
}

fn handles(list: &[u64]) -> Vec<WindowHandle> {
    list.iter().map(|handle| WindowHandle(*handle)).collect()
}

fn sorted(mut list: Vec<WindowHandle>) -> Vec<u64> {
    list.sort();
    list.into_iter().map(|handle| handle.0).collect()
}

fn inside(inner: Rect, outer: Rect) -> bool {
    outer.left <= inner.left
        && outer.top <= inner.top
        && inner.right <= outer.right
        && inner.bottom <= outer.bottom
}

fn event(kind: WindowEventKind, handle: u64) -> WindowEvent {
    WindowEvent {
        kind,
        window: WindowHandle(handle),
        event_time: 0,
    }
}

fn no_reading() -> DragReading {
    DragReading {
        cursor: None,
        rect: None,
    }
}

#[test]
fn first_look_orders_the_managed_windows() {
    let mut tool = small(2);
    tool.is_tool_window = true;
    let state = discovered(&[small(3), tool, small(1)], Some(3));

    assert_eq!(state.tile_order, handles(&[1, 3]));
    assert_eq!(state.foreground, Some(WindowHandle(3)));
}

#[test]
fn startup_tiles_fit_the_monitors_of_their_windows() {
    let right = window(4, Rect::from_size(1200, 100, 200, 100));
    let mut state = discovered(&[small(1), small(2), small(3), right], Some(1));

    let tiles = state.startup_retile(&monitors(), None).unwrap();

    let placed: Vec<WindowHandle> = tiles.iter().map(|tile| tile.window).collect();
    assert_eq!(sorted(placed), vec![1, 2, 3, 4]);
    for tile in &tiles {
        let area = if tile.window == WindowHandle(4) {
            secondary().work_area
        } else {
            primary().work_area
        };
        assert!(inside(tile.rect, area));
    }
    assert_eq!(state.tile_order, handles(&[1, 2, 3, 4]));

    state.config.startup_retile = false;
    assert_eq!(state.startup_retile(&monitors(), None), None);
}

#[test]
fn startup_is_left_alone_while_a_game_has_the_focus() {
    let game = window(7, primary().rect);
    let mut state = discovered(&[small(1), game], Some(7));

    assert_eq!(state.startup_retile(&monitors(), None), None);
    assert!(state.game_mode.active.is_some());
    assert!(state.tile_assignments(&monitors(), None).is_empty());
}

#[test]
fn toggling_float_twice_changes_nothing() {
    let mut state = discovered(&[small(1), small(2)], Some(2));
    let command = DaemonCommand::ToggleFloat;

    state.plan_command(&command, &monitors(), None);
    assert_eq!(
        state.window_participation(WindowHandle(2)),
        WindowParticipation::Floating
    );
    assert_eq!(
        state.window_participation(WindowHandle(1)),
        WindowParticipation::Tiled
    );
    state.plan_command(&command, &monitors(), None);
    assert_eq!(
        state.window_participation(WindowHandle(2)),
        WindowParticipation::Tiled
    );
}

#[test]
fn commands_keep_the_windows() {
    let commands = [
        DaemonCommand::Focus(FocusDirection::Left),
        DaemonCommand::Swap(FocusDirection::Right),
        DaemonCommand::Retile,
        DaemonCommand::SwitchWorkspace(WorkspaceId(2)),
        DaemonCommand::MoveFocusedToWorkspace(WorkspaceId(3)),
        DaemonCommand::MoveFocusedToMonitor(MonitorSelector::Next),
        DaemonCommand::FocusMonitor(MonitorSelector::Prev),
    ];
    for command in commands {
        let mut state = discovered(&[small(1), small(2), small(3)], Some(2));
        state.plan_command(&command, &monitors(), None);
        assert_eq!(state.windows.len(), 3);
        assert_eq!(sorted(state.tile_order.clone()), vec![1, 2, 3]);
    }
}

#[test]
fn moved_window_is_on_its_workspace() {
    let mut state = discovered(&[small(1), small(2)], Some(2));

    let plan = state.plan_command(
        &DaemonCommand::MoveFocusedToWorkspace(WorkspaceId(4)),
        &monitors(),
        None,
    );

    let moved = state.workspaces.window_state(WindowHandle(2)).unwrap();
    assert_eq!(moved.workspace, WorkspaceId(4));
    assert_eq!(plan.hide, handles(&[2]));
    assert_eq!(plan.focus, Some(WindowHandle(1)));
}

#[test]
fn sent_workspace_is_shown_on_its_monitor() {
    let mut state = discovered(&[small(1)], Some(1));

    state.plan_command(
        &DaemonCommand::SendWorkspaceToMonitor {
            workspace: WorkspaceId(1),
            monitor: MonitorSelector::Id(MonitorId(2)),
        },
        &monitors(),
        None,
    );

    assert_eq!(
        state.workspaces.active_workspace_for_monitor(MonitorId(2)),
        WorkspaceId(1)
    );
}

#[test]
fn switch_shows_the_workspace_and_hides_only_safe_windows() {
    let fullscreen = window(7, primary().rect);
    let mut state = discovered(&[small(1), fullscreen], Some(1));

    let plan = state.plan_command(
        &DaemonCommand::SwitchWorkspace(WorkspaceId(3)),
        &[primary()],
        None,
    );

    assert_eq!(plan.hide, handles(&[1]));
    assert_eq!(
        state.workspaces.active_workspace_for_monitor(MonitorId(1)),
        WorkspaceId(3)
    );
}

#[test]
fn renewed_state_keeps_participation_and_forgets_windows_that_are_gone() {
    let mut state = discovered(&[small(1), small(2), small(3)], Some(1));
    state.plan_command(&DaemonCommand::ToggleFloat, &monitors(), None);
    let refreshed = discovered(&[small(1), small(3)], Some(3));

    let diff = state.adopt(refreshed, &monitors());

    assert_eq!(diff.removed, handles(&[2]));
    assert!(diff.added.is_empty());
    assert_eq!(
        state.window_participation(WindowHandle(1)),
        WindowParticipation::Floating
    );
    assert!(state.workspaces.window_state(WindowHandle(2)).is_none());
}

#[test]
fn same_windows_differ_in_nothing() {
    let state = discovered(&[small(1), small(2)], Some(1));
    let again = discovered(&[small(1), small(2)], Some(1));

    let diff = state.diff(&again, &monitors());

    assert!(diff.added.is_empty() && diff.removed.is_empty());
    assert_eq!((diff.changed, diff.moved_between_monitors), (0, 0));
    assert!(!diff.foreground_changed);
}

#[test]
fn dragged_window_is_tiled_again_when_it_is_let_go() {
    let mut state = discovered(&[small(1), small(2)], Some(1));
    let order = state.tile_order.clone();

    state.handle_movesize_start(WindowHandle(1), no_reading(), &monitors());
    assert_eq!(
        state.window_participation(WindowHandle(1)),
        WindowParticipation::TemporarilyFloating
    );
    assert_eq!(state.tile_order, order);
    state.handle_movesize_end(WindowHandle(1), &monitors(), None);
    assert_eq!(
        state.window_participation(WindowHandle(1)),
        WindowParticipation::Tiled
    );
    assert_eq!(sorted(state.tile_order.clone()), vec![1, 2]);
}

#[test]
fn dropped_window_stays_in_the_order_once() {
    let mut state = discovered(&[small(1), small(2), small(3)], Some(1));

    state.reinsert_window_after_target(WindowHandle(1), WindowHandle(3));
    assert_eq!(state.tile_order, handles(&[2, 3, 1]));
    state.reinsert_window_at_local_index(WindowHandle(1), &handles(&[2, 3]), 1);
    assert_eq!(state.tile_order, handles(&[2, 1, 3]));
}

#[test]
fn placed_window_is_left_alone() {
    let mut state = discovered(&[window(1, primary().work_area)], None);
    state.config.game_mode.policy.enabled = false;
    let tiles = state.tile_assignments(&[primary()], None);
    let progress = RelayoutProgress::new();

    let (moves, counted) = state.next_moves(progress, &tiles, &[primary()]);

    assert!(moves.is_empty());
    assert_eq!(counted.applied_count, 0);
}

#[test]
fn least_sizes_are_learned_and_tiled_for() {
    let mut state = discovered(&[small(1), small(2)], Some(1));
    let tiles = state.tile_assignments(&[primary()], None);
    let (moves, progress) = state.next_moves(RelayoutProgress::new(), &tiles, &[primary()]);
    assert_eq!(moves.len(), 2);

    let wide = Rect::from_size(0, 0, 700, 760);
    let actual = [Some(wide), Some(moves[1].rect)];
    let next = state
        .after_moves(progress, &moves, &actual, &[primary()], None)
        .unwrap();

    assert_eq!(
        state.learned_size_constraints.get(1),
        Some(&WindowSizeConstraints::minimum(700, 760))
    );
    assert!(next[0].rect.width() >= 700);
    state.record_relayout_result(progress, 12);
    assert_eq!(state.perf.relayout_count, 1);
    assert_eq!(state.perf.last_relayout_duration_ms, 12);
}

#[test]
fn game_mode_follows_its_settings() {
    let game = window(7, primary().rect);
    let mut config = RuntimeConfig::default();
    let policy = &mut config.game_mode.policy;

    let found = detect_game_mode(Some(&game), &monitors(), &[], policy);
    assert_eq!(
        found.reason,
        Some(GameModeReason::Fullscreen {
            monitor: MonitorId(1),
            area: FullscreenArea::MonitorBounds,
        })
    );
    policy.pause_on_fullscreen = false;
    assert!(!detect_game_mode(Some(&game), &monitors(), &[], policy).active);
    policy.game_exes = vec!["EDITOR.exe".to_owned()];
    assert_eq!(
        detect_game_mode(Some(&game), &monitors(), &[], policy).reason,
        Some(GameModeReason::ConfiguredExecutable("editor.exe".to_owned()))
    );
    policy.ignored_exes = vec!["editor.exe".to_owned()];
    assert!(!detect_game_mode(Some(&game), &monitors(), &[], policy).active);
    policy.ignored_exes.clear();
    policy.enabled = false;
    assert!(!detect_game_mode(Some(&game), &monitors(), &[], policy).active);
    assert!(!detect_game_mode(None, &monitors(), &[], policy).active);
    assert!(detect_fullscreen_window(&game, &monitors(), 0).is_fullscreen);
    assert!(!detect_fullscreen_window(&small(1), &monitors(), 0).is_fullscreen);
}

#[test]
fn game_that_loses_the_focus_ends_at_once() {
    let game = window(7, primary().rect);
    let mut state = discovered(&[small(1), game], Some(7));
    assert!(state.update_game_mode(&monitors()).activated);
    assert_eq!(
        state.command_route(&DaemonCommand::Retile),
        CommandRoute::Ignore
    );
    assert_eq!(
        state.command_route(&DaemonCommand::Quit),
        CommandRoute::Plan
    );

    let retile = state.note_foreground(Some(WindowHandle(1)), &monitors());

    assert!(retile);
    assert!(state.game_mode.active.is_none());
    assert_eq!(
        state.command_route(&DaemonCommand::Retile),
        CommandRoute::Plan
    );
    assert_eq!(
        state.command_route(&DaemonCommand::Reload),
        CommandRoute::Reload
    );
    assert_eq!(
        state.command_route(&DaemonCommand::Launch("wt".to_owned())),
        CommandRoute::Launch
    );
}

#[test]
fn game_on_one_monitor_leaves_the_other_tiled() {
    let game = window(7, primary().rect);
    let right = window(4, Rect::from_size(1200, 100, 200, 100));
    let mut config = RuntimeConfig::default();
    config.game_mode.pause_focused_monitor_only = true;
    let mut state = discovered_with(config, &[small(1), game, right], Some(7));
    state.update_game_mode(&monitors());

    let tiles = state.tile_assignments(&monitors(), None);

    assert_eq!(tiles.len(), 1);
    assert_eq!(tiles[0].window, WindowHandle(4));
}

#[test]
fn borders_are_not_seen_while_they_are_off() {
    let mut state = discovered(&[small(1), small(2)], Some(1));
    assert!(state.border_candidates(&monitors()).is_empty());
    assert!(state
        .border_updates(&monitors(), &SortedMap::new())
        .iter()
        .all(|update| !update.visible));

    state.config.borders.enabled = true;
    let updates = state.border_updates(&monitors(), &SortedMap::new());
    assert_eq!(updates.len(), 2);
    assert!(updates.iter().all(|update| update.visible));
    assert_eq!(updates[1].window, WindowHandle(1));
}

#[test]
fn events_are_gathered_and_routed() {
    let state = discovered(&[small(1)], Some(1));
    let moved = event(WindowEventKind::Moved, 1);
    assert_eq!(state.event_timing(moved), EventTiming::After(8));
    assert_eq!(
        state.event_timing(event(WindowEventKind::Created, 1)),
        EventTiming::After(50)
    );
    assert_eq!(
        state.event_timing(event(WindowEventKind::ForegroundChanged, 1)),
        EventTiming::Now
    );

    let mut batch = vec![moved];
    assert_eq!(extend_batch(&mut batch, BatchInput::Other), BatchStep::Wait);
    assert_eq!(
        extend_batch(&mut batch, BatchInput::Window(moved)),
        BatchStep::Wait
    );
    assert_eq!(
        extend_batch(&mut batch, BatchInput::Silence),
        BatchStep::Handle
    );
    assert_eq!(
        extend_batch(&mut batch, BatchInput::Shutdown),
        BatchStep::Stop
    );
    assert_eq!(batch.len(), 2);

    assert_eq!(event_route(&[]), EventRoute::Nothing);
    assert_eq!(event_route(&batch), EventRoute::Moves);
    assert_eq!(
        event_route(&[event(WindowEventKind::MoveSizeEnd, 1)]),
        EventRoute::MoveSize
    );
    assert_eq!(
        event_route(&[event(WindowEventKind::ForegroundChanged, 1)]),
        EventRoute::Foreground
    );
    assert_eq!(
        event_route(&[moved, event(WindowEventKind::Created, 2)]),
        EventRoute::Everything
    );
    assert_eq!(
        movesize_start_window(&[moved, event(WindowEventKind::MoveSizeStart, 2)]),
        Some(WindowHandle(2))
    );
}

#[test]
fn tracker_follows_the_drag() {
    let one = Some(WindowHandle(1));
    let two = Some(WindowHandle(2));

    assert_eq!(
        next_tracker_step(None, one, &[]),
        TrackerStep {
            stop: false,
            start: one,
        }
    );
    assert_eq!(
        next_tracker_step(one, one, &[]),
        TrackerStep {
            stop: false,
            start: None,
        }
    );
    assert_eq!(
        next_tracker_step(one, two, &[]),
        TrackerStep {
            stop: true,
            start: two,
        }
    );
    assert_eq!(
        next_tracker_step(one, None, &[event(WindowEventKind::MoveSizeEnd, 1)]),
        TrackerStep {
            stop: true,
            start: None,
        }
    );
}

#[test]
fn poll_tells_what_the_mouse_does() {
    let here = Point { x: 4, y: 5 };
    let there = Point { x: 4, y: 6 };

    assert_eq!(drag_poll(false, None, Some(here)), DragPoll::Ended);
    assert_eq!(drag_poll(true, None, Some(here)), DragPoll::Moved(here));
    assert_eq!(
        drag_poll(true, Some(here), Some(there)),
        DragPoll::Moved(there)
    );
    assert_eq!(drag_poll(true, Some(here), Some(here)), DragPoll::Still);
    assert_eq!(drag_poll(true, Some(here), None), DragPoll::Lost);
}

#[test]
fn moved_windows_are_noted_and_retiled_on_another_monitor() {
    let mut state = discovered(&[small(1), small(2)], Some(1));
    let batch = [
        event(WindowEventKind::Moved, 2),
        event(WindowEventKind::Moved, 2),
    ];
    assert_eq!(state.moved_windows(&batch), Some(handles(&[2])));
    assert_eq!(
        state.moved_windows(&[event(WindowEventKind::Moved, 9)]),
        None
    );

    let there = Rect::from_size(1200, 100, 200, 100);
    let outcome = state.reconcile_moved_windows(&handles(&[2]), &[there], &monitors());

    assert!(outcome.retile_for_monitor);
    assert!(!outcome.retile_after_game);
    assert_eq!(state.windows.get(2).unwrap().rect, there);
}

#[test]
fn only_reports_of_windows_become_events() {
    let handle = WindowHandle(1);
    assert_eq!(
        window_event(0x8000, handle, 0, 0, 5, false),
        Some(WindowEvent {
            kind: WindowEventKind::Created,
            window: handle,
            event_time: 5,
        })
    );
    assert_eq!(window_event(0x8000, handle, 0, 0, 5, true), None);
    assert_eq!(window_event(0x8000, handle, 1, 0, 5, false), None);
    assert_eq!(window_event(0x1234, handle, 0, 0, 5, false), None);
    assert_eq!(window_event(0x8000, WindowHandle(0), 0, 0, 5, false), None);
}

fn reload(new_config: &Config) -> (Result<(Vec<String>, ReloadStart), SettingsError>, u64) {
    let mut state = discovered(&[], None);
    let begun = state
        .begin_reload(&Config::default(), new_config)
        .map(|(diff, start)| (diff.changed_sections, start));
    (begun, state.perf.config_reload_count)
}

#[test]
fn unchanged_settings_begin_nothing() {
    let (begun, count) = reload(&Config::default());

    assert_eq!(begun, Ok((vec!["none".to_owned()], ReloadStart::Unchanged)));
    assert_eq!(count, 1);
}

#[test]
fn changed_settings_begin_with_what_the_daemon_needs() {
    let mut config = Config::default();
    config.layout.default = "dwindle".to_owned();
    config.layout.gap = 8;
    config.hotkeys.bindings.push(HotkeyBindingConfig {
        keys: "Win+R".to_owned(),
        command: Some("retile".to_owned()),
        launch: None,
        override_app: false,
    });
    config.window_rules.push(WindowRuleConfig {
        name: None,
        matcher: WindowRuleMatch {
            title: Some(TextMatcher::Contains("Notes".to_owned())),
            ..WindowRuleMatch::default()
        },
        action: WindowRuleAction {
            float: Some(true),
            ..WindowRuleAction::default()
        },
    });

    let (sections, start) = reload(&config).0.unwrap();

    assert_eq!(sections, vec!["hotkeys", "layout", "gaps", "window-rules"]);
    match start {
        ReloadStart::Changed {
            config,
            bindings,
            commands,
        } => {
            assert_eq!(config.layout.kind, LayoutKind::Dwindle);
            assert_eq!(config.layout.gap, 8);
            assert_eq!(config.window_rules[0].name, "rule-1");
            assert_eq!(config.window_rules[0].action.float, Some(true));
            assert_eq!(bindings.len(), 1);
            assert_eq!(commands.commands, vec![DaemonCommand::Retile]);
        }
        other => panic!("{other:?}"),
    }
}

#[test]
fn unusable_settings_are_refused() {
    let mut config = Config::default();
    config.hotkeys.bindings.push(HotkeyBindingConfig {
        keys: "Win+R".to_owned(),
        command: None,
        launch: None,
        override_app: false,
    });
    assert_eq!(
        reload(&config).0,
        Err(SettingsError::Hotkey {
            place: 0,
            error: HotkeySettingError::Binding(HotkeyBindingError::NothingSet),
        })
    );
    config.borders.active_color = "red".to_owned();
    assert_eq!(
        reload(&config).0,
        Err(SettingsError::Borders(BorderConfigError::ActiveColor(
            BorderColorError::Syntax
        )))
    );
    config.borders.active_color = "#000000".to_owned();
    config.borders.inactive_color = "#12345g".to_owned();
    assert_eq!(
        reload(&config).0,
        Err(SettingsError::Borders(BorderConfigError::InactiveColor(
            BorderColorError::Digits
        )))
    );
    config.borders.inactive_color = "#000000".to_owned();
    config.borders.floating_color = "000000".to_owned();
    assert_eq!(
        reload(&config).0,
        Err(SettingsError::Borders(BorderConfigError::FloatingColor(
            BorderColorError::Syntax
        )))
    );
    assert_eq!(reload(&config).1, 0);
    let color = parse_border_color("#0A0b0C").unwrap();
    assert_eq!((color.red, color.green, color.blue), (10, 11, 12));
}

#[test]
fn committed_reload_hides_and_tiles_as_the_new_rules_say() {
    let mut state = discovered(&[small(1), small(2)], Some(1));
    let mut config = Config::default();
    config.window_rules.push(WindowRuleConfig {
        name: Some("away".to_owned()),
        matcher: WindowRuleMatch {
            title: Some(TextMatcher::Exact("Window 2".to_owned())),
            ..WindowRuleMatch::default()
        },
        action: WindowRuleAction {
            target_workspace: Some(WorkspaceId(5)),
            ..WindowRuleAction::default()
        },
    });
    let runtime = RuntimeConfig::from_config(&config).unwrap();
    let mut refreshed = discovered_with(runtime, &[small(1), small(2)], Some(1));

    state.prepare_reload(&mut refreshed, &monitors());
    let plan = state
        .commit_reload(
            refreshed,
            Some("winland.toml".to_owned()),
            99,
            &monitors(),
            None,
        )
        .unwrap();

    assert_eq!(plan.visibility.hide, handles(&[2]));
    assert_eq!(plan.moves.len(), 1);
    assert_eq!(plan.moves[0].window, WindowHandle(1));
    assert_eq!(state.config_version, 2);
    let report = state.reload_report(vec!["window-rules".to_owned()], 99, &monitors());
    assert_eq!(report.config_path.as_deref(), Some("winland.toml"));
    assert_eq!(report.reloaded_at_unix_ms, 99);
}

#[test]
fn modifier_drag_moves_and_drops_its_window() {
    let mut state = discovered(&[small(1), small(2)], Some(2));
    let start = Point { x: 20, y: 20 };
    let reading = DragReading {
        cursor: Some(start),
        rect: None,
    };

    let tiles = state.start_modifier_drag(
        WindowHandle(1),
        start,
        small(1).rect,
        reading,
        &monitors(),
    );
    assert_eq!(tiles.unwrap().len(), 1);
    assert_eq!(state.foreground, Some(WindowHandle(1)));
    let cursor = Point { x: 50, y: 25 };
    let moved = state.move_modifier_drag(WindowHandle(1), cursor).unwrap();
    assert_eq!(moved.left, small(1).rect.left + 30);
    assert_eq!(state.move_modifier_drag(WindowHandle(2), cursor), None);
    let (drag, rect) = state.end_modifier_drag(WindowHandle(1), cursor).unwrap();
    assert_eq!(rect, moved);
    let tiles = state.drop_modifier_drag(drag, cursor, rect, &monitors(), None);
    assert_eq!(tiles.unwrap().len(), 2);
    assert_eq!(
        state.window_participation(WindowHandle(1)),
        WindowParticipation::Tiled
    );
}

#[test]
fn durations_are_held_within_their_range() {
    assert_eq!(saturating_duration_millis(2, 345_678_901), 2345);
    assert_eq!(saturating_duration_millis(u64::MAX, 0), u64::MAX);
}

#[test]
fn floating_window_stays_floating_when_picked_up() {
    let mut state = discovered(&[small(1), small(2)], Some(2));
    state.plan_command(&DaemonCommand::ToggleFloat, &monitors(), None);

    state.handle_movesize_start(WindowHandle(2), no_reading(), &monitors());

    assert_eq!(
        state.window_participation(WindowHandle(2)),
        WindowParticipation::Floating
    );
}

#[test]
fn focus_goes_to_the_nearest_window() {
    let near = window(1, Rect::from_size(300, 0, 100, 100));
    let far = window(2, Rect::from_size(600, 0, 100, 100));
    let current = window(3, Rect::from_size(0, 0, 100, 100));
    let mut state = discovered(&[near, far, current], Some(3));

    let plan = state.plan_command(
        &DaemonCommand::Focus(FocusDirection::Right),
        &[primary()],
        None,
    );

    assert_eq!(plan.focus, Some(WindowHandle(1)));
    assert_eq!(state.foreground, Some(WindowHandle(1)));
}

#[test]
fn workspaces_stand_in_a_circle() {
    let mut state = discovered(&[small(1)], Some(1));
    let shown = |state: &DaemonState| state.workspaces.active_workspace_for_monitor(MonitorId(1));
    let first = shown(&state);

    for direction in [CycleDirection::Prev, CycleDirection::Next] {
        state.plan_command(
            &DaemonCommand::SwitchWorkspaceRelative(direction),
            &[primary()],
            None,
        );
    }

    assert_eq!(shown(&state), first);
}

#[test]
fn window_moved_to_a_monitor_belongs_to_it() {
    let mut state = discovered(&[small(1), small(2)], Some(2));

    let plan = state.plan_command(
        &DaemonCommand::MoveFocusedToMonitor(MonitorSelector::Index(2)),
        &monitors(),
        None,
    );

    assert_eq!(
        state.window_owner_monitor(WindowHandle(2), &monitors()),
        Some(MonitorId(2))
    );
    let moved = state.workspaces.window_state(WindowHandle(2)).unwrap();
    assert_eq!(
        moved.workspace,
        state.workspaces.active_workspace_for_monitor(MonitorId(2))
    );
    assert_eq!(plan.focus, Some(WindowHandle(2)));
    assert_eq!(
        state.resolve_monitor_selector(MonitorSelector::Index(3), &monitors()),
        None
    );
}

#[test]
fn validation_finds_what_cannot_be_used() {
    let mut config = Config::default();
    assert_eq!(config.validate(), Ok(()));

    config.hotkeys.modifier_drag.enabled = true;
    config.hotkeys.modifier_drag.modifiers = "Hyper".to_owned();
    assert_eq!(config.validate(), Err(SettingsError::ModifierDrag));
    config.hotkeys.mode = HotkeyMode::AdvancedInterception;
    config.hotkeys.panic_hotkey = "Ctrl+Nothing".to_owned();
    assert_eq!(config.validate(), Err(SettingsError::PanicHotkey));
    for keys in ["Win+R", "Win+Nothing"] {
        config.hotkeys.bindings.push(HotkeyBindingConfig {
            keys: keys.to_owned(),
            command: Some("retile".to_owned()),
            launch: None,
            override_app: false,
        });
    }
    let place = config.hotkeys.bindings.len() - 1;
    assert_eq!(
        config.validate(),
        Err(SettingsError::Hotkey {
            place,
            error: HotkeySettingError::UnknownKeys,
        })
    );
    config.hotkeys.mode = HotkeyMode::Normal;
    config.hotkeys.bindings.pop();
    config.hotkeys.modifier_drag.enabled = false;
    assert_eq!(config.validate(), Ok(()));
}

#[test]
fn events_do_not_lengthen_the_order() {
    let mut state = discovered(&[small(1), small(2), small(3)], Some(1));
    let mut hidden = small(4);
    hidden.is_visible = false;
    let refreshed = discovered(&[small(1), small(2), small(3), hidden], Some(1));
    let batch = [
        event(WindowEventKind::MoveSizeStart, 1),
        event(WindowEventKind::MoveSizeEnd, 1),
        event(WindowEventKind::MoveSizeStart, 4),
        event(WindowEventKind::MoveSizeEnd, 4),
    ];

    let (_, moves) = state.reconcile_refreshed(
        refreshed,
        &batch,
        &[no_reading(), no_reading(), no_reading(), no_reading()],
        &monitors(),
        None,
    );

    assert!(moves.is_some());
    assert_eq!(sorted(state.tile_order.clone()), vec![1, 2, 3]);
    assert_eq!(
        state.window_participation(WindowHandle(1)),
        WindowParticipation::Tiled
    );
}
