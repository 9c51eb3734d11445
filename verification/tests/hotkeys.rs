use winland::chord::{parse_hotkey_chord, parse_hotkey_modifiers};
use winland::commands::{
    format_hotkey_registration_failures, hotkey_low_level_label, DaemonCommand,
    HotkeyBindingConfig, HotkeyBindingError, HotkeyChord, HotkeyKey, HotkeyModifier,
};
use winland::config::{hotkey_bypass_rules_from_config, Config, HotkeyMode};
use winland::geometry::{MonitorId, MonitorInfo, Rect};
use winland::hotkey::{
    benchmark_hotkey_decision_path, classify_intercepted_hotkey, handle_key_message,
    hotkey_modifiers, longest_of, HotkeyBinding, HotkeyBypassRules, HotkeyDecisionBenchmark,
    HotkeyId, HotkeyInterceptionDecision, HotkeyLowLevelEvent, HotkeyModifierSet,
    HotkeyOverrideOptions, HotkeyRegistrationFailure, HotkeyWindowContext, KeyInput, KeyOutcome,
    VirtualKey,
};
use winland::hotkey_settings::{
    hotkey_bindings_from_config, hotkey_override_options_from_config,
    modifier_drag_options_from_config, HotkeySettingError,
};
use winland::placement::{
    extended_style_is_tool_window, fills_monitor_without_frame, rect_covers_any_monitor,
};
use winland::rules::TextMatcher;
use winland::size::{constraints_from_min_track_size, plausible_min_track_size, Size};

fn test_options() -> HotkeyOverrideOptions {
    HotkeyOverrideOptions {
        panic_hotkey: HotkeyLowLevelEvent {
            modifiers: HotkeyModifierSet::new().control().alt().shift(),
            virtual_key: VirtualKey::escape(),
        },
        bypass: HotkeyBypassRules {
            fullscreen: true,
            ..HotkeyBypassRules::default()
        },
        latency_budget_micros: 250,
    }
}

#[test]
fn override_decision_dispatches_and_suppresses_matching_binding() {
    let binding = HotkeyBinding::new(
        HotkeyId(7),
        HotkeyModifierSet::new().control().alt(),
        VirtualKey::ascii_uppercase(b'H'),
        "focus-left",
    )
    .with_suppression(true);
    let options = test_options();
    let event = HotkeyLowLevelEvent {
        modifiers: HotkeyModifierSet::new().control().alt(),
        virtual_key: VirtualKey::ascii_uppercase(b'H'),
    };

    assert_eq!(
        classify_intercepted_hotkey(&event, &[binding], &options, None),
        HotkeyInterceptionDecision::Dispatch {
            id: HotkeyId(7),
            suppress: true,
        }
    );
}

#[test]
fn override_decision_never_dispatches_panic_hotkey() {
    let binding = HotkeyBinding::new(
        HotkeyId(1),
        HotkeyModifierSet::new().control().alt().shift(),
        VirtualKey::escape(),
        "quit",
    )
    .with_suppression(true);
    let options = test_options();

    assert_eq!(
        classify_intercepted_hotkey(&options.panic_hotkey, &[binding], &options, None),
        HotkeyInterceptionDecision::PassThrough {
            reason: "panic hotkey",
        }
    );
}

#[test]
fn override_decision_bypasses_fullscreen_and_configured_games() {
    let binding = HotkeyBinding::new(
        HotkeyId(1),
        HotkeyModifierSet::new().control().alt(),
        VirtualKey::ascii_uppercase(b'H'),
        "focus-left",
    )
    .with_suppression(true);
    let event = HotkeyLowLevelEvent {
        modifiers: HotkeyModifierSet::new().control().alt(),
        virtual_key: VirtualKey::ascii_uppercase(b'H'),
    };
    let mut options = test_options();
    options.bypass.process_names = vec![TextMatcher::Exact("game.exe".to_owned())];

    let fullscreen = HotkeyWindowContext {
        class_name: "GameWindow".to_owned(),
        executable_path: Some(r"C:\Games\other.exe".to_owned()),
        is_fullscreen: true,
    };
    let configured_game = HotkeyWindowContext {
        class_name: "Window".to_owned(),
        executable_path: Some(r"C:\Games\game.exe".to_owned()),
        is_fullscreen: false,
    };

    assert_eq!(
        classify_intercepted_hotkey(
            &event,
            std::slice::from_ref(&binding),
            &options,
            Some(&fullscreen)
        ),
        HotkeyInterceptionDecision::PassThrough {
            reason: "game-safe bypass",
        }
    );
    assert_eq!(
        classify_intercepted_hotkey(&event, &[binding], &options, Some(&configured_game)),
        HotkeyInterceptionDecision::PassThrough {
            reason: "game-safe bypass",
        }
    );
}

#[test]
fn work_area_rect_is_fullscreen_for_hotkey_bypass() {
    let monitors = [MonitorInfo {
        id: MonitorId(1),
        is_primary: true,
        rect: Rect::from_size(0, 0, 1000, 800),
        work_area: Rect::from_size(0, 0, 1000, 760),
    }];

    assert!(rect_covers_any_monitor(monitors[0].rect, &monitors));
    assert!(rect_covers_any_monitor(monitors[0].work_area, &monitors));
}

#[test]
fn minmax_constraints_only_trust_plausible_minimums() {
    assert!(plausible_min_track_size(Size::new(320, 240)));
    assert!(!plausible_min_track_size(Size::new(0, 0)));
    assert!(!plausible_min_track_size(Size::new(30_000, 240)));
}

#[test]
fn hotkey_decision_benchmark_records_iterations() {
    let options = test_options();
    let event = HotkeyLowLevelEvent {
        modifiers: HotkeyModifierSet::new(),
        virtual_key: VirtualKey::space(),
    };

    let benchmark = benchmark_hotkey_decision_path(&event, &[], &options, None, 8);

    assert_eq!(benchmark.iterations, 8);
    assert!(benchmark.total >= benchmark.average);
}

#[test]
fn unbound_key_passes() {
    let event = HotkeyLowLevelEvent {
        modifiers: HotkeyModifierSet::new(),
        virtual_key: VirtualKey::space(),
    };

    assert_eq!(
        classify_intercepted_hotkey(&event, &[], &test_options(), None),
        HotkeyInterceptionDecision::PassThrough {
            reason: "unbound key",
        }
    );
}

#[test]
fn upper_and_lower_case_of_a_process_name_are_the_same() {
    let mut options = test_options();
    options.bypass.process_names = vec![TextMatcher::Exact("GAME.EXE".to_owned())];
    let event = HotkeyLowLevelEvent {
        modifiers: HotkeyModifierSet::new(),
        virtual_key: VirtualKey::space(),
    };
    let game = HotkeyWindowContext {
        class_name: "Window".to_owned(),
        executable_path: Some(r"C:\Games\Game.exe".to_owned()),
        is_fullscreen: false,
    };

    assert_eq!(
        classify_intercepted_hotkey(&event, &[], &options, Some(&game)),
        HotkeyInterceptionDecision::PassThrough {
            reason: "game-safe bypass",
        }
    );
}

#[test]
fn modifier_bits_are_those_of_the_desktop() {
    assert_eq!(
        hotkey_modifiers(HotkeyModifierSet::new().alt().control()),
        0x4003
    );
    assert_eq!(
        hotkey_modifiers(HotkeyModifierSet::new().shift().super_key()),
        0x400C
    );
}

#[test]
fn low_level_label_names_the_keys() {
    assert_eq!(
        hotkey_low_level_label(&test_options().panic_hotkey),
        "Ctrl+Alt+Shift+Escape"
    );
}

#[test]
fn implausible_minimum_is_no_limit() {
    assert!(constraints_from_min_track_size(Some(Size::new(0, 0))).is_unconstrained());
    assert_eq!(
        constraints_from_min_track_size(Some(Size::new(320, 240))).min,
        Size::new(320, 240)
    );
    assert!(constraints_from_min_track_size(None).is_unconstrained());
}

fn binding(command: Option<&str>, launch: Option<&str>) -> HotkeyBindingConfig {
    HotkeyBindingConfig {
        keys: "Win+R".to_owned(),
        command: command.map(str::to_owned),
        launch: launch.map(str::to_owned),
        override_app: true,
    }
}

fn hotkey_settings(mode: HotkeyMode, bindings: Vec<HotkeyBindingConfig>) -> Config {
    let mut config = Config::default();
    config.hotkeys.mode = mode;
    config.hotkeys.bindings = bindings;
    config
}

#[test]
fn bindings_are_numbered_from_one_on() {
    let configured = vec![
        binding(Some(" retile "), None),
        binding(None, Some(" wt.exe ")),
    ];
    let intercepting = hotkey_settings(HotkeyMode::AdvancedInterception, configured.clone());

    let (bindings, commands) = hotkey_bindings_from_config(&intercepting).unwrap();

    assert_eq!(bindings[0].id, HotkeyId(1));
    assert_eq!(bindings[0].description, "retile");
    assert_eq!(bindings[1].description, "launch wt.exe");
    assert!(bindings[0].suppress_app);
    assert_eq!(bindings[0].modifiers, HotkeyModifierSet::new().super_key());
    assert_eq!(bindings[0].virtual_key, VirtualKey::ascii_uppercase(b'R'));
    assert_eq!(commands.command(HotkeyId(1)), Some(&DaemonCommand::Retile));
    assert_eq!(
        commands.command(HotkeyId(2)),
        Some(&DaemonCommand::Launch("wt.exe".to_owned()))
    );
    assert_eq!(commands.command(HotkeyId(3)), None);
    assert_eq!(commands.command(HotkeyId(0)), None);

    let normal = hotkey_settings(HotkeyMode::Normal, configured);
    let (bindings, _) = hotkey_bindings_from_config(&normal).unwrap();
    assert!(!bindings[0].suppress_app);
}

#[test]
fn unusable_bindings_are_refused() {
    let refused = |bindings: Vec<HotkeyBindingConfig>| {
        hotkey_bindings_from_config(&hotkey_settings(HotkeyMode::Normal, bindings)).unwrap_err()
    };

    assert_eq!(
        refused(vec![binding(Some("dance"), None)]),
        (
            0,
            HotkeySettingError::Binding(HotkeyBindingError::UnknownCommand)
        )
    );
    assert_eq!(
        refused(vec![
            binding(Some("retile"), None),
            binding(None, Some(" "))
        ]),
        (
            1,
            HotkeySettingError::Binding(HotkeyBindingError::EmptyLaunch)
        )
    );
    assert_eq!(
        refused(vec![binding(None, None)]),
        (
            0,
            HotkeySettingError::Binding(HotkeyBindingError::NothingSet)
        )
    );
    let mut unknown = binding(Some("retile"), None);
    unknown.keys = "Win+Menu".to_owned();
    assert_eq!(refused(vec![unknown]), (0, HotkeySettingError::UnknownKeys));
}

#[test]
fn keys_are_read_without_regard_to_case_and_space() {
    assert_eq!(
        parse_hotkey_chord(" ctrl + ALT+ Left"),
        Some(HotkeyChord {
            modifiers: vec![HotkeyModifier::Control, HotkeyModifier::Alt],
            key: HotkeyKey::ArrowLeft,
        })
    );
    assert_eq!(
        parse_hotkey_chord("super+7"),
        Some(HotkeyChord {
            modifiers: vec![HotkeyModifier::Super],
            key: HotkeyKey::Character('7'),
        })
    );
    assert_eq!(
        parse_hotkey_chord("q"),
        Some(HotkeyChord {
            modifiers: vec![],
            key: HotkeyKey::Character('Q'),
        })
    );
    assert_eq!(parse_hotkey_chord("Left+Ctrl"), None);
    assert_eq!(parse_hotkey_chord(""), None);
    assert_eq!(parse_hotkey_chord("Ctrl++"), None);
    assert_eq!(
        parse_hotkey_modifiers("Win+Shift"),
        Some(vec![HotkeyModifier::Super, HotkeyModifier::Shift])
    );
    assert_eq!(parse_hotkey_modifiers("Win+R"), None);
}

#[test]
fn registration_failures_are_listed() {
    let failures = [
        HotkeyRegistrationFailure {
            id: HotkeyId(1),
            description: "retile".to_owned(),
            error: "taken".to_owned(),
        },
        HotkeyRegistrationFailure {
            id: HotkeyId(2),
            description: "quit".to_owned(),
            error: "denied".to_owned(),
        },
    ];

    assert_eq!(
        format_hotkey_registration_failures(&failures),
        "retile (id 1): taken; quit (id 2): denied"
    );
}

#[test]
fn games_are_spared_while_game_mode_rests_the_hooks() {
    let mut config = Config::default();
    config.hotkeys.bypass.fullscreen = false;
    config.game_mode.game_exes.push("cs2.exe".to_owned());
    config.game_mode.ignored_exes.push("launcher.exe".to_owned());

    let rules = hotkey_bypass_rules_from_config(&config);
    assert!(rules.fullscreen);
    assert_eq!(
        rules.process_names,
        vec![
            TextMatcher::Exact("cs2.exe".to_owned()),
            TextMatcher::Exact("launcher.exe".to_owned()),
        ]
    );

    config.game_mode.disable_keyboard_hooks = false;
    let rules = hotkey_bypass_rules_from_config(&config);
    assert!(!rules.fullscreen);
    assert!(rules.process_names.is_empty());
}

#[test]
fn hook_options_follow_the_settings() {
    let mut config = Config::default();

    let options = hotkey_override_options_from_config(&config).unwrap();
    assert_eq!(options.panic_hotkey.virtual_key, VirtualKey::escape());
    assert_eq!(
        options.panic_hotkey.modifiers,
        HotkeyModifierSet::new().control().alt().shift()
    );
    assert_eq!(options.latency_budget_micros, 1000);
    config.hotkeys.panic_hotkey = "Ctrl+Panic".to_owned();
    assert_eq!(
        hotkey_override_options_from_config(&config).unwrap_err(),
        HotkeySettingError::UnknownKeys
    );

    let drag = modifier_drag_options_from_config(&config).unwrap().unwrap();
    assert_eq!(drag.modifiers, HotkeyModifierSet::new().super_key());
    config.hotkeys.modifier_drag.modifiers = "Win+R".to_owned();
    assert_eq!(
        modifier_drag_options_from_config(&config).unwrap_err(),
        HotkeySettingError::UnknownKeys
    );
    config.hotkeys.modifier_drag.enabled = false;
    assert!(modifier_drag_options_from_config(&config).unwrap().is_none());
    assert_eq!(HotkeyMode::Normal.name(), "register-hotkey");
    assert_eq!(
        HotkeyMode::AdvancedInterception.name(),
        "advanced-interception"
    );
}

#[test]
fn swallowed_key_gives_a_hotkey() {
    let binding = HotkeyBinding::new(
        HotkeyId(3),
        HotkeyModifierSet::new().super_key(),
        VirtualKey::ascii_uppercase(b'R'),
        "retile",
    )
    .with_suppression(true);
    let event = HotkeyLowLevelEvent {
        modifiers: HotkeyModifierSet::new().super_key(),
        virtual_key: VirtualKey::ascii_uppercase(b'R'),
    };
    let options = test_options();
    let bindings = [binding];
    let outcome = |code: i32, message: u32, paused: bool| {
        handle_key_message(
            KeyInput {
                code,
                message,
                paused,
            },
            &event,
            &bindings,
            &options,
            None,
        )
    };
    let nothing = KeyOutcome {
        dispatch: None,
        swallow: false,
    };

    assert_eq!(
        outcome(0, 0x100, false),
        KeyOutcome {
            dispatch: Some(HotkeyId(3)),
            swallow: true,
        }
    );
    assert_eq!(outcome(0, 0x101, false), nothing);
    assert_eq!(outcome(0, 0x104, true), nothing);
    assert_eq!(outcome(-1, 0x100, false), nothing);
}

#[test]
fn framed_windows_are_not_fullscreen_where_keys_are_intercepted() {
    let monitors = [MonitorInfo {
        id: MonitorId(1),
        is_primary: true,
        rect: Rect::from_size(0, 0, 1000, 800),
        work_area: Rect::from_size(0, 0, 1000, 760),
    }];
    let filling = Some(monitors[0].rect);

    assert!(fills_monitor_without_frame(filling, &monitors, 0));
    assert!(!fills_monitor_without_frame(filling, &monitors, 0x00C0_0000));
    assert!(!fills_monitor_without_frame(filling, &[], 0));
    assert!(!fills_monitor_without_frame(None, &monitors, 0));
    assert!(extended_style_is_tool_window(0x81));
    assert!(!extended_style_is_tool_window(0x01));
}

#[test]
fn summary_keeps_the_longest_time() {
    assert_eq!(
        HotkeyDecisionBenchmark::summarize(&[3, 9, 4], 20),
        HotkeyDecisionBenchmark {
            iterations: 3,
            total: 20,
            average: 6,
            max: 9,
        }
    );
    assert_eq!(longest_of(&[]), 0);
}
