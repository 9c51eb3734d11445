//! Winland: the window management core of a tiling layer for the Windows desktop.

pub mod arrangement_laws;
pub mod border;
pub mod chord;
pub mod cli;
pub mod command_laws;
pub mod command_text_laws;
pub mod commands;
pub mod config;
pub mod config_laws;
pub mod contract_laws;
pub mod count_laws;
pub mod daemon_borders;
pub mod daemon_commands;
pub mod daemon_diff;
pub mod daemon_drag;
pub mod daemon_drop;
pub mod daemon_event_laws;
pub mod daemon_events;
pub mod daemon_feedback;
pub mod daemon_focus;
pub mod daemon_focus_laws;
pub mod daemon_game;
pub mod daemon_laws;
pub mod daemon_order_laws;
pub mod daemon_reload;
pub mod daemon_settings;
pub mod daemon_snapshot;
pub mod daemon_state;
pub mod daemon_sync;
pub mod daemon_tiling;
pub mod daemon_tiling_laws;
pub mod daemon_workspace;
pub mod detection;
pub mod drag_laws;
pub mod drop_laws;
pub mod dwindle;
pub mod dwindle_geometry;
pub mod dwindle_laws;
pub mod engine;
pub mod event_laws;
pub mod events;
pub mod focus_laws;
pub mod game_laws;
pub mod game_mode;
pub mod geometry;
pub mod handles;
pub mod hotkey;
pub mod hotkey_settings;
pub mod input_laws;
pub mod ipc;
pub mod layout;
pub mod layout_laws;
pub mod listing_laws;
pub mod managing_laws;
pub mod monitor_laws;
pub mod monitor_layout;
pub mod monitors;
pub mod mouse_drag;
pub mod notice_laws;
pub mod num;
pub mod numeral;
pub mod order;
pub mod outcome_laws;
pub mod partition_laws;
pub mod path_laws;
pub mod path_name;
pub mod placement;
pub mod plugin;
pub mod reload_laws;
pub mod report;
pub mod report_laws;
pub mod rule_laws;
pub mod rules;
pub mod runtime_config;
pub mod settings_laws;
pub mod shell;
pub mod shell_report;
pub mod size;
pub mod smart_split;
pub mod sorted_map;
pub mod split_memory;
pub mod stack;
pub mod table;
pub mod text;
pub mod text_laws;
pub mod tile;
pub mod tile_laws;
pub mod tiling;
pub mod told_laws;
pub mod validation;
pub mod watch_laws;
pub mod widget;
pub mod window;
pub mod window_laws;
pub mod workspace;
pub mod workspace_laws;
