//! Starting anew from a fresh look at the windows, while keeping what the user arranged.

use vstd::prelude::*;

use crate::daemon_diff::SnapshotDiff;
use crate::daemon_state::{ActiveInteractiveDrag, DaemonPerformance, DaemonState, DaemonView};
use crate::game_mode::{GameModeRuntimeState, GameModeTransition, GameModeView};
use crate::geometry::{MonitorId, MonitorInfo, Point, Rect, TileAssignment, WindowHandle};
use crate::handles::{
    ascending_handles, handles_of, lemma_filter_ends, lemma_filter_step, lemma_ordered_handles,
    member_of, missing_from, ordered_handles, realign_handles, realigned,
};
use crate::layout::WindowParticipation;
use crate::monitors::{has_monitor, known_monitor};
use crate::rules::WindowRuleDecision;
use crate::runtime_config::RuntimeConfig;
use crate::size::WindowSizeConstraints;
use crate::sorted_map::SortedMap;
use crate::split_memory::SplitMemory;
use crate::window::WindowInfo;
use crate::workspace::{
    lemma_filter_ascends, WorkspaceManager, WorkspaceView, WorkspaceVisibilityChange,
};

verus! {

/// What a reload of the settings hides and shows.
#[derive(Debug, Clone, PartialEq, Eq)]
pub struct ReloadVisibilityChanges {
    pub hide: Vec<WindowHandle>,
    pub show: Vec<WorkspaceVisibilityChange>,
}

/// What the rules changed when they were applied anew: how many windows are not tracked any more, were
/// added to or left out of the order of the tiles, and were made to float or to be tiled.
#[derive(Debug, Clone, Copy, PartialEq, Eq, Structural)]
pub struct RuleReloadStats {
    pub untracked: usize,
    pub added_to_tile_order: usize,
    pub removed_from_tile_order: usize,
    pub set_floating: usize,
    pub set_tiled: usize,
}

/// What follows from new settings: what the rules changed, what is hidden and shown, whether game mode
/// began or ended, and the tiles.
#[derive(Debug, Clone, PartialEq, Eq)]
pub struct ReloadPlan {
    pub rules: RuleReloadStats,
    pub visibility: ReloadVisibilityChanges,
    pub transition: GameModeTransition,
    pub moves: Vec<TileAssignment>,
}

/// Whether monitors are known that windows are put on.
pub open spec fn put_on_known(overrides: Map<u64, MonitorId>, monitors: Seq<MonitorInfo>) -> Set<u64> {
    Set::new(|key: u64| known_monitor(monitors, overrides[key]))
}

impl DaemonView {
    /// The state after a reload of the settings was counted.
    pub open spec fn with_reload_counted(self) -> DaemonView {
        DaemonView {
            perf: DaemonPerformance {
                config_reload_count: if self.perf.config_reload_count == u64::MAX {
                    u64::MAX
                } else {
                    (self.perf.config_reload_count + 1) as u64
                },
                ..self.perf
            },
            ..self
        }
    }

    /// The state after the first look at the windows, before they are put on workspaces.
    pub open spec fn unsorted(
        config: RuntimeConfig,
        windows: Map<u64, WindowInfo>,
        size_constraints: Map<u64, WindowSizeConstraints>,
        foreground: Option<WindowHandle>,
    ) -> DaemonView {
        DaemonView {
            windows,
            size_constraints,
            foreground,
            tile_order: Seq::empty(),
            participation: Map::empty(),
            dwindle_splits: Map::empty(),
            previous_rects: Map::empty(),
            learned: Map::empty(),
            overrides: Map::empty(),
            promoted: Map::empty(),
            workspaces: WorkspaceView::fresh(config.workspace_count),
            modifier_drag: None,
            interactive_drag: None,
            suppressed: Map::empty(),
            config,
            config_path: None,
            config_version: 1,
            config_loaded_at_unix_ms: 0,
            game_mode: GameModeView { active: None, misses: 0 },
            perf: DaemonPerformance {
                relayout_count: 0,
                skipped_relayout_count: 0,
                last_relayout_duration_ms: 0,
                last_relayout_move_count: 0,
                border_window_count: 0,
                config_reload_count: 0,
            },
        }
    }

    /// The state after the first look at the windows: those that may be managed are tiled in ascending
    /// order of their handles.
    pub open spec fn discovered(
        config: RuntimeConfig,
        windows: Map<u64, WindowInfo>,
        size_constraints: Map<u64, WindowSizeConstraints>,
        foreground: Option<WindowHandle>,
        monitors: Seq<MonitorInfo>,
    ) -> DaemonView {
        let first = DaemonView::unsorted(config, windows, size_constraints, foreground);
        (DaemonView { tile_order: first.managed_handles(), ..first }).synced(monitors)
    }

    /// The windows that are there and on a workspace.
    pub open spec fn placed(self) -> Set<u64> {
        Set::new(
            |key: u64| self.windows.contains_key(key) && self.workspaces.windows.contains_key(key),
        )
    }

    /// The windows that are there and on a workspace, by their handles.
    pub open spec fn is_placed(self) -> spec_fn(WindowHandle) -> bool {
        |window: WindowHandle| self.placed().contains(window.0)
    }

    /// The windows that are there and on a workspace, in ascending order of their handles.
    pub open spec fn placed_handles(self) -> Seq<WindowHandle> {
        ordered_handles(self.windows).filter(self.is_placed())
    }

    /// A fresh state with the workspaces as they were, brought in line.
    pub open spec fn with_workspaces_of(self, before: DaemonView, monitors: Seq<MonitorInfo>) -> DaemonView {
        (DaemonView {
            workspaces: before.workspaces.with_count(self.config.workspace_count),
            ..self
        }).synced(monitors)
    }

    /// A fresh state with what was arranged before: the workspaces, the order of the tiles, and what
    /// is known of the windows that are still there.
    pub open spec fn preserving(self, before: DaemonView, monitors: Seq<MonitorInfo>) -> DaemonView {
        let moved = self.with_workspaces_of(before, monitors);
        let known = moved.placed();
        DaemonView {
            tile_order: realigned(before.tile_order, moved.placed_handles()),
            participation: before.participation.restrict(known),
            dwindle_splits: before.dwindle_splits,
            previous_rects: before.previous_rects.restrict(known),
            learned: before.learned.restrict(known),
            overrides: before.overrides.restrict(known).restrict(
                put_on_known(before.overrides, monitors),
            ),
            promoted: before.promoted.restrict(known),
            modifier_drag: match before.modifier_drag {
                Some(drag) => if moved.windows.contains_key(drag.window.0) {
                    Some(drag)
                } else {
                    None
                },
                None => None,
            },
            interactive_drag: match before.interactive_drag {
                Some(drag) => if moved.windows.contains_key(drag.window.0) {
                    Some(drag)
                } else {
                    None
                },
                None => None,
            },
            suppressed: before.suppressed.restrict(moved.windows.dom()),
            ..moved
        }
    }

    /// A fresh state that takes the place of another, with the same settings.
    pub open spec fn adopting(self, refreshed: DaemonView, monitors: Seq<MonitorInfo>) -> DaemonView {
        DaemonView {
            game_mode: self.game_mode,
            config_path: self.config_path,
            config_version: self.config_version,
            config_loaded_at_unix_ms: self.config_loaded_at_unix_ms,
            perf: self.perf,
            ..refreshed.preserving(self, monitors)
        }
    }

    /// A fresh state that is made ready to take the place of another, with new settings; the splits of
    /// the dwindle layout are forgotten.
    pub open spec fn prepared(self, before: DaemonView, monitors: Seq<MonitorInfo>) -> DaemonView {
        let preserved = self.preserving(before, monitors);
        (DaemonView {
            dwindle_splits: Map::empty(),
            workspaces: preserved.workspaces.with_count(preserved.config.workspace_count),
            ..preserved
        }).synced(monitors)
    }

    /// A fresh state that takes the place of another, with new settings.
    pub open spec fn committing(self, refreshed: DaemonView, config_path: Option<String>, loaded_at: u64) -> DaemonView {
        DaemonView {
            config_path,
            config_version: if self.config_version == u64::MAX {
                u64::MAX
            } else {
                (self.config_version + 1) as u64
            },
            config_loaded_at_unix_ms: loaded_at,
            game_mode: self.game_mode,
            perf: self.perf,
            ..refreshed
        }
    }

    /// Whether the rules let a window be arranged.
    pub open spec fn arranges(self, window: WindowHandle, monitors: Seq<MonitorInfo>) -> bool {
        self.managed_when_hidden(self.windows[window.0]) && !self.fullscreen(
            self.windows[window.0],
            monitors,
        )
    }

    /// The state after a window was put on a workspace, if it is on none.
    pub open spec fn with_tracked(self, window: WindowHandle, monitors: Seq<MonitorInfo>) -> DaemonView {
        if self.workspaces.windows.contains_key(window.0) {
            self
        } else {
            self.tracking_new(
                window,
                self.decision(self.windows[window.0]).target_workspace,
                self.owner(window, monitors),
            )
        }
    }

    /// The state after the rules were applied to a window anew.
    pub open spec fn with_rules_on(self, window: WindowHandle, monitors: Seq<MonitorInfo>) -> DaemonView {
        let decision = self.decision(self.windows[window.0]);
        if !self.arranges(window, monitors) {
            DaemonView {
                workspaces: WorkspaceView {
                    windows: self.workspaces.windows.remove(window.0),
                    ..self.workspaces
                },
                participation: self.participation.remove(window.0),
                promoted: self.promoted.remove(window.0),
                ..self
            }
        } else {
            let placed = self.with_tracked(window, monitors);
            let moved = match decision.target_workspace {
                Some(workspace) => placed.with_window_on(window, workspace),
                None => placed,
            };
            let shown = match decision.always_on_workspace {
                Some(everywhere) => moved.with_everywhere(window, everywhere),
                None => moved,
            };
            match decision.float {
                Some(true) => shown.with_participation(window, WindowParticipation::Floating),
                Some(false) => shown.with_participation(window, WindowParticipation::Tiled),
                None => shown,
            }
        }
    }

    /// The state after the rules were applied to windows anew.
    pub open spec fn with_rules_on_all(self, windows: Seq<WindowHandle>, monitors: Seq<MonitorInfo>) -> DaemonView
        decreases windows.len(),
    {
        if windows.len() == 0 {
            self
        } else {
            self.with_rules_on_all(windows.drop_last(), monitors).with_rules_on(
                windows.last(),
                monitors,
            )
        }
    }

    /// The windows that lose their workspace when the rules are applied anew.
    pub open spec fn loses_workspace(self, monitors: Seq<MonitorInfo>) -> spec_fn(WindowHandle) -> bool {
        |window: WindowHandle|
            !self.arranges(window, monitors) && self.workspaces.windows.contains_key(window.0)
    }

    /// The windows that are made to float when the rules are applied anew.
    pub open spec fn is_floated(self, monitors: Seq<MonitorInfo>) -> spec_fn(WindowHandle) -> bool {
        |window: WindowHandle|
            self.arranges(window, monitors) && self.decision(self.windows[window.0]).float == Some(
                true,
            )
    }

    /// The windows that are tiled, or cease to float, when the rules are applied anew.
    pub open spec fn is_unfloated(self, monitors: Seq<MonitorInfo>) -> spec_fn(WindowHandle) -> bool {
        |window: WindowHandle|
            if self.arranges(window, monitors) {
                self.decision(self.windows[window.0]).float == Some(false)
            } else {
                self.participation.contains_key(window.0)
            }
    }

    /// The state after the rules were applied anew and the order of the tiles was brought in line.
    pub open spec fn with_rules_reapplied(self, monitors: Seq<MonitorInfo>) -> DaemonView {
        let ruled = self.with_rules_on_all(ordered_handles(self.windows), monitors);
        DaemonView { tile_order: realigned(ruled.tile_order, ruled.managed_handles()), ..ruled }
    }

    /// What the rules changed when they were applied anew.
    pub open spec fn rule_counts(self, monitors: Seq<MonitorInfo>, stats: RuleReloadStats) -> bool {
        let windows = ordered_handles(self.windows);
        let ruled = self.with_rules_on_all(windows, monitors);
        let kept = ruled.tile_order.filter(member_of(ruled.managed_handles()));
        &&& stats.untracked == windows.filter(self.loses_workspace(monitors)).len()
        &&& stats.set_floating == windows.filter(self.is_floated(monitors)).len()
        &&& stats.set_tiled == windows.filter(self.is_unfloated(monitors)).len()
        &&& stats.removed_from_tile_order == ruled.tile_order.len() - kept.len()
        &&& stats.added_to_tile_order == ruled.managed_handles().filter(missing_from(kept)).len()
    }

    /// The windows that were visible, are not any more, and may be hidden.
    pub open spec fn is_newly_hidden(self, before: Map<u64, bool>, monitors: Seq<MonitorInfo>) -> spec_fn(
        WindowHandle,
    ) -> bool {
        |window: WindowHandle|
            {
                &&& before.contains_key(window.0) && before[window.0]
                &&& !self.visible(window, monitors)
                &&& self.safe_to_move(window, monitors)
            }
    }

    /// The windows that are visible and were not before.
    pub open spec fn is_newly_shown(self, before: Map<u64, bool>, monitors: Seq<MonitorInfo>) -> spec_fn(
        WindowHandle,
    ) -> bool {
        |window: WindowHandle|
            !(before.contains_key(window.0) && before[window.0]) && self.visible(window, monitors)
    }

    /// The changes that show windows where they were last.
    pub open spec fn all_shown_again(self, windows: Seq<WindowHandle>) -> Seq<WorkspaceVisibilityChange> {
        windows.map_values(|window: WindowHandle| self.shown_again(window))
    }

    /// Which windows are visible.
    pub open spec fn visibility(self, monitors: Seq<MonitorInfo>) -> Map<u64, bool> {
        Map::new(
            |key: u64| self.windows.contains_key(key),
            |key: u64| self.visible(WindowHandle(key), monitors),
        )
    }
}

impl DaemonState {
    /// The state after the first look at the windows.
    pub fn discover(
        config: RuntimeConfig,
        windows: SortedMap<WindowInfo>,
        size_constraints: SortedMap<WindowSizeConstraints>,
        foreground: Option<WindowHandle>,
        monitors: &[MonitorInfo],
    ) -> (r: DaemonState)
        requires
            config.wf(),
            windows.wf(),
            size_constraints.wf(),
        ensures
            r.wf(),
            r@ == DaemonView::discovered(
                config,
                windows@,
                size_constraints@,
                foreground,
                monitors@,
            ),
    {
        let workspaces: WorkspaceManager = WorkspaceManager::new(config.workspace_count);
        let game_mode: GameModeRuntimeState = GameModeRuntimeState::default();
        let perf: DaemonPerformance = DaemonPerformance::default();
        let mut state: DaemonState = DaemonState {
            windows,
            size_constraints,
            foreground,
            tile_order: Vec::new(),
            participation: SortedMap::new(),
            dwindle_splits: SplitMemory::new(),
            previous_rects: SortedMap::new(),
            learned_size_constraints: SortedMap::new(),
            window_monitor_overrides: SortedMap::new(),
            overflow_promoted_floating: SortedMap::new(),
            workspaces,
            active_modifier_drag: None,
            active_interactive_drag: None,
            suppressed_modifier_drag_events: SortedMap::new(),
            config,
            config_path: None,
            config_version: 1,
            config_loaded_at_unix_ms: 0,
            game_mode,
            perf,
        };
        proof {
            assert(state@ == DaemonView::unsorted(
                config,
                windows@,
                size_constraints@,
                foreground,
            ));
        }
        state.tile_order = state.manageable_handles_sorted();
        state.sync_workspace_state(monitors);
        state
    }

    fn placed_windows(&self) -> (r: (Vec<WindowHandle>, SortedMap<()>))
        requires
            self.wf(),
        ensures
            r.0@ == self@.placed_handles(),
            ascending_handles(r.0@),
            r.1.wf(),
            r.1@.dom() == self@.placed(),
    {
        let handles: Vec<WindowHandle> = handles_of(&self.windows);
        let ghost keep = self@.is_placed();
        let mut placed: Vec<WindowHandle> = Vec::new();
        let mut known: SortedMap<()> = SortedMap::new();
        let mut index: usize = 0;
        proof {
            lemma_filter_ends(handles@, keep);
        }
        while index < handles.len()
            invariant
                index <= handles.len(),
                self.wf(),
                keep == self@.is_placed(),
                placed@ == handles@.take(index as int).filter(keep),
                known.wf(),
                forall|key: u64| #[trigger]
                    known@.contains_key(key) <==> handles@.take(index as int).contains(
                        WindowHandle(key),
                    ) && self@.workspaces.windows.contains_key(key),
                forall|i: int|
                    0 <= i < handles@.len() ==> self@.windows.contains_key((#[trigger] handles@[i]).0),
            decreases handles.len() - index,
        {
            let handle: WindowHandle = handles[index];
            proof {
                lemma_filter_step(handles@, index as int, keep);
                crate::handles::lemma_contains_push(handles@.take(index as int), handle);
                assert(handles@.take(index + 1) =~= handles@.take(index as int).push(handle));
            }
            if self.workspaces.window_state(handle).is_some() {
                placed.push(handle);
                known.insert(handle.0, ());
            }
            index = index + 1;
        }
        proof {
            lemma_filter_ends(handles@, keep);
            lemma_filter_ascends(handles@, keep);
            assert(handles@.take(index as int) =~= handles@);
            assert forall|key: u64| known@.dom().contains(key) <==> self@.placed().contains(key) by {
                assert(handles@.contains(WindowHandle(key)) <==> self@.windows.contains_key(
                    WindowHandle(key).0,
                ));
                assert(known@.contains_key(key) <==> handles@.contains(WindowHandle(key))
                    && self@.workspaces.windows.contains_key(key));
            }
            assert(known@.dom() =~= self@.placed());
        }
        (placed, known)
    }

    /// Carries what was arranged over to a fresh state.
    pub fn preserve_keyboard_state(&self, refreshed: &mut DaemonState, monitors: &[MonitorInfo])
        requires
            self.wf(),
            old(refreshed).wf(),
        ensures
            final(refreshed).wf(),
            final(refreshed)@ == old(refreshed)@.preserving(self@, monitors@),
    {
        let ghost fresh = refreshed@;
        refreshed.workspaces = self.workspaces.copy();
        let count: u16 = refreshed.config.workspace_count;
        refreshed.workspaces.set_workspace_count(count);
        refreshed.sync_workspace_state(monitors);
        let ghost moved = refreshed@;
        let (placed, known) = refreshed.placed_windows();
        let (order, _, _) = realign_handles(&self.tile_order, &placed);
        refreshed.tile_order = order;
        refreshed.participation = self.participation.restricted(&known);
        refreshed.dwindle_splits = self.dwindle_splits.copy();
        refreshed.previous_rects = self.previous_rects.restricted(&known);
        refreshed.learned_size_constraints = self.learned_size_constraints.restricted(&known);
        refreshed.window_monitor_overrides =
        on_known_monitors(&self.window_monitor_overrides.restricted(&known), monitors);
        proof {
            assert(refreshed.window_monitor_overrides@ =~= self@.overrides.restrict(
                moved.placed(),
            ).restrict(put_on_known(self@.overrides, monitors@)));
        }
        refreshed.overflow_promoted_floating = self.overflow_promoted_floating.restricted(&known);
        refreshed.active_modifier_drag =
        match self.active_modifier_drag {
            Some(drag) => if refreshed.windows.contains_key(drag.window.0) {
                Some(drag)
            } else {
                None
            },
            None => None,
        };
        refreshed.active_interactive_drag =
        match &self.active_interactive_drag {
            Some(drag) => if refreshed.windows.contains_key(drag.window.0) {
                Some(copy_drag(drag))
            } else {
                None
            },
            None => None,
        };
        refreshed.suppressed_modifier_drag_events =
        self.suppressed_modifier_drag_events.restricted(&refreshed.windows);
    }

    /// Puts a fresh state with the same settings in the place of this one; says what changed.
    pub fn adopt(&mut self, refreshed: DaemonState, monitors: &[MonitorInfo]) -> (r: SnapshotDiff)
        requires
            old(self).wf(),
            refreshed.wf(),
        ensures
            final(self).wf(),
            final(self)@ == old(self)@.adopting(refreshed@, monitors@),
            old(self)@.is_diff(refreshed@, monitors@, r),
    {
        let diff: SnapshotDiff = self.diff(&refreshed, monitors);
        let mut next: DaemonState = refreshed;
        self.preserve_keyboard_state(&mut next, monitors);
        core::mem::swap(&mut next.game_mode, &mut self.game_mode);
        core::mem::swap(&mut next.config_path, &mut self.config_path);
        next.config_version = self.config_version;
        next.config_loaded_at_unix_ms = self.config_loaded_at_unix_ms;
        next.perf = self.perf;
        *self = next;
        diff
    }

    /// Counts a reload of the settings.
    pub fn count_config_reload(&mut self)
        requires
            old(self).wf(),
        ensures
            final(self).wf(),
            final(self)@ == old(self)@.with_reload_counted(),
    {
        if self.perf.config_reload_count < u64::MAX {
            self.perf.config_reload_count = self.perf.config_reload_count + 1;
        }
    }

    /// Makes a fresh state with new settings ready to take the place of this one.
    pub fn prepare_reload(&self, refreshed: &mut DaemonState, monitors: &[MonitorInfo])
        requires
            self.wf(),
            old(refreshed).wf(),
        ensures
            final(refreshed).wf(),
            final(refreshed)@ == old(refreshed)@.prepared(self@, monitors@),
    {
        self.preserve_keyboard_state(refreshed, monitors);
        refreshed.dwindle_splits.clear();
        let count: u16 = refreshed.config.workspace_count;
        refreshed.workspaces.set_workspace_count(count);
        refreshed.sync_workspace_state(monitors);
    }

    /// Which windows are visible.
    pub fn window_visibility_map(&self, monitors: &[MonitorInfo]) -> (r: SortedMap<bool>)
        requires
            self.wf(),
        ensures
            r.wf(),
            r@ == self@.visibility(monitors@),
    {
        let handles: Vec<WindowHandle> = handles_of(&self.windows);
        let mut visible: SortedMap<bool> = SortedMap::new();
        let mut index: usize = 0;
        while index < handles.len()
            invariant
                index <= handles.len(),
                self.wf(),
                visible.wf(),
                forall|key: u64| #[trigger]
                    visible@.contains_key(key) <==> handles@.take(index as int).contains(
                        WindowHandle(key),
                    ),
                forall|key: u64| #[trigger]
                    visible@.contains_key(key) ==> visible@[key] == self@.visible(
                        WindowHandle(key),
                        monitors@,
                    ),
            decreases handles.len() - index,
        {
            let handle: WindowHandle = handles[index];
            proof {
                crate::handles::lemma_contains_push(handles@.take(index as int), handle);
                assert(handles@.take(index + 1) =~= handles@.take(index as int).push(handle));
            }
            visible.insert(handle.0, self.is_window_visible_on_owned_monitor(handle, monitors));
            index = index + 1;
        }
        proof {
            assert(handles@.take(index as int) =~= handles@);
            assert forall|key: u64| visible@.contains_key(key) <==> self@.windows.contains_key(key) by {
                assert(handles@.contains(WindowHandle(key)) <==> self@.windows.contains_key(
                    WindowHandle(key).0,
                ));
            }
            assert(visible@ =~= self@.visibility(monitors@));
        }
        visible
    }

    /// What new settings hide and show, going by which windows were visible before.
    pub fn visibility_changes_after_reload(
        &self,
        previous_visibility: &SortedMap<bool>,
        monitors: &[MonitorInfo],
    ) -> (r: ReloadVisibilityChanges)
        requires
            self.wf(),
            previous_visibility.wf(),
        ensures
            r.hide@ == ordered_handles(self@.windows).filter(
                self@.is_newly_hidden(previous_visibility@, monitors@),
            ),
            r.show@ == self@.all_shown_again(
                ordered_handles(self@.windows).filter(
                    self@.is_newly_shown(previous_visibility@, monitors@),
                ),
            ),
    {
        let handles: Vec<WindowHandle> = handles_of(&self.windows);
        let ghost hides = self@.is_newly_hidden(previous_visibility@, monitors@);
        let ghost shows = self@.is_newly_shown(previous_visibility@, monitors@);
        let mut hide_list: Vec<WindowHandle> = Vec::new();
        let mut show_list: Vec<WorkspaceVisibilityChange> = Vec::new();
        let mut index: usize = 0;
        proof {
            lemma_filter_ends(handles@, hides);
            lemma_filter_ends(handles@, shows);
            assert(show_list@ =~= self@.all_shown_again(handles@.take(0).filter(shows)));
        }
        while index < handles.len()
            invariant
                index <= handles.len(),
                self.wf(),
                previous_visibility.wf(),
                hides == self@.is_newly_hidden(previous_visibility@, monitors@),
                shows == self@.is_newly_shown(previous_visibility@, monitors@),
                hide_list@ == handles@.take(index as int).filter(hides),
                show_list@ == self@.all_shown_again(handles@.take(index as int).filter(shows)),
            decreases handles.len() - index,
        {
            let handle: WindowHandle = handles[index];
            proof {
                lemma_filter_step(handles@, index as int, hides);
                lemma_filter_step(handles@, index as int, shows);
            }
            let was_visible: bool = match previous_visibility.get(handle.0) {
                Some(visible) => *visible,
                None => false,
            };
            let is_visible: bool = self.is_window_visible_on_owned_monitor(handle, monitors);
            if was_visible && !is_visible && self.should_hide_for_workspace(handle, monitors) {
                hide_list.push(handle);
            } else if !was_visible && is_visible {
                show_list.push(self.change_for(handle));
            }
            proof {
                assert(show_list@ =~= self@.all_shown_again(handles@.take(index + 1).filter(shows)));
            }
            index = index + 1;
        }
        proof {
            lemma_filter_ends(handles@, hides);
            lemma_filter_ends(handles@, shows);
        }
        ReloadVisibilityChanges { hide: hide_list, show: show_list }
    }

    /// Applies the rules to one window anew; says whether it lost its workspace, was made to float, and
    /// was tiled or ceased to float.
    fn reapply_rules_to(&mut self, handle: WindowHandle, monitors: &[MonitorInfo]) -> (r: (
        bool,
        bool,
        bool,
    ))
        requires
            old(self).wf(),
            old(self)@.windows.contains_key(handle.0),
        ensures
            final(self).wf(),
            final(self)@ == old(self)@.with_rules_on(handle, monitors@),
            r.0 == old(self)@.loses_workspace(monitors@)(handle),
            r.1 == old(self)@.is_floated(monitors@)(handle),
            r.2 == old(self)@.is_unfloated(monitors@)(handle),
    {
        let ghost before = self@;
        let (decision, arranges, rect): (WindowRuleDecision, bool, Rect) = match self.windows.get(
            handle.0,
        ) {
            Some(window) => {
                let decision: WindowRuleDecision = self.rule_decision(window);
                let arranges: bool = self.is_workspace_manageable_by_rules(window, &decision)
                    && !self.is_fullscreen_window(window, monitors);
                (decision, arranges, window.rect)
            },
            None => {
                return (false, false, false);
            },
        };
        if !arranges {
            let untracked: bool = self.workspaces.remove_window(handle);
            let unfloated: bool = self.participation.remove(handle.0).is_some();
            self.overflow_promoted_floating.remove(handle.0);
            return (untracked, false, unfloated);
        }
        if self.workspaces.window_state(handle).is_none() {
            let owner: Option<MonitorId> = self.window_owner_monitor(handle, monitors);
            self.track_new_window(handle, rect, decision.target_workspace, owner);
        }
        if let Some(workspace) = decision.target_workspace {
            self.workspaces.move_window_to_workspace(handle, workspace);
        }
        if let Some(everywhere) = decision.always_on_workspace {
            self.workspaces.set_visible_on_all_workspaces(handle, everywhere);
        }
        match decision.float {
            Some(true) => {
                self.set_window_participation(handle, WindowParticipation::Floating);
                (false, true, false)
            },
            Some(false) => {
                self.set_window_participation(handle, WindowParticipation::Tiled);
                (false, false, true)
            },
            None => (false, false, false),
        }
    }

    /// Applies the rules to all windows anew and brings the order of the tiles in line.
    pub fn reapply_window_rules_after_reload(&mut self, monitors: &[MonitorInfo]) -> (r: RuleReloadStats)
        requires
            old(self).wf(),
        ensures
            final(self).wf(),
            final(self)@ == old(self)@.with_rules_reapplied(monitors@),
            old(self)@.rule_counts(monitors@, r),
    {
        let handles: Vec<WindowHandle> = handles_of(&self.windows);
        let ghost before = self@;
        let ghost loses = before.loses_workspace(monitors@);
        let ghost floated = before.is_floated(monitors@);
        let ghost unfloated = before.is_unfloated(monitors@);
        let mut untracked: usize = 0;
        let mut set_floating: usize = 0;
        let mut set_tiled: usize = 0;
        let mut index: usize = 0;
        proof {
            lemma_filter_ends(handles@, loses);
            lemma_filter_ends(handles@, floated);
            lemma_filter_ends(handles@, unfloated);
            assert(handles@.take(0) =~= Seq::empty());
        }
        while index < handles.len()
            invariant
                index <= handles.len(),
                self.wf(),
                handles@ == ordered_handles(before.windows),
                ascending_handles(handles@),
                loses == before.loses_workspace(monitors@),
                floated == before.is_floated(monitors@),
                unfloated == before.is_unfloated(monitors@),
                self@ == before.with_rules_on_all(handles@.take(index as int), monitors@),
                untracked == handles@.take(index as int).filter(loses).len(),
                set_floating == handles@.take(index as int).filter(floated).len(),
                set_tiled == handles@.take(index as int).filter(unfloated).len(),
                untracked <= index,
                set_floating <= index,
                set_tiled <= index,
                forall|i: int|
                    0 <= i < handles@.len() ==> before.windows.contains_key((#[trigger] handles@[i]).0),
            decreases handles.len() - index,
        {
            let handle: WindowHandle = handles[index];
            proof {
                lemma_filter_step(handles@, index as int, loses);
                lemma_filter_step(handles@, index as int, floated);
                lemma_filter_step(handles@, index as int, unfloated);
                lemma_rules_keep(before, handles@.take(index as int), handle, monitors@);
                assert(handles@.take(index + 1).drop_last() =~= handles@.take(index as int));
                assert(handles@.take(index + 1).last() == handle);
            }
            let (lost, floats, tiles) = self.reapply_rules_to(handle, monitors);
            if lost {
                untracked = untracked + 1;
            }
            if floats {
                set_floating = set_floating + 1;
            }
            if tiles {
                set_tiled = set_tiled + 1;
            }
            index = index + 1;
        }
        proof {
            lemma_filter_ends(handles@, loses);
            lemma_filter_ends(handles@, floated);
            lemma_filter_ends(handles@, unfloated);
            assert(handles@.take(index as int) =~= handles@);
            lemma_ordered_handles(&self.windows);
            lemma_filter_ascends(ordered_handles(self@.windows), self@.is_managed_handle());
        }
        let managed: Vec<WindowHandle> = self.manageable_handles_sorted();
        let (order, removed, added) = realign_handles(&self.tile_order, &managed);
        self.tile_order = order;
        RuleReloadStats {
            untracked,
            added_to_tile_order: added,
            removed_from_tile_order: removed,
            set_floating,
            set_tiled,
        }
    }

    /// Puts a fresh state with new settings in the place of this one, applies the rules anew, and says
    /// what follows.
    pub fn commit_reload(
        &mut self,
        refreshed: DaemonState,
        config_path: Option<String>,
        loaded_at_unix_ms: u64,
        monitors: &[MonitorInfo],
        cursor_position: Option<Point>,
    ) -> (r: Option<ReloadPlan>)
        requires
            old(self).wf(),
            refreshed.wf(),
        ensures
            final(self).wf(),
            ({
                let committed = old(self)@.committing(refreshed@, config_path, loaded_at_unix_ms);
                let ruled = committed.with_rules_reapplied(monitors@);
                let noted = ruled.with_game_mode(monitors@);
                let before = old(self)@.visibility(monitors@);
                if ruled.tile_order.len() > i32::MAX {
                    r is None && final(self)@ == noted
                } else {
                    &&& r matches Some(plan)
                    &&& committed.rule_counts(monitors@, plan.rules)
                    &&& plan.visibility.hide@ == ordered_handles(ruled.windows).filter(
                        ruled.is_newly_hidden(before, monitors@),
                    )
                    &&& plan.visibility.show@ == ruled.all_shown_again(
                        ordered_handles(ruled.windows).filter(
                            ruled.is_newly_shown(before, monitors@),
                        ),
                    )
                    &&& plan.transition == ruled.game_transition(monitors@)
                    &&& plan.moves@ == noted.all_tiles(monitors@, cursor_position)
                    &&& final(self)@ == noted.retiled(monitors@, cursor_position)
                }
            }),
    {
        let before: SortedMap<bool> = self.window_visibility_map(monitors);
        let mut next: DaemonState = refreshed;
        core::mem::swap(&mut next.game_mode, &mut self.game_mode);
        next.config_path = config_path;
        next.config_version = if self.config_version == u64::MAX {
            u64::MAX
        } else {
            self.config_version + 1
        };
        next.config_loaded_at_unix_ms = loaded_at_unix_ms;
        next.perf = self.perf;
        *self = next;
        let rules: RuleReloadStats = self.reapply_window_rules_after_reload(monitors);
        let visibility: ReloadVisibilityChanges = self.visibility_changes_after_reload(
            &before,
            monitors,
        );
        let transition: GameModeTransition = self.update_game_mode(monitors);
        if self.tile_order.len() > 0x7fff_ffff {
            return None;
        }
        let moves: Vec<TileAssignment> = self.tile_assignments(monitors, cursor_position);
        Some(ReloadPlan { rules, visibility, transition, moves })
    }
}

fn copy_drag(drag: &ActiveInteractiveDrag) -> (r: ActiveInteractiveDrag)
    ensures
        r@ == drag@,
{
    let monitors: Vec<MonitorInfo> = drag.monitors.clone();
    proof {
        assert(monitors@ =~= drag.monitors@);
    }
    ActiveInteractiveDrag {
        window: drag.window,
        start_cursor: drag.start_cursor,
        start_rect: drag.start_rect,
        monitors,
    }
}

fn on_known_monitors(overrides: &SortedMap<MonitorId>, monitors: &[MonitorInfo]) -> (r: SortedMap<
    MonitorId,
>)
    requires
        overrides.wf(),
    ensures
        r.wf(),
        r@ == overrides@.restrict(put_on_known(overrides@, monitors@)),
{
    let handles: Vec<WindowHandle> = handles_of(overrides);
    let mut known: SortedMap<()> = SortedMap::new();
    let mut index: usize = 0;
    while index < handles.len()
        invariant
            index <= handles.len(),
            overrides.wf(),
            known.wf(),
            forall|key: u64| #[trigger]
                known@.contains_key(key) <==> handles@.take(index as int).contains(
                    WindowHandle(key),
                ) && known_monitor(monitors@, overrides@[key]),
            forall|i: int|
                0 <= i < handles@.len() ==> overrides@.contains_key((#[trigger] handles@[i]).0),
        decreases handles.len() - index,
    {
        let handle: WindowHandle = handles[index];
        proof {
            crate::handles::lemma_contains_push(handles@.take(index as int), handle);
            assert(handles@.take(index + 1) =~= handles@.take(index as int).push(handle));
        }
        if let Some(monitor) = overrides.get(handle.0) {
            if has_monitor(monitors, *monitor) {
                known.insert(handle.0, ());
            }
        }
        index = index + 1;
    }
    let kept: SortedMap<MonitorId> = overrides.restricted(&known);
    proof {
        assert(handles@.take(index as int) =~= handles@);
        assert forall|key: u64| kept@.contains_key(key) <==> overrides@.contains_key(key)
            && known_monitor(monitors@, overrides@[key]) by {
            assert(handles@.contains(WindowHandle(key)) <==> overrides@.contains_key(
                WindowHandle(key).0,
            ));
        }
        assert(kept@ =~= overrides@.restrict(put_on_known(overrides@, monitors@)));
    }
    kept
}

/// Applying the rules to other windows changes nothing of what they say of a window.
proof fn lemma_rules_keep(
    state: DaemonView,
    windows: Seq<WindowHandle>,
    window: WindowHandle,
    monitors: Seq<MonitorInfo>,
)
    requires
        forall|i: int| 0 <= i < windows.len() ==> (#[trigger] windows[i]).0 < window.0,
    ensures
        ({
            let after = state.with_rules_on_all(windows, monitors);
            &&& after.windows == state.windows
            &&& after.config == state.config
            &&& after.workspaces.windows.contains_key(window.0)
                == state.workspaces.windows.contains_key(window.0)
            &&& after.participation.contains_key(window.0) == state.participation.contains_key(
                window.0,
            )
        }),
    decreases windows.len(),
{
    if windows.len() > 0 {
        lemma_rules_keep(state, windows.drop_last(), window, monitors);
        assert(windows.last() == windows[windows.len() - 1]);
    }
}

} // verus!
