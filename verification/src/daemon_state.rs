//! What the daemon knows: the windows, how they take part in the layout, and where they belong.

use vstd::prelude::*;

use crate::dwindle::DwindleSplit;
use crate::game_mode::{
    game_mode_executable_matches, is_configured_game, GameModeRuntimeState, GameModeView,
};
use crate::geometry::{MonitorId, MonitorInfo, Point, Rect, WindowHandle};
use crate::handles::{handles_of, lemma_filter_ends, lemma_filter_step, ordered_handles};
use crate::layout::WindowParticipation;
use crate::monitors::{
    fills_some_monitor, has_monitor, known_monitor, monitor_for_rect, monitor_of_rect,
    rect_fills_some_monitor,
};
use crate::rules::{decided, evaluate_window_rules, DecisionView, WindowRuleDecision};
use crate::runtime_config::RuntimeConfig;
use crate::size::{merge_size_constraints, WindowSizeConstraints};
use crate::sorted_map::SortedMap;
use crate::split_memory::SplitMemory;
use crate::window::WindowInfo;
use crate::workspace::{WorkspaceManager, WorkspaceView};

verus! {

/// A drag with modifier keys: the window, where cursor and window were at the start, where the cursor
/// was last, how often the window was moved, and whether the drag took it out of the tiling.
#[derive(Debug, Clone, Copy, PartialEq, Eq, Structural)]
pub struct ActiveModifierDrag {
    pub window: WindowHandle,
    pub start_cursor: Point,
    pub last_cursor: Point,
    pub start_rect: Rect,
    pub move_count: u32,
    pub started_temporary_float: bool,
}

/// A drag by the window's own title bar: the window, where cursor and window were at the start, and
/// the monitors at that time.
#[derive(Debug, Clone, PartialEq, Eq)]
pub struct ActiveInteractiveDrag {
    pub window: WindowHandle,
    pub start_cursor: Point,
    pub start_rect: Rect,
    pub monitors: Vec<MonitorInfo>,
}

/// A drag by the title bar as a value.
pub ghost struct InteractiveDragView {
    pub window: WindowHandle,
    pub start_cursor: Point,
    pub start_rect: Rect,
    pub monitors: Seq<MonitorInfo>,
}

impl View for ActiveInteractiveDrag {
    type V = InteractiveDragView;

    open spec fn view(&self) -> InteractiveDragView {
        InteractiveDragView {
            window: self.window,
            start_cursor: self.start_cursor,
            start_rect: self.start_rect,
            monitors: self.monitors@,
        }
    }
}

/// Where a window was dropped, and where the cursor was.
#[derive(Debug, Clone, Copy, PartialEq, Eq, Structural)]
pub struct DropContext {
    pub rect: Rect,
    pub cursor: Option<Point>,
}

/// What the daemon counts of its own work.
#[derive(Debug, Clone, Copy, PartialEq, Eq, Structural)]
pub struct DaemonPerformance {
    pub relayout_count: u64,
    pub skipped_relayout_count: u64,
    pub last_relayout_duration_ms: u64,
    pub last_relayout_move_count: usize,
    pub border_window_count: usize,
    pub config_reload_count: u64,
}

impl Default for DaemonPerformance {
    fn default() -> (r: Self)
        ensures
            r == (DaemonPerformance {
                relayout_count: 0,
                skipped_relayout_count: 0,
                last_relayout_duration_ms: 0,
                last_relayout_move_count: 0,
                border_window_count: 0,
                config_reload_count: 0,
            }),
    {
        DaemonPerformance {
            relayout_count: 0,
            skipped_relayout_count: 0,
            last_relayout_duration_ms: 0,
            last_relayout_move_count: 0,
            border_window_count: 0,
            config_reload_count: 0,
        }
    }
}

/// The state of the daemon.
///
/// Sets of windows are maps to nothing; limits on window sizes are kept beside the windows.
#[derive(Debug, Clone, PartialEq, Eq)]
pub struct DaemonState {
    pub windows: SortedMap<WindowInfo>,
    pub size_constraints: SortedMap<WindowSizeConstraints>,
    pub foreground: Option<WindowHandle>,
    pub tile_order: Vec<WindowHandle>,
    pub participation: SortedMap<WindowParticipation>,
    pub dwindle_splits: SplitMemory,
    pub previous_rects: SortedMap<Rect>,
    pub learned_size_constraints: SortedMap<WindowSizeConstraints>,
    pub window_monitor_overrides: SortedMap<MonitorId>,
    pub overflow_promoted_floating: SortedMap<()>,
    pub workspaces: WorkspaceManager,
    pub active_modifier_drag: Option<ActiveModifierDrag>,
    pub active_interactive_drag: Option<ActiveInteractiveDrag>,
    pub suppressed_modifier_drag_events: SortedMap<()>,
    pub config: RuntimeConfig,
    pub config_path: Option<String>,
    pub config_version: u64,
    pub config_loaded_at_unix_ms: u64,
    pub game_mode: GameModeRuntimeState,
    pub perf: DaemonPerformance,
}

/// The state of the daemon as a value.
pub ghost struct DaemonView {
    pub windows: Map<u64, WindowInfo>,
    pub size_constraints: Map<u64, WindowSizeConstraints>,
    pub foreground: Option<WindowHandle>,
    pub tile_order: Seq<WindowHandle>,
    pub participation: Map<u64, WindowParticipation>,
    pub dwindle_splits: Map<(u16, u64), Seq<DwindleSplit>>,
    pub previous_rects: Map<u64, Rect>,
    pub learned: Map<u64, WindowSizeConstraints>,
    pub overrides: Map<u64, MonitorId>,
    pub promoted: Map<u64, ()>,
    pub workspaces: WorkspaceView,
    pub modifier_drag: Option<ActiveModifierDrag>,
    pub interactive_drag: Option<InteractiveDragView>,
    pub suppressed: Map<u64, ()>,
    pub config: RuntimeConfig,
    pub config_path: Option<String>,
    pub config_version: u64,
    pub config_loaded_at_unix_ms: u64,
    pub game_mode: GameModeView,
    pub perf: DaemonPerformance,
}

impl View for DaemonState {
    type V = DaemonView;

    open spec fn view(&self) -> DaemonView {
        DaemonView {
            windows: self.windows@,
            size_constraints: self.size_constraints@,
            foreground: self.foreground,
            tile_order: self.tile_order@,
            participation: self.participation@,
            dwindle_splits: self.dwindle_splits@,
            previous_rects: self.previous_rects@,
            learned: self.learned_size_constraints@,
            overrides: self.window_monitor_overrides@,
            promoted: self.overflow_promoted_floating@,
            workspaces: self.workspaces@,
            modifier_drag: self.active_modifier_drag,
            interactive_drag: match self.active_interactive_drag {
                Some(drag) => Some(drag@),
                None => None,
            },
            suppressed: self.suppressed_modifier_drag_events@,
            config: self.config,
            config_path: self.config_path,
            config_version: self.config_version,
            config_loaded_at_unix_ms: self.config_loaded_at_unix_ms,
            game_mode: self.game_mode@,
            perf: self.perf,
        }
    }
}

/// The limit that goes with a window in a map of limits.
pub open spec fn limit_of(limits: Map<u64, WindowSizeConstraints>, window: WindowHandle) -> WindowSizeConstraints {
    if limits.contains_key(window.0) {
        limits[window.0]
    } else {
        WindowSizeConstraints::spec_none()
    }
}

impl DaemonView {
    /// How a window takes part in the layout.
    pub open spec fn takes_part(self, window: WindowHandle) -> WindowParticipation {
        if self.participation.contains_key(window.0) {
            self.participation[window.0]
        } else {
            WindowParticipation::Tiled
        }
    }

    /// Whether a window floats, for good or for a while.
    pub open spec fn floats(self, window: WindowHandle) -> bool {
        self.takes_part(window) != WindowParticipation::Tiled
    }

    /// Where a window belongs: where it was last seen, or else where it is.
    pub open spec fn layout_rect(self, window: WindowHandle) -> Rect {
        if self.workspaces.windows.contains_key(window.0)
            && self.workspaces.windows[window.0].last_rect is Some {
            self.workspaces.windows[window.0].last_rect.unwrap()
        } else {
            self.windows[window.0].rect
        }
    }

    /// The monitor that a window belongs to: the one it was put on, if that is still there, or else
    /// the one of its rectangle.
    pub open spec fn owner(self, window: WindowHandle, monitors: Seq<MonitorInfo>) -> Option<MonitorId> {
        if self.overrides.contains_key(window.0) && known_monitor(
            monitors,
            self.overrides[window.0],
        ) {
            Some(self.overrides[window.0])
        } else if self.windows.contains_key(window.0) {
            monitor_of_rect(self.layout_rect(window), monitors)
        } else {
            None
        }
    }

    /// Whether a window is on the workspace that a monitor shows.
    pub open spec fn on_monitor(self, window: WindowHandle, monitor: MonitorId) -> bool {
        self.workspaces.shows_on(window, self.workspaces.active_on(monitor))
    }

    /// Whether a window is on the workspace that its monitor shows.
    pub open spec fn visible(self, window: WindowHandle, monitors: Seq<MonitorInfo>) -> bool {
        match self.owner(window, monitors) {
            Some(monitor) => self.on_monitor(window, monitor),
            None => self.workspaces.shows_on(window, self.workspaces.active),
        }
    }

    /// What the rules decide for a window.
    pub open spec fn decision(self, info: WindowInfo) -> DecisionView {
        decided(info, self.config.window_rules@)
    }

    /// Whether neither a rule nor the list of games keeps the daemon from managing a window.
    pub open spec fn allowed(self, info: WindowInfo) -> bool {
        &&& self.decision(info).manage != Some(false)
        &&& self.decision(info).mode is None
        &&& !is_configured_game(info, self.config.game_mode.policy)
    }

    /// Whether a window may be managed.
    pub open spec fn managed(self, info: WindowInfo) -> bool {
        info.refusal() is None && self.allowed(info)
    }

    /// Whether a window may be managed, visible or not.
    pub open spec fn managed_when_hidden(self, info: WindowInfo) -> bool {
        info.refusal_when_hidden() is None && self.allowed(info)
    }

    /// Whether a window fills a monitor.
    pub open spec fn fullscreen(self, info: WindowInfo, monitors: Seq<MonitorInfo>) -> bool {
        fills_some_monitor(
            info.rect,
            monitors,
            self.config.game_mode.policy.fullscreen_tolerance_px as int,
        )
    }

    /// Whether a window is visible and may be managed.
    pub open spec fn manageable(self, window: WindowHandle, monitors: Seq<MonitorInfo>) -> bool {
        &&& self.visible(window, monitors)
        &&& self.windows.contains_key(window.0)
        &&& self.managed(self.windows[window.0])
    }

    /// Whether a command may move a window.
    pub open spec fn movable(self, window: WindowHandle, monitors: Seq<MonitorInfo>) -> bool {
        &&& self.manageable(window, monitors)
        &&& !self.fullscreen(self.windows[window.0], monitors)
    }

    /// Whether the daemon may move, hide or show a window.
    pub open spec fn safe_to_move(self, window: WindowHandle, monitors: Seq<MonitorInfo>) -> bool {
        &&& self.windows.contains_key(window.0)
        &&& self.managed_when_hidden(self.windows[window.0])
        &&& !self.fullscreen(self.windows[window.0], monitors)
    }

    /// Whether a window may be tiled on a monitor.
    pub open spec fn tilable(self, window: WindowHandle, monitor: MonitorId) -> bool {
        &&& self.on_monitor(window, monitor)
        &&& self.windows.contains_key(window.0)
        &&& self.managed_when_hidden(self.windows[window.0])
    }

    /// Whether a rectangle of a window belongs to a monitor: the window was put there, or else the
    /// rectangle is there.
    pub open spec fn owns_rect(
        self,
        window: WindowHandle,
        monitor: MonitorId,
        rect: Rect,
        monitors: Seq<MonitorInfo>,
    ) -> bool {
        if self.overrides.contains_key(window.0) && known_monitor(
            monitors,
            self.overrides[window.0],
        ) {
            self.overrides[window.0] == monitor
        } else {
            monitor_of_rect(rect, monitors) == Some(monitor)
        }
    }

    /// The windows that may be managed, by their handles.
    pub open spec fn is_managed_handle(self) -> spec_fn(WindowHandle) -> bool {
        |window: WindowHandle| self.managed(self.windows[window.0])
    }

    /// The windows that are visible and may be managed.
    pub open spec fn is_manageable(self, monitors: Seq<MonitorInfo>) -> spec_fn(WindowHandle) -> bool {
        |window: WindowHandle| self.manageable(window, monitors)
    }

    /// The windows that can have the focus, in the order of the tiles.
    pub open spec fn focusable(self, monitors: Seq<MonitorInfo>) -> Seq<WindowHandle> {
        self.tile_order.filter(self.is_manageable(monitors))
    }

    /// The windows that may be managed, in ascending order of their handles.
    pub open spec fn managed_handles(self) -> Seq<WindowHandle> {
        ordered_handles(self.windows).filter(self.is_managed_handle())
    }

    /// The limits on the size of a window: those that it states, tightened by those learned of it.
    pub open spec fn limits(self, window: WindowHandle) -> WindowSizeConstraints {
        limit_of(self.size_constraints, window).merged(limit_of(self.learned, window))
    }

    /// The state after a window was made to take part in another way.
    pub open spec fn with_participation(
        self,
        window: WindowHandle,
        participation: WindowParticipation,
    ) -> DaemonView {
        DaemonView {
            promoted: self.promoted.remove(window.0),
            participation: if participation == WindowParticipation::Tiled {
                self.participation.remove(window.0)
            } else {
                self.participation.insert(window.0, participation)
            },
            ..self
        }
    }

    /// The state after it was noted where a window is.
    pub open spec fn with_previous_rect(self, window: WindowHandle) -> DaemonView {
        if self.windows.contains_key(window.0) {
            DaemonView {
                previous_rects: self.previous_rects.insert(window.0, self.windows[window.0].rect),
                ..self
            }
        } else {
            self
        }
    }

    /// The state after a window was floated because the tiles did not fit.
    pub open spec fn with_promoted(self, window: WindowHandle) -> DaemonView {
        let floated = self.with_previous_rect(window).with_participation(
            window,
            WindowParticipation::Floating,
        );
        DaemonView { promoted: floated.promoted.insert(window.0, ()), ..floated }
    }

    /// The window that is dragged by its title bar.
    pub open spec fn interactive_window(self) -> Option<WindowHandle> {
        match self.interactive_drag {
            Some(drag) => Some(drag.window),
            None => None,
        }
    }

    /// The window that is dragged.
    pub open spec fn dragged_window(self) -> Option<WindowHandle> {
        match self.modifier_drag {
            Some(drag) => Some(drag.window),
            None => self.interactive_window(),
        }
    }
}

impl DaemonState {
    /// Whether the parts of the state are in order.
    pub open spec fn wf(&self) -> bool {
        &&& self.windows.wf()
        &&& self.size_constraints.wf()
        &&& self.participation.wf()
        &&& self.dwindle_splits.wf()
        &&& self.previous_rects.wf()
        &&& self.learned_size_constraints.wf()
        &&& self.window_monitor_overrides.wf()
        &&& self.overflow_promoted_floating.wf()
        &&& self.workspaces.wf()
        &&& self.suppressed_modifier_drag_events.wf()
        &&& self.config.wf()
    }

    /// How a window takes part in the layout.
    pub fn window_participation(&self, window: WindowHandle) -> (r: WindowParticipation)
        requires
            self.wf(),
        ensures
            r == self@.takes_part(window),
    {
        match self.participation.get(window.0) {
            Some(participation) => *participation,
            None => WindowParticipation::Tiled,
        }
    }

    /// Where a window belongs.
    pub fn window_layout_rect(&self, handle: WindowHandle, window: &WindowInfo) -> (r: Rect)
        requires
            self.wf(),
            self@.windows.contains_key(handle.0),
            *window == self@.windows[handle.0],
        ensures
            r == self@.layout_rect(handle),
    {
        match self.workspaces.window_state(handle) {
            Some(state) => match state.last_rect {
                Some(rect) => rect,
                None => window.rect,
            },
            None => window.rect,
        }
    }

    /// The monitor that a window belongs to.
    pub fn window_owner_monitor(&self, handle: WindowHandle, monitors: &[MonitorInfo]) -> (r: Option<
        MonitorId,
    >)
        requires
            self.wf(),
        ensures
            r == self@.owner(handle, monitors@),
    {
        if let Some(monitor) = self.window_monitor_overrides.get(handle.0) {
            if has_monitor(monitors, *monitor) {
                return Some(*monitor);
            }
        }
        match self.windows.get(handle.0) {
            Some(window) => monitor_for_rect(self.window_layout_rect(handle, window), monitors),
            None => None,
        }
    }

    /// Whether a window belongs to a monitor.
    pub fn window_belongs_to_monitor(
        &self,
        handle: WindowHandle,
        monitor: MonitorId,
        monitors: &[MonitorInfo],
    ) -> (r: bool)
        requires
            self.wf(),
        ensures
            r == (self@.owner(handle, monitors@) == Some(monitor)),
    {
        match self.window_owner_monitor(handle, monitors) {
            Some(owner) => owner == monitor,
            None => false,
        }
    }

    /// Whether a rectangle of a window belongs to a monitor.
    pub fn monitor_owns_window_rect(
        &self,
        window: WindowHandle,
        monitor: &MonitorInfo,
        rect: Rect,
        monitors: &[MonitorInfo],
    ) -> (r: bool)
        requires
            self.wf(),
        ensures
            r == self@.owns_rect(window, monitor.id, rect, monitors@),
    {
        if let Some(override_monitor) = self.window_monitor_overrides.get(window.0) {
            if has_monitor(monitors, *override_monitor) {
                return *override_monitor == monitor.id;
            }
        }
        match monitor_for_rect(rect, monitors) {
            Some(owner) => owner == monitor.id,
            None => false,
        }
    }

    /// Whether a window is on the workspace that its monitor shows.
    pub fn is_window_visible_on_owned_monitor(&self, handle: WindowHandle, monitors: &[MonitorInfo]) -> (r:
        bool)
        requires
            self.wf(),
        ensures
            r == self@.visible(handle, monitors@),
    {
        match self.window_owner_monitor(handle, monitors) {
            Some(monitor) => self.workspaces.is_window_on_monitor_workspace(handle, monitor),
            None => self.workspaces.is_window_on_active_workspace(handle),
        }
    }

    /// What the rules decide for a window.
    pub fn rule_decision(&self, window: &WindowInfo) -> (r: WindowRuleDecision)
        ensures
            r@ == self@.decision(*window),
    {
        evaluate_window_rules(window, &self.config.window_rules)
    }

    fn is_allowed(&self, window: &WindowInfo, decision: &WindowRuleDecision) -> (r: bool)
        requires
            decision@ == self@.decision(*window),
        ensures
            r == self@.allowed(*window),
    {
        let refused: bool = match decision.manage {
            Some(manage) => !manage,
            None => false,
        };
        !refused && decision.mode.is_none() && !game_mode_executable_matches(
            window,
            &self.config.game_mode.policy,
        )
    }

    /// Whether a window may be managed.
    pub fn is_manageable_by_rules(&self, window: &WindowInfo, decision: &WindowRuleDecision) -> (r: bool)
        requires
            decision@ == self@.decision(*window),
        ensures
            r == self@.managed(*window),
    {
        window.is_manageable() && self.is_allowed(window, decision)
    }

    /// Whether a window may be managed, visible or not.
    pub fn is_workspace_manageable_by_rules(&self, window: &WindowInfo, decision: &WindowRuleDecision) -> (r:
        bool)
        requires
            decision@ == self@.decision(*window),
        ensures
            r == self@.managed_when_hidden(*window),
    {
        window.is_workspace_manageable() && self.is_allowed(window, decision)
    }

    /// Whether a window fills a monitor.
    pub fn is_fullscreen_window(&self, window: &WindowInfo, monitors: &[MonitorInfo]) -> (r: bool)
        ensures
            r == self@.fullscreen(*window, monitors@),
    {
        rect_fills_some_monitor(
            window.rect,
            monitors,
            self.config.game_mode.policy.fullscreen_tolerance_px,
        )
    }

    /// Whether a window is visible and may be managed.
    pub fn is_manageable_window(&self, handle: WindowHandle, monitors: &[MonitorInfo]) -> (r: bool)
        requires
            self.wf(),
        ensures
            r == self@.manageable(handle, monitors@),
    {
        if !self.is_window_visible_on_owned_monitor(handle, monitors) {
            return false;
        }
        match self.windows.get(handle.0) {
            Some(window) => self.is_manageable_by_rules(window, &self.rule_decision(window)),
            None => false,
        }
    }

    /// Whether a command may move a window.
    pub fn is_command_movable_window(&self, handle: WindowHandle, monitors: &[MonitorInfo]) -> (r: bool)
        requires
            self.wf(),
        ensures
            r == self@.movable(handle, monitors@),
    {
        if !self.is_manageable_window(handle, monitors) {
            return false;
        }
        match self.windows.get(handle.0) {
            Some(window) => !self.is_fullscreen_window(window, monitors),
            None => false,
        }
    }

    /// Whether the daemon may move a window.
    pub fn is_safe_to_move_window(&self, handle: WindowHandle, monitors: &[MonitorInfo]) -> (r: bool)
        requires
            self.wf(),
        ensures
            r == self@.safe_to_move(handle, monitors@),
    {
        match self.windows.get(handle.0) {
            Some(window) => self.is_workspace_manageable_by_rules(window, &self.rule_decision(window))
                && !self.is_fullscreen_window(window, monitors),
            None => false,
        }
    }

    /// Whether a change of workspaces may hide a window.
    pub fn should_hide_for_workspace(&self, window: WindowHandle, monitors: &[MonitorInfo]) -> (r: bool)
        requires
            self.wf(),
        ensures
            r == self@.safe_to_move(window, monitors@),
    {
        self.is_safe_to_move_window(window, monitors)
    }

    /// Whether a window may be tiled on a monitor.
    pub fn is_tilable_window_on_monitor(&self, handle: WindowHandle, monitor: MonitorId) -> (r: bool)
        requires
            self.wf(),
        ensures
            r == self@.tilable(handle, monitor),
    {
        if !self.workspaces.is_window_on_monitor_workspace(handle, monitor) {
            return false;
        }
        match self.windows.get(handle.0) {
            Some(window) => self.is_workspace_manageable_by_rules(window, &self.rule_decision(window)),
            None => false,
        }
    }

    /// The windows that may be managed, in ascending order of their handles.
    pub fn manageable_handles_sorted(&self) -> (r: Vec<WindowHandle>)
        requires
            self.wf(),
        ensures
            r@ == self@.managed_handles(),
    {
        let ghost keep = self@.is_managed_handle();
        let all: Vec<WindowHandle> = handles_of(&self.windows);
        let mut kept: Vec<WindowHandle> = Vec::new();
        let mut index: usize = 0;
        proof {
            lemma_filter_ends(all@, keep);
        }
        while index < all.len()
            invariant
                index <= all.len(),
                self.wf(),
                keep == self@.is_managed_handle(),
                forall|i: int| 0 <= i < all.len() ==> self@.windows.contains_key((#[trigger] all@[i]).0),
                kept@ == all@.take(index as int).filter(keep),
            decreases all.len() - index,
        {
            proof {
                lemma_filter_step(all@, index as int, keep);
            }
            if let Some(window) = self.windows.get(all[index].0) {
                if self.is_manageable_by_rules(window, &self.rule_decision(window)) {
                    kept.push(all[index]);
                }
            }
            index = index + 1;
        }
        proof {
            lemma_filter_ends(all@, keep);
        }
        kept
    }

    /// The windows that can have the focus, in the order of the tiles.
    pub fn focusable_handles(&self, monitors: &[MonitorInfo]) -> (r: Vec<WindowHandle>)
        requires
            self.wf(),
        ensures
            r@ == self@.focusable(monitors@),
    {
        let ghost keep = self@.is_manageable(monitors@);
        let mut kept: Vec<WindowHandle> = Vec::new();
        let mut index: usize = 0;
        proof {
            lemma_filter_ends(self.tile_order@, keep);
        }
        while index < self.tile_order.len()
            invariant
                index <= self.tile_order.len(),
                self.wf(),
                keep == self@.is_manageable(monitors@),
                kept@ == self.tile_order@.take(index as int).filter(keep),
            decreases self.tile_order.len() - index,
        {
            proof {
                lemma_filter_step(self.tile_order@, index as int, keep);
            }
            if self.is_manageable_window(self.tile_order[index], monitors) {
                kept.push(self.tile_order[index]);
            }
            index = index + 1;
        }
        proof {
            lemma_filter_ends(self.tile_order@, keep);
        }
        kept
    }

    /// The limits on the size of a window.
    pub fn window_limits(&self, window: WindowHandle) -> (r: WindowSizeConstraints)
        requires
            self.wf(),
        ensures
            r == self@.limits(window),
    {
        let stated: WindowSizeConstraints = match self.size_constraints.get(window.0) {
            Some(constraints) => *constraints,
            None => WindowSizeConstraints::none(),
        };
        let learned: WindowSizeConstraints = match self.learned_size_constraints.get(window.0) {
            Some(constraints) => *constraints,
            None => WindowSizeConstraints::none(),
        };
        merge_size_constraints(stated, learned)
    }

    /// Makes a window take part in another way.
    pub fn set_window_participation(&mut self, window: WindowHandle, participation: WindowParticipation)
        requires
            old(self).wf(),
        ensures
            final(self).wf(),
            final(self)@ == old(self)@.with_participation(window, participation),
    {
        self.overflow_promoted_floating.remove(window.0);
        match participation {
            WindowParticipation::Tiled => {
                self.participation.remove(window.0);
            },
            WindowParticipation::Floating | WindowParticipation::TemporarilyFloating => {
                self.participation.insert(window.0, participation);
            },
        }
    }

    /// Notes where a window is.
    pub fn remember_previous_rect(&mut self, window: WindowHandle)
        requires
            old(self).wf(),
        ensures
            final(self).wf(),
            final(self)@ == old(self)@.with_previous_rect(window),
    {
        if let Some(info) = self.windows.get(window.0) {
            self.previous_rects.insert(window.0, info.rect);
        }
    }

    /// Floats a window because the tiles do not fit.
    pub fn promote_overflow_window_to_floating(&mut self, window: WindowHandle)
        requires
            old(self).wf(),
        ensures
            final(self).wf(),
            final(self)@ == old(self)@.with_promoted(window),
    {
        self.remember_previous_rect(window);
        self.set_window_participation(window, WindowParticipation::Floating);
        self.overflow_promoted_floating.insert(window.0, ());
    }

    /// Forgets the limits that were learned of a window.
    pub fn forget_learned_size_constraint(&mut self, window: WindowHandle)
        requires
            old(self).wf(),
        ensures
            final(self).wf(),
            final(self)@ == (DaemonView {
                learned: old(self)@.learned.remove(window.0),
                ..old(self)@
            }),
    {
        self.learned_size_constraints.remove(window.0);
    }

    /// Gives the focus to the monitor of a window.
    pub fn focus_monitor_for_window(&mut self, window: WindowHandle, monitors: &[MonitorInfo])
        requires
            old(self).wf(),
        ensures
            final(self).wf(),
            final(self)@ == old(self)@.focusing_monitor_of(window, monitors@),
    {
        if let Some(monitor) = self.window_owner_monitor(window, monitors) {
            self.workspaces.focus_monitor(monitor);
        }
    }

    /// The window that is dragged by its title bar.
    pub fn active_interactive_drag_window(&self) -> (r: Option<WindowHandle>)
        ensures
            r == self@.interactive_window(),
    {
        match &self.active_interactive_drag {
            Some(drag) => Some(drag.window),
            None => None,
        }
    }

    /// The window that is dragged.
    pub fn active_drag_window(&self) -> (r: Option<WindowHandle>)
        ensures
            r == self@.dragged_window(),
    {
        match self.active_modifier_drag {
            Some(drag) => Some(drag.window),
            None => self.active_interactive_drag_window(),
        }
    }

    /// Whether no window is tiled because a game has the focus.
    pub fn game_mode_pauses_layouts(&self) -> (r: bool)
        ensures
            r == self@.game_mode.pauses_layouts(),
    {
        self.game_mode.pauses_layouts()
    }

    /// Whether no window is tiled on a monitor because a game has the focus there.
    pub fn game_mode_pauses_monitor(&self, monitor: MonitorId) -> (r: bool)
        ensures
            r == self@.game_mode.pauses_monitor(monitor),
    {
        self.game_mode.pauses_monitor(monitor)
    }

    /// Whether no border is drawn because a game has the focus.
    pub fn game_mode_hides_borders(&self) -> (r: bool)
        ensures
            r == self@.game_mode.hides_borders(),
    {
        self.game_mode.hides_borders()
    }
}

impl DaemonView {
    /// The state with the focus on the monitor of a window.
    pub open spec fn focusing_monitor_of(self, window: WindowHandle, monitors: Seq<MonitorInfo>) -> DaemonView {
        match self.owner(window, monitors) {
            Some(monitor) => DaemonView {
                workspaces: self.workspaces.focused_on(monitor),
                ..self
            },
            None => self,
        }
    }
}

} // verus!
