//! Which windows get a border, and which are raised above the tiles.

use vstd::prelude::*;

use crate::border::{BorderColor, BorderUpdate};
use crate::daemon_state::{DaemonState, DaemonView};
use crate::geometry::{MonitorInfo, Rect, WindowHandle};
use crate::handles::{
    contains_handle, first_position, handles_of, lemma_filter_ends, lemma_filter_holds,
    lemma_filter_step, ordered_handles, position_of,
};
use crate::sorted_map::SortedMap;
use crate::window::WindowInfo;

verus! {

/// A window that may have a border: where it is, the colour, and whether it has the focus and floats.
#[derive(Debug, Clone, Copy, PartialEq, Eq, Structural)]
pub struct BorderCandidate {
    pub window: WindowHandle,
    pub rect: Rect,
    pub color: BorderColor,
    pub focused: bool,
    pub floating: bool,
}

/// A list with one of its windows moved to the end, if it is in it.
pub open spec fn moved_last(windows: Seq<WindowHandle>, window: Option<WindowHandle>) -> Seq<WindowHandle> {
    match window {
        Some(window) => match first_position(windows, window) {
            Some(at) => windows.remove(at).push(window),
            None => windows,
        },
        None => windows,
    }
}

impl DaemonView {
    /// The windows that are raised above the tiles.
    pub open spec fn is_raised(self, monitors: Seq<MonitorInfo>) -> spec_fn(WindowHandle) -> bool {
        |window: WindowHandle|
            {
                &&& self.floats(window)
                &&& self.owner(window, monitors) matches Some(monitor)
                &&& !self.game_mode.pauses_monitor(monitor)
                &&& self.visible(window, monitors)
                &&& self.safe_to_move(window, monitors)
            }
    }

    /// The windows that are raised and not in a list.
    pub open spec fn is_raised_beside(self, listed: Seq<WindowHandle>, monitors: Seq<MonitorInfo>) -> spec_fn(
        WindowHandle,
    ) -> bool {
        |window: WindowHandle| !listed.contains(window) && self.is_raised(monitors)(window)
    }

    /// The windows that are raised, those in the order of the tiles first.
    pub open spec fn raised_in_order(self, monitors: Seq<MonitorInfo>) -> Seq<WindowHandle> {
        let listed = self.tile_order.filter(self.is_raised(monitors));
        listed + ordered_handles(self.windows).filter(self.is_raised_beside(listed, monitors))
    }

    /// The windows that are raised above the tiles, the one with the focus last; none while a game
    /// pauses the layouts.
    pub open spec fn raised(self, monitors: Seq<MonitorInfo>) -> Seq<WindowHandle> {
        if self.game_mode.pauses_layouts() {
            Seq::empty()
        } else {
            moved_last(self.raised_in_order(monitors), self.foreground)
        }
    }

    /// The windows that may have a border.
    pub open spec fn may_have_border(self, monitors: Seq<MonitorInfo>) -> spec_fn(WindowHandle) -> bool {
        |window: WindowHandle|
            {
                &&& self.owner(window, monitors) matches Some(monitor)
                &&& !self.game_mode.pauses_monitor(monitor)
                &&& self.movable(window, monitors)
            }
    }

    /// Whether borders are drawn at all.
    pub open spec fn draws_borders(self, monitors: Seq<MonitorInfo>) -> bool {
        &&& self.config.borders.enabled
        &&& !self.game_mode.hides_borders()
        &&& !(self.config.borders.disable_when_fullscreen && self.focus_stands_out(monitors))
    }

    /// Whether the window with the focus is fullscreen or may not be managed.
    pub open spec fn focus_stands_out(self, monitors: Seq<MonitorInfo>) -> bool {
        &&& self.foreground matches Some(window)
        &&& self.windows.contains_key(window.0)
        &&& self.fullscreen(self.windows[window.0], monitors) || !self.managed(
            self.windows[window.0],
        )
    }

    /// The windows whose border is seen.
    pub open spec fn has_border(self, monitors: Seq<MonitorInfo>) -> spec_fn(WindowHandle) -> bool {
        |window: WindowHandle|
            {
                &&& self.draws_borders(monitors)
                &&& self.may_have_border(monitors)(window)
                &&& {
                    ||| self.foreground == Some(window)
                    ||| self.floats(window)
                    ||| self.config.borders.show_inactive
                }
            }
    }

    /// What the border of a window looks like.
    pub open spec fn border_of(self, window: WindowHandle) -> BorderCandidate {
        BorderCandidate {
            window,
            rect: self.windows[window.0].rect,
            color: if self.foreground == Some(window) {
                self.config.borders.active_color
            } else if self.floats(window) {
                self.config.borders.floating_color
            } else {
                self.config.borders.inactive_color
            },
            focused: self.foreground == Some(window),
            floating: self.floats(window),
        }
    }

    /// What the borders of windows look like.
    pub open spec fn borders_of(self, windows: Seq<WindowHandle>) -> Seq<BorderCandidate> {
        windows.map_values(|window: WindowHandle| self.border_of(window))
    }

    /// How a border is updated: one that is seen is where its window was read to be, unless the window
    /// is dragged.
    pub open spec fn border_update(
        self,
        window: WindowHandle,
        monitors: Seq<MonitorInfo>,
        actual: Map<u64, Rect>,
    ) -> BorderUpdate {
        let visible = self.has_border(monitors)(window);
        BorderUpdate {
            window,
            rect: if visible && self.dragged_window() != Some(window) && actual.contains_key(window.0) {
                actual[window.0]
            } else {
                self.windows[window.0].rect
            },
            color: self.border_of(window).color,
            visible,
        }
    }

    /// The layer of a border: unseen ones lowest, then those of tiles, then those of floating windows,
    /// the focused one last of each.
    pub open spec fn border_layer(self, window: WindowHandle, monitors: Seq<MonitorInfo>) -> int {
        if !self.has_border(monitors)(window) {
            0
        } else {
            1 + (if self.floats(window) {
                2int
            } else {
                0
            }) + (if self.foreground == Some(window) {
                1int
            } else {
                0
            })
        }
    }

    /// The windows of a layer that may have a border.
    pub open spec fn is_on_layer(self, layer: int, monitors: Seq<MonitorInfo>) -> spec_fn(WindowHandle) -> bool {
        |window: WindowHandle|
            self.may_have_border(monitors)(window) && self.border_layer(window, monitors) == layer
    }

    /// The windows that may have a border, by their layers and then by their handles.
    pub open spec fn bordered_by_layer(self, layers: int, monitors: Seq<MonitorInfo>) -> Seq<WindowHandle>
        decreases layers,
    {
        if layers <= 0 {
            Seq::empty()
        } else {
            self.bordered_by_layer(layers - 1, monitors) + ordered_handles(self.windows).filter(
                self.is_on_layer(layers - 1, monitors),
            )
        }
    }

    /// How the borders of windows are updated.
    pub open spec fn updates_of(
        self,
        windows: Seq<WindowHandle>,
        monitors: Seq<MonitorInfo>,
        actual: Map<u64, Rect>,
    ) -> Seq<BorderUpdate> {
        windows.map_values(|window: WindowHandle| self.border_update(window, monitors, actual))
    }
}

/// How many layers of borders there are.
pub const BORDER_LAYERS: u8 = 5;

impl DaemonState {
    /// Whether a window is raised above the tiles.
    pub fn is_floating_z_order_window(&self, handle: WindowHandle, monitors: &[MonitorInfo]) -> (r: bool)
        requires
            self.wf(),
        ensures
            r == self@.is_raised(monitors@)(handle),
    {
        if !self.window_participation(handle).is_floating() {
            return false;
        }
        match self.window_owner_monitor(handle, monitors) {
            None => {
                return false;
            },
            Some(monitor) => {
                if self.game_mode_pauses_monitor(monitor) {
                    return false;
                }
            },
        }
        self.is_window_visible_on_owned_monitor(handle, monitors) && self.is_safe_to_move_window(
            handle,
            monitors,
        )
    }

    /// The windows that are raised above the tiles.
    pub fn floating_z_order_windows(&self, monitors: &[MonitorInfo]) -> (r: Vec<WindowHandle>)
        requires
            self.wf(),
        ensures
            r@ == self@.raised(monitors@),
    {
        if self.game_mode_pauses_layouts() {
            return Vec::new();
        }
        let ghost keep = self@.is_raised(monitors@);
        let mut listed: Vec<WindowHandle> = Vec::new();
        let mut index: usize = 0;
        proof {
            lemma_filter_ends(self.tile_order@, keep);
        }
        while index < self.tile_order.len()
            invariant
                index <= self.tile_order.len(),
                self.wf(),
                keep == self@.is_raised(monitors@),
                listed@ == self.tile_order@.take(index as int).filter(keep),
            decreases self.tile_order.len() - index,
        {
            proof {
                lemma_filter_step(self.tile_order@, index as int, keep);
            }
            if self.is_floating_z_order_window(self.tile_order[index], monitors) {
                listed.push(self.tile_order[index]);
            }
            index = index + 1;
        }
        proof {
            lemma_filter_ends(self.tile_order@, keep);
        }
        let handles: Vec<WindowHandle> = handles_of(&self.windows);
        let ghost beside = self@.is_raised_beside(listed@, monitors@);
        let mut rest: Vec<WindowHandle> = Vec::new();
        let mut place: usize = 0;
        proof {
            lemma_filter_ends(handles@, beside);
        }
        while place < handles.len()
            invariant
                place <= handles.len(),
                self.wf(),
                beside == self@.is_raised_beside(listed@, monitors@),
                rest@ == handles@.take(place as int).filter(beside),
            decreases handles.len() - place,
        {
            proof {
                lemma_filter_step(handles@, place as int, beside);
            }
            if !contains_handle(&listed, handles[place]) && self.is_floating_z_order_window(
                handles[place],
                monitors,
            ) {
                rest.push(handles[place]);
            }
            place = place + 1;
        }
        proof {
            lemma_filter_ends(handles@, beside);
        }
        let mut windows: Vec<WindowHandle> = listed;
        windows.append(&mut rest);
        proof {
            assert(windows@ =~= self@.raised_in_order(monitors@));
        }
        if let Some(foreground) = self.foreground {
            if let Some(at) = position_of(&windows, foreground) {
                windows.remove(at);
                windows.push(foreground);
            }
        }
        windows
    }

    fn can_have_border(&self, handle: WindowHandle, monitors: &[MonitorInfo]) -> (r: bool)
        requires
            self.wf(),
        ensures
            r == self@.may_have_border(monitors@)(handle),
    {
        match self.window_owner_monitor(handle, monitors) {
            None => false,
            Some(monitor) => !self.game_mode_pauses_monitor(monitor) && self.is_command_movable_window(
                handle,
                monitors,
            ),
        }
    }

    fn are_borders_drawn(&self, monitors: &[MonitorInfo]) -> (r: bool)
        requires
            self.wf(),
        ensures
            r == self@.draws_borders(monitors@),
    {
        if !self.config.borders.enabled || self.game_mode_hides_borders() {
            return false;
        }
        if !self.config.borders.disable_when_fullscreen {
            return true;
        }
        match self.foreground {
            None => true,
            Some(window) => match self.windows.get(window.0) {
                None => true,
                Some(info) => !(self.is_fullscreen_window(info, monitors)
                    || !self.is_manageable_by_rules(info, &self.rule_decision(info))),
            },
        }
    }

    fn is_focused(&self, handle: WindowHandle) -> (r: bool)
        ensures
            r == (self@.foreground == Some(handle)),
    {
        match self.foreground {
            Some(window) => window == handle,
            None => false,
        }
    }

    fn is_border_seen(&self, handle: WindowHandle, drawn: bool, monitors: &[MonitorInfo]) -> (r: bool)
        requires
            self.wf(),
            drawn == self@.draws_borders(monitors@),
        ensures
            r == self@.has_border(monitors@)(handle),
    {
        drawn && self.can_have_border(handle, monitors) && (self.is_focused(handle)
            || self.window_participation(handle).is_floating() || self.config.borders.show_inactive)
    }

    fn border_candidate(&self, handle: WindowHandle, info: &WindowInfo) -> (r: BorderCandidate)
        requires
            self.wf(),
            self@.windows.contains_key(handle.0),
            *info == self@.windows[handle.0],
        ensures
            r == self@.border_of(handle),
    {
        let focused: bool = self.is_focused(handle);
        let floating: bool = self.window_participation(handle).is_floating();
        BorderCandidate {
            window: handle,
            rect: info.rect,
            color: if focused {
                self.config.borders.active_color
            } else if floating {
                self.config.borders.floating_color
            } else {
                self.config.borders.inactive_color
            },
            focused,
            floating,
        }
    }

    /// The windows whose border is seen, in ascending order of their handles.
    pub fn border_candidates(&self, monitors: &[MonitorInfo]) -> (r: Vec<BorderCandidate>)
        requires
            self.wf(),
        ensures
            r@ == self@.borders_of(
                ordered_handles(self@.windows).filter(self@.has_border(monitors@)),
            ),
    {
        let drawn: bool = self.are_borders_drawn(monitors);
        let handles: Vec<WindowHandle> = handles_of(&self.windows);
        let ghost keep = self@.has_border(monitors@);
        let mut kept: Vec<BorderCandidate> = Vec::new();
        let mut index: usize = 0;
        proof {
            lemma_filter_ends(handles@, keep);
            assert(kept@ =~= self@.borders_of(handles@.take(0).filter(keep)));
        }
        while index < handles.len()
            invariant
                index <= handles.len(),
                self.wf(),
                drawn == self@.draws_borders(monitors@),
                keep == self@.has_border(monitors@),
                kept@ == self@.borders_of(handles@.take(index as int).filter(keep)),
                forall|i: int|
                    0 <= i < handles@.len() ==> self@.windows.contains_key((#[trigger] handles@[i]).0),
            decreases handles.len() - index,
        {
            let handle: WindowHandle = handles[index];
            proof {
                lemma_filter_step(handles@, index as int, keep);
            }
            if let Some(info) = self.windows.get(handle.0) {
                if self.is_border_seen(handle, drawn, monitors) {
                    kept.push(self.border_candidate(handle, info));
                }
            }
            proof {
                assert(kept@ =~= self@.borders_of(handles@.take(index + 1).filter(keep)));
            }
            index = index + 1;
        }
        proof {
            lemma_filter_ends(handles@, keep);
        }
        kept
    }

    /// The windows that may have a border, in ascending order of their handles.
    pub fn border_retention_candidates(&self, monitors: &[MonitorInfo]) -> (r: Vec<BorderCandidate>)
        requires
            self.wf(),
        ensures
            r@ == self@.borders_of(
                ordered_handles(self@.windows).filter(self@.may_have_border(monitors@)),
            ),
    {
        let handles: Vec<WindowHandle> = handles_of(&self.windows);
        let ghost keep = self@.may_have_border(monitors@);
        let mut kept: Vec<BorderCandidate> = Vec::new();
        let mut index: usize = 0;
        proof {
            lemma_filter_ends(handles@, keep);
            assert(kept@ =~= self@.borders_of(handles@.take(0).filter(keep)));
        }
        while index < handles.len()
            invariant
                index <= handles.len(),
                self.wf(),
                keep == self@.may_have_border(monitors@),
                kept@ == self@.borders_of(handles@.take(index as int).filter(keep)),
                forall|i: int|
                    0 <= i < handles@.len() ==> self@.windows.contains_key((#[trigger] handles@[i]).0),
            decreases handles.len() - index,
        {
            let handle: WindowHandle = handles[index];
            proof {
                lemma_filter_step(handles@, index as int, keep);
            }
            if let Some(info) = self.windows.get(handle.0) {
                if self.can_have_border(handle, monitors) {
                    kept.push(self.border_candidate(handle, info));
                }
            }
            proof {
                assert(kept@ =~= self@.borders_of(handles@.take(index + 1).filter(keep)));
            }
            index = index + 1;
        }
        proof {
            lemma_filter_ends(handles@, keep);
        }
        kept
    }

    fn update_of(
        &self,
        candidate: BorderCandidate,
        visible: bool,
        monitors: &[MonitorInfo],
        actual: &SortedMap<Rect>,
    ) -> (r: BorderUpdate)
        requires
            self.wf(),
            actual.wf(),
            candidate == self@.border_of(candidate.window),
            visible == self@.has_border(monitors@)(candidate.window),
        ensures
            r == self@.border_update(candidate.window, monitors@, actual@),
    {
        let dragged: bool = match self.active_drag_window() {
            Some(window) => window == candidate.window,
            None => false,
        };
        let rect: Rect = if visible && !dragged {
            match actual.get(candidate.window.0) {
                Some(rect) => *rect,
                None => candidate.rect,
            }
        } else {
            candidate.rect
        };
        BorderUpdate { window: candidate.window, rect, color: candidate.color, visible }
    }

    fn layer_of(&self, candidate: BorderCandidate, visible: bool, monitors: &[MonitorInfo]) -> (r: u8)
        requires
            self.wf(),
            candidate == self@.border_of(candidate.window),
            visible == self@.has_border(monitors@)(candidate.window),
        ensures
            r == self@.border_layer(candidate.window, monitors@),
    {
        if !visible {
            return 0;
        }
        match (candidate.floating, candidate.focused) {
            (true, true) => 4,
            (true, false) => 3,
            (false, true) => 2,
            (false, false) => 1,
        }
    }

    /// Adds the updates of one layer.
    fn push_layer(
        &self,
        updates: &mut Vec<BorderUpdate>,
        layer: u8,
        drawn: bool,
        handles: &[WindowHandle],
        monitors: &[MonitorInfo],
        actual: &SortedMap<Rect>,
    )
        requires
            self.wf(),
            actual.wf(),
            drawn == self@.draws_borders(monitors@),
            handles@ == ordered_handles(self@.windows),
            forall|i: int|
                0 <= i < handles@.len() ==> self@.windows.contains_key((#[trigger] handles@[i]).0),
        ensures
            final(updates)@ == old(updates)@ + self@.updates_of(
                handles@.filter(self@.is_on_layer(layer as int, monitors@)),
                monitors@,
                actual@,
            ),
    {
        let ghost keep = self@.is_on_layer(layer as int, monitors@);
        let ghost before = updates@;
        let mut index: usize = 0;
        proof {
            lemma_filter_ends(handles@, keep);
            assert(updates@ =~= before + self@.updates_of(
                handles@.take(0).filter(keep),
                monitors@,
                actual@,
            ));
        }
        while index < handles.len()
            invariant
                index <= handles.len(),
                self.wf(),
                actual.wf(),
                drawn == self@.draws_borders(monitors@),
                keep == self@.is_on_layer(layer as int, monitors@),
                forall|i: int|
                    0 <= i < handles@.len() ==> self@.windows.contains_key((#[trigger] handles@[i]).0),
                updates@ == before + self@.updates_of(
                    handles@.take(index as int).filter(keep),
                    monitors@,
                    actual@,
                ),
            decreases handles.len() - index,
        {
            let handle: WindowHandle = handles[index];
            proof {
                lemma_filter_step(handles@, index as int, keep);
            }
            if let Some(info) = self.windows.get(handle.0) {
                if self.can_have_border(handle, monitors) {
                    let candidate: BorderCandidate = self.border_candidate(handle, info);
                    let visible: bool = self.is_border_seen(handle, drawn, monitors);
                    if self.layer_of(candidate, visible, monitors) == layer {
                        updates.push(self.update_of(candidate, visible, monitors, actual));
                    }
                }
            }
            proof {
                assert(updates@ =~= before + self@.updates_of(
                    handles@.take(index + 1).filter(keep),
                    monitors@,
                    actual@,
                ));
            }
            index = index + 1;
        }
        proof {
            lemma_filter_ends(handles@, keep);
        }
    }

    /// How the borders are updated, the lowest layer first; `actual` says where windows were read to
    /// be.
    pub fn border_updates(&self, monitors: &[MonitorInfo], actual: &SortedMap<Rect>) -> (r: Vec<BorderUpdate>)
        requires
            self.wf(),
            actual.wf(),
        ensures
            r@ == self@.updates_of(
                self@.bordered_by_layer(BORDER_LAYERS as int, monitors@),
                monitors@,
                actual@,
            ),
    {
        let drawn: bool = self.are_borders_drawn(monitors);
        let handles: Vec<WindowHandle> = handles_of(&self.windows);
        let mut updates: Vec<BorderUpdate> = Vec::new();
        let mut layer: u8 = 0;
        proof {
            assert(updates@ =~= self@.updates_of(
                self@.bordered_by_layer(0, monitors@),
                monitors@,
                actual@,
            ));
        }
        while layer < BORDER_LAYERS
            invariant
                layer <= BORDER_LAYERS,
                self.wf(),
                actual.wf(),
                drawn == self@.draws_borders(monitors@),
                handles@ == ordered_handles(self@.windows),
                forall|i: int|
                    0 <= i < handles@.len() ==> self@.windows.contains_key((#[trigger] handles@[i]).0),
                updates@ == self@.updates_of(
                    self@.bordered_by_layer(layer as int, monitors@),
                    monitors@,
                    actual@,
                ),
            decreases BORDER_LAYERS - layer,
        {
            self.push_layer(&mut updates, layer, drawn, &handles, monitors, actual);
            proof {
                assert(updates@ =~= self@.updates_of(
                    self@.bordered_by_layer(layer + 1, monitors@),
                    monitors@,
                    actual@,
                ));
            }
            layer = layer + 1;
        }
        updates
    }
}

/// How many of the updates show a border.
pub fn visible_border_count(updates: &[BorderUpdate]) -> (r: usize)
    ensures
        r == updates@.filter(|update: BorderUpdate| update.visible).len(),
{
    let ghost keep = |update: BorderUpdate| update.visible;
    let mut count: usize = 0;
    let mut index: usize = 0;
    proof {
        lemma_filter_ends(updates@, keep);
    }
    while index < updates.len()
        invariant
            index <= updates.len(),
            keep == (|update: BorderUpdate| update.visible),
            count == updates@.take(index as int).filter(keep).len(),
            count <= index,
        decreases updates.len() - index,
    {
        proof {
            lemma_filter_step(updates@, index as int, keep);
        }
        if updates[index].visible {
            count = count + 1;
        }
        index = index + 1;
    }
    proof {
        lemma_filter_ends(updates@, keep);
    }
    count
}

/// Every window that may have a border has a layer, and is among those that are updated.
pub proof fn every_border_is_updated(state: DaemonView, window: WindowHandle, monitors: Seq<MonitorInfo>)
    ensures
        state.bordered_by_layer(BORDER_LAYERS as int, monitors).contains(window) <==> ordered_handles(
            state.windows,
        ).contains(window) && state.may_have_border(monitors)(window),
{
    lemma_bordered_up_to(state, window, BORDER_LAYERS as int, monitors);
}

proof fn lemma_bordered_up_to(state: DaemonView, window: WindowHandle, layers: int, monitors: Seq<MonitorInfo>)
    requires
        0 <= layers,
    ensures
        state.bordered_by_layer(layers, monitors).contains(window) <==> ordered_handles(
            state.windows,
        ).contains(window) && state.may_have_border(monitors)(window) && state.border_layer(
            window,
            monitors,
        ) < layers,
    decreases layers,
{
    if layers > 0 {
        lemma_bordered_up_to(state, window, layers - 1, monitors);
        let lower = state.bordered_by_layer(layers - 1, monitors);
        let here = ordered_handles(state.windows).filter(state.is_on_layer(layers - 1, monitors));
        lemma_filter_holds(
            ordered_handles(state.windows),
            state.is_on_layer(layers - 1, monitors),
            window,
        );
        let all = lower + here;
        if lower.contains(window) {
            assert(all[lower.index_of(window)] == window);
        }
        if here.contains(window) {
            assert(all[lower.len() + here.index_of(window)] == window);
        }
        if all.contains(window) {
            let i = all.index_of(window);
            if i < lower.len() {
                assert(lower[i] == window);
            } else {
                assert(here[i - lower.len()] == window);
            }
        }
    }
}

/// No border is seen while a game hides them or they are switched off.
pub proof fn hidden_borders_are_not_seen(state: DaemonView, window: WindowHandle, monitors: Seq<MonitorInfo>)
    requires
        state.game_mode.hides_borders() || !state.config.borders.enabled,
    ensures
        !state.has_border(monitors)(window),
        state.border_layer(window, monitors) == 0,
{
}

} // verus!
