//! Where the focus goes, and which monitor and workspace a command means.

use vstd::prelude::*;

use crate::commands::{CycleDirection, FocusDirection, MonitorSelector};
use crate::daemon_state::{DaemonState, DaemonView};
use crate::geometry::{MonitorId, MonitorInfo, Point, WindowHandle};
use crate::handles::{first_kept, first_position, lemma_first_kept_step, position_of};
use crate::layout::WindowParticipation;
use crate::monitors::{arranged, has_monitor, known_monitor, monitor_ids, sorted_monitor_ids};
use crate::num::abs_int;
use crate::workspace::{ascending_workspaces, workspace_numbers, WorkspaceId};

verus! {

/// How far a point lies in a direction, along it and across it; none if it does not lie there.
pub open spec fn focus_key(direction: FocusDirection, from: Point, to: Point) -> Option<(int, int)> {
    match direction {
        FocusDirection::Left => if to.x < from.x {
            Some((from.x - to.x, abs_int(from.y - to.y)))
        } else {
            None
        },
        FocusDirection::Right => if to.x > from.x {
            Some((to.x - from.x, abs_int(from.y - to.y)))
        } else {
            None
        },
        FocusDirection::Up => if to.y < from.y {
            Some((from.y - to.y, abs_int(from.x - to.x)))
        } else {
            None
        },
        FocusDirection::Down => if to.y > from.y {
            Some((to.y - from.y, abs_int(from.x - to.x)))
        } else {
            None
        },
    }
}

/// Whether a distance along and across a direction is the shorter one.
pub open spec fn shorter(a: (int, int), b: (int, int)) -> bool {
    a.0 < b.0 || (a.0 == b.0 && a.1 < b.1)
}

/// The place before or after a place in a circle.
pub open spec fn turned(index: int, len: int, back: bool) -> int {
    if back {
        if index == 0 {
            len - 1
        } else {
            index - 1
        }
    } else if index + 1 == len {
        0
    } else {
        index + 1
    }
}

/// The place before or after a place in a circle.
pub fn turn(index: usize, len: usize, back: bool) -> (r: usize)
    requires
        index < len,
    ensures
        r == turned(index as int, len as int, back),
        r < len,
{
    if back {
        if index == 0 {
            len - 1
        } else {
            index - 1
        }
    } else if index + 1 == len {
        0
    } else {
        index + 1
    }
}

/// Whether a direction leads back in the order of the tiles.
pub open spec fn focus_leads_back(direction: FocusDirection) -> bool {
    direction == FocusDirection::Left || direction == FocusDirection::Up
}

/// Whether a workspace is the next one in a circle: the first one above, or else the first one.
pub open spec fn is_next_workspace(numbers: Set<u16>, active: u16, next: u16) -> bool {
    &&& numbers.contains(next)
    &&& if exists|n: u16| #[trigger] numbers.contains(n) && n > active {
        next > active && forall|n: u16| #[trigger] numbers.contains(n) && n > active ==> next <= n
    } else {
        forall|n: u16| #[trigger] numbers.contains(n) ==> next <= n
    }
}

/// Whether a workspace is the previous one in a circle: the last one below, or else the last one.
pub open spec fn is_previous_workspace(numbers: Set<u16>, active: u16, previous: u16) -> bool {
    &&& numbers.contains(previous)
    &&& if exists|n: u16| #[trigger] numbers.contains(n) && n < active {
        previous < active && forall|n: u16| #[trigger]
            numbers.contains(n) && n < active ==> previous >= n
    } else {
        forall|n: u16| #[trigger] numbers.contains(n) ==> previous >= n
    }
}

/// The workspace before or after one, in a circle.
pub open spec fn beside_workspace(numbers: Set<u16>, active: WorkspaceId, direction: CycleDirection) -> WorkspaceId {
    match direction {
        CycleDirection::Next => WorkspaceId(
            choose|next: u16| #[trigger] is_next_workspace(numbers, active.0, next),
        ),
        CycleDirection::Prev => WorkspaceId(
            choose|previous: u16| #[trigger] is_previous_workspace(numbers, active.0, previous),
        ),
    }
}

impl DaemonView {
    /// The focusable window that lies nearest in a direction, the first among equals.
    pub open spec fn nearest_in_direction(
        self,
        windows: Seq<WindowHandle>,
        current: WindowHandle,
        direction: FocusDirection,
    ) -> Option<WindowHandle>
        decreases windows.len(),
    {
        if windows.len() == 0 {
            None
        } else {
            let before = self.nearest_in_direction(windows.drop_last(), current, direction);
            let last = windows.last();
            let from = self.windows[current.0].rect.middle();
            let key = focus_key(direction, from, self.windows[last.0].rect.middle());
            if last == current || key is None {
                before
            } else {
                match before {
                    None => Some(last),
                    Some(best) => if shorter(
                        key.unwrap(),
                        focus_key(
                            direction,
                            from,
                            self.windows[best.0].rect.middle(),
                        ).unwrap(),
                    ) {
                        Some(last)
                    } else {
                        Some(best)
                    },
                }
            }
        }
    }

    /// The window that has the focus for a command: the foreground window if it may be managed, or
    /// else the first that can have the focus.
    pub open spec fn focus_origin(self, monitors: Seq<MonitorInfo>) -> Option<WindowHandle> {
        if self.foreground is Some && self.manageable(self.foreground.unwrap(), monitors) {
            self.foreground
        } else if self.focusable(monitors).len() > 0 {
            Some(self.focusable(monitors)[0])
        } else {
            None
        }
    }

    /// The window before or after one among those that can have the focus, in a circle.
    pub open spec fn focus_beside(
        self,
        current: WindowHandle,
        direction: FocusDirection,
        monitors: Seq<MonitorInfo>,
    ) -> Option<WindowHandle> {
        let windows = self.focusable(monitors);
        if windows.len() == 0 {
            None
        } else {
            let index = match first_position(windows, current) {
                Some(at) => at,
                None => 0,
            };
            Some(windows[turned(index, windows.len() as int, focus_leads_back(direction))])
        }
    }

    /// Where the focus goes in a direction: to the nearest window there, or else on in the order of
    /// the tiles.
    pub open spec fn focus_goes_to(self, direction: FocusDirection, monitors: Seq<MonitorInfo>) -> Option<
        WindowHandle,
    > {
        match self.focus_origin(monitors) {
            None => None,
            Some(current) => match self.nearest_in_direction(
                self.focusable(monitors),
                current,
                direction,
            ) {
                Some(window) => Some(window),
                None => self.focus_beside(current, direction, monitors),
            },
        }
    }

    /// The tiles' order with the focused window and the one in a direction exchanged.
    pub open spec fn swapped(self, direction: FocusDirection, monitors: Seq<MonitorInfo>) -> DaemonView {
        if self.foreground is Some && self.manageable(self.foreground.unwrap(), monitors) {
            let current = self.foreground.unwrap();
            match self.focus_goes_to(direction, monitors) {
                Some(target) => match (
                    first_position(self.tile_order, current),
                    first_position(self.tile_order, target),
                ) {
                    (Some(i), Some(j)) => DaemonView {
                        tile_order: self.tile_order.update(i, target).update(j, current),
                        ..self
                    },
                    _ => self,
                },
                None => self,
            }
        } else {
            self
        }
    }

    /// The state after the focused window was floated, or tiled if it floated.
    pub open spec fn float_toggled(self, monitors: Seq<MonitorInfo>) -> DaemonView {
        if self.foreground is Some && self.manageable(self.foreground.unwrap(), monitors) {
            let current = self.foreground.unwrap();
            self.with_previous_rect(current).with_participation(
                current,
                if self.floats(current) {
                    WindowParticipation::Tiled
                } else {
                    WindowParticipation::Floating
                },
            )
        } else {
            self
        }
    }

    /// The monitor that a command means if it names none: the one of the foreground window, or else
    /// the one that has the focus, or else the first as the monitors stand.
    pub open spec fn command_monitor(self, monitors: Seq<MonitorInfo>) -> Option<MonitorId> {
        let of_foreground = match self.foreground {
            Some(window) => self.owner(window, monitors),
            None => None,
        };
        if of_foreground is Some {
            of_foreground
        } else if self.workspaces.focused is Some && known_monitor(
            monitors,
            self.workspaces.focused.unwrap(),
        ) {
            self.workspaces.focused
        } else if monitors.len() > 0 {
            Some(arranged(monitors)[0].id)
        } else {
            None
        }
    }

    /// The windows that belong to a monitor and can have the focus.
    pub open spec fn is_candidate_on(self, monitor: MonitorId, monitors: Seq<MonitorInfo>) -> spec_fn(
        WindowHandle,
    ) -> bool {
        |window: WindowHandle|
            self.owner(window, monitors) == Some(monitor) && self.manageable(window, monitors)
    }

    /// The window that gets the focus on a monitor: the first in the order of the tiles.
    pub open spec fn candidate_on(self, monitor: MonitorId, monitors: Seq<MonitorInfo>) -> Option<
        WindowHandle,
    > {
        first_kept(self.tile_order, self.is_candidate_on(monitor, monitors))
    }

    /// The window that gets the focus on the monitor that has it.
    pub open spec fn candidate_on_focused(self, monitors: Seq<MonitorInfo>) -> Option<WindowHandle> {
        match self.workspaces.focused {
            Some(monitor) => self.candidate_on(monitor, monitors),
            None => None,
        }
    }

    /// Where the monitor that a command means stands, as the monitors stand.
    pub open spec fn command_monitor_place(self, monitors: Seq<MonitorInfo>) -> int {
        match self.command_monitor(monitors) {
            Some(monitor) => match id_position(monitor_ids(arranged(monitors)), monitor) {
                Some(at) => at,
                None => 0,
            },
            None => 0,
        }
    }

    /// The monitor that a selector means.
    pub open spec fn selected(self, selector: MonitorSelector, monitors: Seq<MonitorInfo>) -> Option<
        MonitorId,
    > {
        let ids = monitor_ids(arranged(monitors));
        if monitors.len() == 0 {
            None
        } else {
            match selector {
                MonitorSelector::Id(id) => if ids.contains(id) {
                    Some(id)
                } else {
                    None
                },
                MonitorSelector::Index(index) => if 1 <= index <= ids.len() {
                    Some(ids[index - 1])
                } else {
                    None
                },
                MonitorSelector::Next => Some(
                    ids[turned(self.command_monitor_place(monitors), ids.len() as int, false)],
                ),
                MonitorSelector::Prev => Some(
                    ids[turned(self.command_monitor_place(monitors), ids.len() as int, true)],
                ),
            }
        }
    }

    /// The workspace before or after the one on a monitor, or the active one.
    pub open spec fn relative_workspace(self, direction: CycleDirection, monitor: Option<MonitorId>) -> WorkspaceId {
        beside_workspace(
            self.workspaces.workspaces,
            match monitor {
                Some(monitor) => self.workspaces.active_on(monitor),
                None => self.workspaces.active,
            },
            direction,
        )
    }
}

/// Where an identifier stands in a list, the first time.
pub open spec fn id_position(ids: Seq<MonitorId>, id: MonitorId) -> Option<int>
    decreases ids.len(),
{
    if ids.len() == 0 {
        None
    } else {
        match id_position(ids.drop_last(), id) {
            Some(at) => Some(at),
            None => if ids.last() == id {
                Some(ids.len() - 1)
            } else {
                None
            },
        }
    }
}

fn find_id(ids: &[MonitorId], id: MonitorId) -> (r: Option<usize>)
    ensures
        match r {
            Some(at) => id_position(ids@, id) == Some(at as int) && at < ids.len() && ids@[at as int]
                == id,
            None => id_position(ids@, id) is None,
        },
        r is Some <==> ids@.contains(id),
{
    let mut found: Option<usize> = None;
    let mut index: usize = 0;
    while index < ids.len()
        invariant
            index <= ids.len(),
            match found {
                Some(at) => id_position(ids@.take(index as int), id) == Some(at as int) && at < index
                    && ids@[at as int] == id,
                None => id_position(ids@.take(index as int), id) is None,
            },
            found is None ==> forall|i: int| 0 <= i < index ==> #[trigger] ids@[i] != id,
        decreases ids.len() - index,
    {
        proof {
            assert(ids@.take(index + 1).drop_last() =~= ids@.take(index as int));
            assert(ids@.take(index + 1).last() == ids@[index as int]);
        }
        if found.is_none() && ids[index] == id {
            found = Some(index);
        }
        index = index + 1;
    }
    proof {
        assert(ids@.take(index as int) =~= ids@);
    }
    found
}

fn focus_distance(direction: FocusDirection, from: Point, to: Point) -> (r: Option<(i64, i64)>)
    ensures
        match r {
            Some(key) => focus_key(direction, from, to) == Some((key.0 as int, key.1 as int)),
            None => focus_key(direction, from, to) is None,
        },
{
    let dx: i64 = to.x as i64 - from.x as i64;
    let dy: i64 = to.y as i64 - from.y as i64;
    let across_x: i64 = if dx >= 0 {
        dx
    } else {
        -dx
    };
    let across_y: i64 = if dy >= 0 {
        dy
    } else {
        -dy
    };
    match direction {
        FocusDirection::Left => if dx < 0 {
            Some((-dx, across_y))
        } else {
            None
        },
        FocusDirection::Right => if dx > 0 {
            Some((dx, across_y))
        } else {
            None
        },
        FocusDirection::Up => if dy < 0 {
            Some((-dy, across_x))
        } else {
            None
        },
        FocusDirection::Down => if dy > 0 {
            Some((dy, across_x))
        } else {
            None
        },
    }
}

proof fn lemma_focusable(state: DaemonView, monitors: Seq<MonitorInfo>)
    ensures
        forall|i: int|
            0 <= i < state.focusable(monitors).len() ==> state.manageable(
                #[trigger] state.focusable(monitors)[i],
                monitors,
            ) && state.tile_order.contains(state.focusable(monitors)[i]),
{
    let keep = state.is_manageable(monitors);
    lemma_filter_members(state.tile_order, keep);
}

/// What a filter keeps is in the list and to be kept.
pub proof fn lemma_filter_members<A>(list: Seq<A>, keep: spec_fn(A) -> bool)
    ensures
        forall|i: int|
            0 <= i < list.filter(keep).len() ==> keep(#[trigger] list.filter(keep)[i])
                && list.contains(list.filter(keep)[i]),
        list.filter(keep).len() <= list.len(),
    decreases list.len(),
{
    reveal(Seq::filter);
    if list.len() > 0 {
        let rest = list.drop_last();
        lemma_filter_members(rest, keep);
        let kept = list.filter(keep);
        assert forall|i: int| 0 <= i < kept.len() implies keep(#[trigger] kept[i]) && list.contains(
            kept[i],
        ) by {
            if i < rest.filter(keep).len() {
                assert(kept[i] == rest.filter(keep)[i]);
                let j = rest.index_of(kept[i]);
                assert(list[j] == kept[i]);
            } else {
                assert(kept[i] == list.last());
                assert(list[list.len() - 1] == list.last());
            }
        }
    }
}

impl DaemonState {
    fn window_center(&self, window: WindowHandle) -> (r: Option<Point>)
        requires
            self.wf(),
        ensures
            match r {
                Some(point) => self@.windows.contains_key(window.0) && point
                    == self@.windows[window.0].rect.middle(),
                None => !self@.windows.contains_key(window.0),
            },
    {
        match self.windows.get(window.0) {
            Some(info) => Some(info.rect.center()),
            None => None,
        }
    }

    /// Where the focus goes in a direction.
    pub fn focus_target(&self, direction: FocusDirection, monitors: &[MonitorInfo]) -> (r: Option<
        WindowHandle,
    >)
        requires
            self.wf(),
        ensures
            r == self@.focus_goes_to(direction, monitors@),
    {
        let windows: Vec<WindowHandle> = self.focusable_handles(monitors);
        proof {
            lemma_focusable(self@, monitors@);
        }
        let mut origin: Option<WindowHandle> = None;
        if let Some(window) = self.foreground {
            if self.is_manageable_window(window, monitors) {
                origin = Some(window);
            }
        }
        if origin.is_none() && windows.len() > 0 {
            origin = Some(windows[0]);
        }
        let current: WindowHandle = match origin {
            Some(window) => window,
            None => {
                return None;
            },
        };
        let from: Point = match self.window_center(current) {
            Some(center) => center,
            None => {
                return None;
            },
        };
        let mut best: Option<(WindowHandle, (i64, i64))> = None;
        let mut index: usize = 0;
        while index < windows.len()
            invariant
                index <= windows.len(),
                self.wf(),
                windows@ == self@.focusable(monitors@),
                from == self@.windows[current.0].rect.middle(),
                forall|i: int|
                    0 <= i < windows.len() ==> self@.windows.contains_key((#[trigger] windows@[i]).0),
                match best {
                    Some(held) => self@.nearest_in_direction(
                        windows@.take(index as int),
                        current,
                        direction,
                    ) == Some(held.0) && focus_key(
                        direction,
                        from,
                        self@.windows[held.0.0].rect.middle(),
                    ) == Some((held.1.0 as int, held.1.1 as int)),
                    None => self@.nearest_in_direction(
                        windows@.take(index as int),
                        current,
                        direction,
                    ) is None,
                },
            decreases windows.len() - index,
        {
            proof {
                assert(windows@.take(index + 1).drop_last() =~= windows@.take(index as int));
                assert(windows@.take(index + 1).last() == windows@[index as int]);
            }
            let window: WindowHandle = windows[index];
            if window != current {
                if let Some(center) = self.window_center(window) {
                    if let Some(key) = focus_distance(direction, from, center) {
                        best =
                        match best {
                            None => Some((window, key)),
                            Some(held) => if key.0 < held.1.0 || (key.0 == held.1.0 && key.1
                                < held.1.1) {
                                Some((window, key))
                            } else {
                                Some(held)
                            },
                        };
                    }
                }
            }
            index = index + 1;
        }
        proof {
            assert(windows@.take(index as int) =~= windows@);
        }
        match best {
            Some(held) => Some(held.0),
            None => self.wrapping_focus_target(current, direction, monitors),
        }
    }

    /// The window before or after one among those that can have the focus.
    pub fn wrapping_focus_target(
        &self,
        current: WindowHandle,
        direction: FocusDirection,
        monitors: &[MonitorInfo],
    ) -> (r: Option<WindowHandle>)
        requires
            self.wf(),
        ensures
            r == self@.focus_beside(current, direction, monitors@),
    {
        let windows: Vec<WindowHandle> = self.focusable_handles(monitors);
        if windows.len() == 0 {
            return None;
        }
        let index: usize = match position_of(&windows, current) {
            Some(at) => at,
            None => 0,
        };
        let back: bool = match direction {
            FocusDirection::Left | FocusDirection::Up => true,
            FocusDirection::Right | FocusDirection::Down => false,
        };
        Some(windows[turn(index, windows.len(), back)])
    }

    /// Exchanges the focused window with the one in a direction.
    pub fn swap_focused_with(&mut self, direction: FocusDirection, monitors: &[MonitorInfo])
        requires
            old(self).wf(),
        ensures
            final(self).wf(),
            final(self)@ == old(self)@.swapped(direction, monitors@),
            final(self).tile_order.len() == old(self).tile_order.len(),
    {
        let current: WindowHandle = match self.foreground {
            Some(window) => window,
            None => {
                return ;
            },
        };
        if !self.is_manageable_window(current, monitors) {
            return ;
        }
        if let Some(target) = self.focus_target(direction, monitors) {
            let current_index: Option<usize> = position_of(&self.tile_order, current);
            let target_index: Option<usize> = position_of(&self.tile_order, target);
            if let (Some(i), Some(j)) = (current_index, target_index) {
                self.tile_order.set(i, target);
                self.tile_order.set(j, current);
            }
        }
    }

    /// Floats the focused window, or tiles it if it floats.
    pub fn toggle_focused_float(&mut self, monitors: &[MonitorInfo])
        requires
            old(self).wf(),
        ensures
            final(self).wf(),
            final(self)@ == old(self)@.float_toggled(monitors@),
    {
        let current: WindowHandle = match self.foreground {
            Some(window) => window,
            None => {
                return ;
            },
        };
        if !self.is_manageable_window(current, monitors) {
            return ;
        }
        self.remember_previous_rect(current);
        let next: WindowParticipation = match self.window_participation(current) {
            WindowParticipation::Floating | WindowParticipation::TemporarilyFloating => {
                WindowParticipation::Tiled
            },
            WindowParticipation::Tiled => WindowParticipation::Floating,
        };
        self.set_window_participation(current, next);
    }

    /// The monitor that a command means if it names none.
    pub fn command_monitor(&self, monitors: &[MonitorInfo]) -> (r: Option<MonitorId>)
        requires
            self.wf(),
        ensures
            r == self@.command_monitor(monitors@),
    {
        if let Some(window) = self.foreground {
            if let Some(monitor) = self.window_owner_monitor(window, monitors) {
                return Some(monitor);
            }
        }
        if let Some(focused) = self.workspaces.focused_monitor() {
            if has_monitor(monitors, focused) {
                return Some(focused);
            }
        }
        let ids: Vec<MonitorId> = sorted_monitor_ids(monitors);
        proof {
            crate::monitors::arranged_monitors_are_in_order(monitors@);
        }
        if ids.len() > 0 {
            Some(ids[0])
        } else {
            None
        }
    }

    /// The window that gets the focus on a monitor.
    pub fn focus_candidate_for_monitor(&self, monitor: MonitorId, monitors: &[MonitorInfo]) -> (r: Option<
        WindowHandle,
    >)
        requires
            self.wf(),
        ensures
            r == self@.candidate_on(monitor, monitors@),
    {
        let ghost keep = self@.is_candidate_on(monitor, monitors@);
        let mut found: Option<WindowHandle> = None;
        let mut index: usize = 0;
        while index < self.tile_order.len()
            invariant
                index <= self.tile_order.len(),
                self.wf(),
                keep == self@.is_candidate_on(monitor, monitors@),
                found == first_kept(self.tile_order@.take(index as int), keep),
            decreases self.tile_order.len() - index,
        {
            proof {
                lemma_first_kept_step(self.tile_order@, index as int, keep);
            }
            let window: WindowHandle = self.tile_order[index];
            if found.is_none() && self.window_belongs_to_monitor(window, monitor, monitors)
                && self.is_manageable_window(window, monitors) {
                found = Some(window);
            }
            index = index + 1;
        }
        proof {
            assert(self.tile_order@.take(index as int) =~= self.tile_order@);
        }
        found
    }

    /// The window that gets the focus on the monitor that has it.
    pub fn focus_candidate_for_focused_monitor(&self, monitors: &[MonitorInfo]) -> (r: Option<
        WindowHandle,
    >)
        requires
            self.wf(),
        ensures
            r == self@.candidate_on_focused(monitors@),
    {
        match self.workspaces.focused_monitor() {
            Some(monitor) => self.focus_candidate_for_monitor(monitor, monitors),
            None => None,
        }
    }

    /// The monitor that a selector means.
    pub fn resolve_monitor_selector(&self, selector: MonitorSelector, monitors: &[MonitorInfo]) -> (r:
        Option<MonitorId>)
        requires
            self.wf(),
        ensures
            r == self@.selected(selector, monitors@),
    {
        let ids: Vec<MonitorId> = sorted_monitor_ids(monitors);
        proof {
            crate::monitors::arranged_monitors_are_in_order(monitors@);
        }
        if ids.len() == 0 {
            return None;
        }
        match selector {
            MonitorSelector::Id(id) => if find_id(&ids, id).is_some() {
                Some(id)
            } else {
                None
            },
            MonitorSelector::Index(index) => if index >= 1 && index <= ids.len() {
                Some(ids[index - 1])
            } else {
                None
            },
            MonitorSelector::Next | MonitorSelector::Prev => {
                let place: usize = match self.command_monitor(monitors) {
                    Some(monitor) => match find_id(&ids, monitor) {
                        Some(at) => at,
                        None => 0,
                    },
                    None => 0,
                };
                let back: bool = match selector {
                    MonitorSelector::Prev => true,
                    _ => false,
                };
                Some(ids[turn(place, ids.len(), back)])
            },
        }
    }

    /// Gives the focus to a monitor and to the window there.
    pub fn focus_monitor_command(&mut self, selector: MonitorSelector, monitors: &[MonitorInfo]) -> (r:
        Option<WindowHandle>)
        requires
            old(self).wf(),
        ensures
            final(self).wf(),
            match old(self)@.selected(selector, monitors@) {
                None => r is None && final(self)@ == old(self)@,
                Some(monitor) => {
                    let focused = DaemonView {
                        workspaces: old(self)@.workspaces.focused_on(monitor),
                        ..old(self)@
                    };
                    &&& r == focused.candidate_on(monitor, monitors@)
                    &&& final(self)@ == (DaemonView { foreground: r, ..focused })
                },
            },
    {
        match self.resolve_monitor_selector(selector, monitors) {
            None => None,
            Some(monitor) => {
                self.workspaces.focus_monitor(monitor);
                let focus: Option<WindowHandle> = self.focus_candidate_for_monitor(monitor, monitors);
                self.foreground = focus;
                focus
            },
        }
    }

    /// The workspace before or after one.
    pub fn relative_workspace_from(&self, active: WorkspaceId, direction: CycleDirection) -> (r: WorkspaceId)
        requires
            self.wf(),
            self@.workspaces.workspaces.contains(active.0),
        ensures
            r == beside_workspace(self@.workspaces.workspaces, active, direction),
            self@.workspaces.workspaces.contains(r.0),
    {
        let all: Vec<WorkspaceId> = self.workspaces.workspaces();
        let ghost numbers = self@.workspaces.workspaces;
        let mut index: usize = 0;
        proof {
            assert(all@.contains(active));
            let at = all@.index_of(active);
        }
        while index < all.len() && all[index] != active
            invariant
                index <= all.len(),
                all@.contains(active),
                forall|i: int| 0 <= i < index ==> #[trigger] all@[i] != active,
            decreases all.len() - index,
        {
            index = index + 1;
        }
        proof {
            if index == all.len() {
                let at = all@.index_of(active);
                assert(all@[at] != active);
            }
        }
        let back: bool = match direction {
            CycleDirection::Next => false,
            CycleDirection::Prev => true,
        };
        let next: usize = turn(index, all.len(), back);
        proof {
            assert(all@[index as int] == active);
            assert forall|n: u16| #[trigger] numbers.contains(n) <==> all@.contains(WorkspaceId(n)) by {
                assert(workspace_numbers(all@).contains(n) <==> all@.contains(WorkspaceId(n)));
            }
            assert(all@.contains(all@[next as int]));
            assert(numbers.contains(all@[next as int].0));
            assert forall|n: u16| #[trigger] numbers.contains(n) implies exists|i: int|
                0 <= i < all@.len() && #[trigger] all@[i] == WorkspaceId(n) by {
                let i = all@.index_of(WorkspaceId(n));
                assert(all@[i] == WorkspaceId(n));
            }
            lemma_beside(all@, numbers, index as int, direction, next as int);
        }
        all[next]
    }

    /// The workspace before or after the one on a monitor, or the active one.
    pub fn relative_workspace_for_monitor(
        &self,
        direction: CycleDirection,
        monitor: Option<MonitorId>,
    ) -> (r: WorkspaceId)
        requires
            self.wf(),
        ensures
            r == self@.relative_workspace(direction, monitor),
            self@.workspaces.workspaces.contains(r.0),
    {
        proof {
            self.workspaces.lemma_wf();
        }
        let active: WorkspaceId = match monitor {
            Some(monitor) => self.workspaces.active_workspace_for_monitor(monitor),
            None => self.workspaces.active_workspace(),
        };
        self.relative_workspace_from(active, direction)
    }
}

proof fn lemma_beside(
    all: Seq<WorkspaceId>,
    numbers: Set<u16>,
    index: int,
    direction: CycleDirection,
    next: int,
)
    requires
        0 <= index < all.len(),
        ascending_workspaces(all),
        forall|n: u16| #[trigger] numbers.contains(n) <==> all.contains(WorkspaceId(n)),
        next == turned(index, all.len() as int, direction == CycleDirection::Prev),
    ensures
        beside_workspace(numbers, all[index], direction) == all[next],
{
    let active = all[index].0;
    let found = all[next].0;
    assert(all.contains(all[next]));
    assert(all[next] == WorkspaceId(found));
    assert(numbers.contains(found));
    assert forall|n: u16| #[trigger] numbers.contains(n) implies exists|i: int|
        0 <= i < all.len() && #[trigger] all[i] == WorkspaceId(n) by {
        let i = all.index_of(WorkspaceId(n));
        assert(all[i] == WorkspaceId(n));
    }
    if direction == CycleDirection::Next {
        assert(is_next_workspace(numbers, active, found)) by {
            if index + 1 < all.len() {
                assert(all[index].0 < all[index + 1].0);
                assert forall|n: u16| #[trigger] numbers.contains(n) && n > active implies found <= n by {
                    let i = choose|i: int| 0 <= i < all.len() && #[trigger] all[i] == WorkspaceId(n);
                    if i < index {
                        assert(all[i].0 < all[index].0);
                    } else if i > index + 1 {
                        assert(all[index + 1].0 < all[i].0);
                    }
                }
            } else {
                assert forall|n: u16| #[trigger] numbers.contains(n) implies n <= active && found <= n by {
                    let i = choose|i: int| 0 <= i < all.len() && #[trigger] all[i] == WorkspaceId(n);
                    if i < index {
                        assert(all[i].0 < all[index].0);
                    }
                    if i > 0 {
                        assert(all[0].0 < all[i].0);
                    }
                }
            }
        }
        let chosen = choose|n: u16| #[trigger] is_next_workspace(numbers, active, n);
        assert(is_next_workspace(numbers, active, chosen));
        assert(numbers.contains(chosen));
    } else {
        assert(is_previous_workspace(numbers, active, found)) by {
            if index > 0 {
                assert(all[index - 1].0 < all[index].0);
                assert forall|n: u16| #[trigger] numbers.contains(n) && n < active implies found >= n by {
                    let i = choose|i: int| 0 <= i < all.len() && #[trigger] all[i] == WorkspaceId(n);
                    if i > index {
                        assert(all[index].0 < all[i].0);
                    } else if i < index - 1 {
                        assert(all[i].0 < all[index - 1].0);
                    }
                }
            } else {
                assert forall|n: u16| #[trigger] numbers.contains(n) implies n >= active && found >= n by {
                    let i = choose|i: int| 0 <= i < all.len() && #[trigger] all[i] == WorkspaceId(n);
                    if i > index {
                        assert(all[index].0 < all[i].0);
                    }
                    if i < all.len() - 1 {
                        assert(all[i].0 < all[all.len() - 1].0);
                    }
                }
            }
        }
        let chosen = choose|n: u16| #[trigger] is_previous_workspace(numbers, active, n);
        assert(is_previous_workspace(numbers, active, chosen));
        assert(numbers.contains(chosen));
    }
}

} // verus!
