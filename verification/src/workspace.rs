//! Workspaces: which windows belong to which, and what a switch hides and shows.

use vstd::prelude::*;

use crate::geometry::{MonitorId, Rect, WindowHandle};
use crate::handles::{
    ascending_handles, contains_handle, handles_of, lemma_contains_push, lemma_ordered_handles, ordered_handles,
};
use crate::sorted_map::{has_key, key_index, lemma_entry, SortedMap};

verus! {

/// The number of a workspace.
#[derive(Debug, Clone, Copy, PartialEq, Eq, Hash, PartialOrd, Ord, Structural)]
pub struct WorkspaceId(pub u16);

/// What is known of a window: its workspace, where it was last, and whether it stays visible on
/// every workspace.
#[derive(Debug, Clone, Copy, PartialEq, Eq, Structural)]
pub struct WorkspaceWindowState {
    pub workspace: WorkspaceId,
    pub last_rect: Option<Rect>,
    pub visible_on_all_workspaces: bool,
}

/// A window that is to be shown, and where.
#[derive(Debug, Clone, Copy, PartialEq, Eq, Structural)]
pub struct WorkspaceVisibilityChange {
    pub window: WindowHandle,
    pub restore_rect: Option<Rect>,
}

/// What a switch of workspaces hides and shows.
#[derive(Debug, Clone, PartialEq, Eq)]
pub struct WorkspaceSwitchPlan {
    pub from: WorkspaceId,
    pub to: WorkspaceId,
    pub hide: Vec<WindowHandle>,
    pub show: Vec<WorkspaceVisibilityChange>,
}

impl WorkspaceSwitchPlan {
    /// Whether nothing is hidden or shown.
    pub fn is_empty(&self) -> (r: bool)
        ensures
            r == (self.hide@.len() == 0 && self.show@.len() == 0),
    {
        self.hide.is_empty() && self.show.is_empty()
    }
}

/// The workspaces, the active one, the windows that are tracked, and the workspace that each monitor
/// shows; the active workspace is the one on the monitor that has the focus.
#[derive(Debug, Clone, PartialEq, Eq)]
pub struct WorkspaceManager {
    workspaces: Vec<WorkspaceId>,
    active: WorkspaceId,
    windows: SortedMap<WorkspaceWindowState>,
    monitors: SortedMap<WorkspaceId>,
    focused: Option<MonitorId>,
}

/// The workspaces as a value: their numbers, the active one, the tracked windows by handle, the
/// workspaces that the monitors show, and the monitor that has the focus.
pub ghost struct WorkspaceView {
    pub workspaces: Set<u16>,
    pub active: WorkspaceId,
    pub windows: Map<u64, WorkspaceWindowState>,
    pub monitors: Map<u64, WorkspaceId>,
    pub focused: Option<MonitorId>,
}

impl WorkspaceView {
    /// Workspaces up to a number, one at least, with the first active and nothing tracked.
    pub open spec fn fresh(count: u16) -> WorkspaceView {
        WorkspaceView {
            workspaces: Set::new(|number: u16| 1 <= number && (number <= count || number == 1)),
            active: WorkspaceId(1),
            windows: Map::empty(),
            monitors: Map::empty(),
            focused: None,
        }
    }

    /// The workspaces with one that is there for sure.
    pub open spec fn with_workspace(self, workspace: WorkspaceId) -> WorkspaceView {
        WorkspaceView { workspaces: self.workspaces.insert(workspace.0), ..self }
    }

    /// The windows with one set.
    pub open spec fn with_window(self, window: WindowHandle, state: WorkspaceWindowState) -> WorkspaceView {
        WorkspaceView { windows: self.windows.insert(window.0, state), ..self }
    }

    /// Whether the window is tracked and visible while `workspace` is active.
    pub open spec fn shows_on(self, window: WindowHandle, workspace: WorkspaceId) -> bool {
        &&& self.windows.contains_key(window.0)
        &&& self.windows[window.0].visible_on_all_workspaces || self.windows[window.0].workspace
            == workspace
    }

    /// Whether the window is tracked and visible on `workspace` alone.
    pub open spec fn bound_to(self, window: WindowHandle, workspace: WorkspaceId) -> bool {
        &&& self.windows.contains_key(window.0)
        &&& !self.windows[window.0].visible_on_all_workspaces
        &&& self.windows[window.0].workspace == workspace
    }

    /// The workspaces after a rectangle of a window was seen, the window being put on `workspace`
    /// if it is new.
    pub open spec fn tracking(
        self,
        window: WindowHandle,
        workspace: WorkspaceId,
        rect: Rect,
    ) -> WorkspaceView {
        self.with_workspace(workspace).with_window(
            window,
            if self.windows.contains_key(window.0) {
                WorkspaceWindowState { last_rect: Some(rect), ..self.windows[window.0] }
            } else {
                WorkspaceWindowState {
                    workspace,
                    last_rect: Some(rect),
                    visible_on_all_workspaces: false,
                }
            },
        )
    }

    /// The workspaces after the window was moved to `workspace`, if it is tracked.
    pub open spec fn moving(self, window: WindowHandle, workspace: WorkspaceId) -> WorkspaceView {
        if self.windows.contains_key(window.0) {
            self.with_workspace(workspace).with_window(
                window,
                WorkspaceWindowState { workspace, ..self.windows[window.0] },
            )
        } else {
            self.with_workspace(workspace)
        }
    }

    /// The workspace that a monitor shows; a monitor that is not known shows the active one.
    pub open spec fn active_on(self, monitor: MonitorId) -> WorkspaceId {
        if self.monitors.contains_key(monitor.0) {
            self.monitors[monitor.0]
        } else {
            self.active
        }
    }

    /// The workspaces after a switch.
    pub open spec fn switched(self, target: WorkspaceId) -> WorkspaceView {
        WorkspaceView {
            active: target,
            monitors: match self.focused {
                Some(monitor) => self.monitors.insert(monitor.0, target),
                None => self.monitors,
            },
            ..self.with_workspace(target)
        }
    }

    /// The workspaces after a switch on a monitor, which gets the focus.
    pub open spec fn switched_on(self, monitor: MonitorId, target: WorkspaceId) -> WorkspaceView {
        WorkspaceView {
            active: target,
            monitors: self.monitors.insert(monitor.0, target),
            focused: Some(monitor),
            ..self.with_workspace(target)
        }
    }

    /// The workspaces with the focus on a monitor.
    pub open spec fn focused_on(self, monitor: MonitorId) -> WorkspaceView {
        WorkspaceView {
            active: self.active_on(monitor),
            monitors: self.monitors.insert(monitor.0, self.active_on(monitor)),
            focused: Some(monitor),
            ..self
        }
    }

    /// Whether one of the monitors shows the workspace.
    pub open spec fn shown_somewhere(shown: Map<u64, WorkspaceId>, workspace: WorkspaceId) -> bool {
        exists|key: u64| #[trigger] shown.contains_key(key) && shown[key] == workspace
    }

    /// Whether the workspace is the first that no monitor shows.
    pub open spec fn is_first_free(self, shown: Map<u64, WorkspaceId>, number: u16) -> bool {
        &&& self.workspaces.contains(number)
        &&& !Self::shown_somewhere(shown, WorkspaceId(number))
        &&& forall|other: u16| #[trigger]
            self.workspaces.contains(other) && other < number ==> Self::shown_somewhere(
                shown,
                WorkspaceId(other),
            )
    }

    /// The workspace for a new monitor beside those that show something: the active one for the only
    /// monitor, or else the first that no monitor shows, or else the active one.
    pub open spec fn workspace_for_new_monitor(self, shown: Map<u64, WorkspaceId>) -> WorkspaceId {
        if (forall|key: u64| !#[trigger] shown.contains_key(key)) || !(exists|number: u16| #[trigger]
            self.is_first_free(shown, number)) {
            self.active
        } else {
            WorkspaceId(choose|number: u16| #[trigger] self.is_first_free(shown, number))
        }
    }

    /// What the monitors show: those that are not there any more show nothing, and the new ones, in
    /// their order, get a workspace each.
    pub open spec fn monitors_synced(self, ids: Seq<MonitorId>, all: Seq<MonitorId>) -> Map<
        u64,
        WorkspaceId,
    >
        decreases ids.len(),
    {
        if ids.len() == 0 {
            self.monitors.restrict(Set::new(|key: u64| all.contains(MonitorId(key))))
        } else {
            let before = self.monitors_synced(ids.drop_last(), all);
            if before.contains_key(ids.last().0) {
                before
            } else {
                before.insert(ids.last().0, self.workspace_for_new_monitor(before))
            }
        }
    }

    /// The workspaces with the given monitors: one that had the focus keeps it, or else the first one
    /// gets it.
    pub open spec fn synced(self, ids: Seq<MonitorId>) -> WorkspaceView {
        let shown = self.monitors_synced(ids, ids);
        let focused = if self.focused is Some && ids.contains(self.focused.unwrap()) {
            self.focused
        } else if ids.len() > 0 {
            Some(ids[0])
        } else {
            None
        };
        WorkspaceView {
            monitors: shown,
            focused,
            active: match focused {
                Some(monitor) => shown[monitor.0],
                None => self.active,
            },
            ..self
        }
    }

    /// The workspaces with at least those up to a number.
    pub open spec fn with_count(self, count: u16) -> WorkspaceView {
        WorkspaceView {
            workspaces: Set::new(|number: u16| self.workspaces.contains(number) || 1 <= number <= count),
            ..self
        }
    }

    /// Whether the plan is the one for a change from a workspace to another: the windows bound to
    /// the one are hidden and the ones bound to the other are shown where they were last, both in
    /// ascending order of their handles; nothing happens if the two are the same.
    pub open spec fn is_change_plan(
        self,
        from: WorkspaceId,
        target: WorkspaceId,
        plan: WorkspaceSwitchPlan,
    ) -> bool {
        &&& plan.from == from
        &&& plan.to == target
        &&& ascending_handles(plan.hide@)
        &&& ascending_handles(changed_windows(plan.show@))
        &&& forall|w: WindowHandle| #[trigger]
            plan.hide@.contains(w) <==> target != from && self.bound_to(w, from)
        &&& forall|change: WorkspaceVisibilityChange| #[trigger]
            plan.show@.contains(change) <==> target != from && self.bound_to(change.window, target)
                && change.restore_rect == self.windows[change.window.0].last_rect
    }

    /// The windows that are bound to a workspace.
    pub open spec fn is_bound_to(self, workspace: WorkspaceId) -> spec_fn(WindowHandle) -> bool {
        |window: WindowHandle| self.bound_to(window, workspace)
    }

    /// What a change from a workspace to another hides, in ascending order of the handles.
    pub open spec fn hidden_by(self, from: WorkspaceId, target: WorkspaceId) -> Seq<WindowHandle> {
        if from == target {
            Seq::empty()
        } else {
            ordered_handles(self.windows).filter(self.is_bound_to(from))
        }
    }

    /// A window that is to be shown where it was last.
    pub open spec fn restored(self) -> spec_fn(WindowHandle) -> WorkspaceVisibilityChange {
        |window: WindowHandle|
            WorkspaceVisibilityChange {
                window,
                restore_rect: self.windows[window.0].last_rect,
            }
    }

    /// What a change from a workspace to another shows, in ascending order of the handles.
    pub open spec fn shown_by(self, from: WorkspaceId, target: WorkspaceId) -> Seq<
        WorkspaceVisibilityChange,
    > {
        if from == target {
            Seq::empty()
        } else {
            ordered_handles(self.windows).filter(self.is_bound_to(target)).map_values(
                self.restored(),
            )
        }
    }

    /// Whether the plan is the one for a switch from the active workspace.
    pub open spec fn is_switch_plan(self, target: WorkspaceId, plan: WorkspaceSwitchPlan) -> bool {
        self.is_change_plan(self.active, target, plan)
    }

    /// Whether the active workspace, the workspace of every window and the one of every monitor is
    /// there, and the monitor with the focus shows the active one.
    pub open spec fn wf(self) -> bool {
        &&& self.workspaces.contains(self.active.0)
        &&& self.focused matches Some(monitor) ==> self.monitors.contains_key(monitor.0)
            && self.monitors[monitor.0] == self.active
        &&& forall|key: u64| #[trigger]
            self.monitors.contains_key(key) ==> self.workspaces.contains(self.monitors[key].0)
        &&& forall|key: u64| #[trigger]
            self.windows.contains_key(key) ==> self.workspaces.contains(
                self.windows[key].workspace.0,
            )
    }
}

/// The windows of visibility changes.
pub open spec fn changed_windows(changes: Seq<WorkspaceVisibilityChange>) -> Seq<WindowHandle> {
    changes.map_values(|change: WorkspaceVisibilityChange| change.window)
}

/// Whether workspaces are in strictly ascending order.
pub open spec fn ascending_workspaces(workspaces: Seq<WorkspaceId>) -> bool {
    forall|i: int, j: int|
        0 <= i < j < workspaces.len() ==> (#[trigger] workspaces[i]).0 < (#[trigger] workspaces[j]).0
}

/// The numbers of workspaces.
pub open spec fn workspace_numbers(workspaces: Seq<WorkspaceId>) -> Set<u16> {
    Set::new(|number: u16| workspaces.contains(WorkspaceId(number)))
}

impl View for WorkspaceManager {
    type V = WorkspaceView;

    closed spec fn view(&self) -> WorkspaceView {
        WorkspaceView {
            workspaces: workspace_numbers(self.workspaces@),
            active: self.active,
            windows: self.windows@,
            monitors: self.monitors@,
            focused: self.focused,
        }
    }
}

impl WorkspaceManager {
    /// Whether the workspaces are well formed.
    pub closed spec fn wf(&self) -> bool {
        &&& self@.wf()
        &&& self.windows.wf()
        &&& self.monitors.wf()
        &&& ascending_workspaces(self.workspaces@)
    }

    /// Well-formed workspaces are so as a value.
    pub proof fn lemma_wf(&self)
        requires
            self.wf(),
        ensures
            self@.wf(),
    {
    }

    /// Workspaces `1` to `workspace_count`, one at least, with the first active.
    pub fn new(workspace_count: u16) -> (r: WorkspaceManager)
        ensures
            r.wf(),
            r@ == WorkspaceView::fresh(workspace_count),
    {
        let count: u16 = if workspace_count < 1 {
            1
        } else {
            workspace_count
        };
        let mut workspaces: Vec<WorkspaceId> = Vec::new();
        let mut number: u16 = 0;
        while number < count
            invariant
                number <= count,
                workspaces.len() == number,
                forall|i: int| 0 <= i < number ==> (#[trigger] workspaces[i]).0 == i + 1,
            decreases count - number,
        {
            number = number + 1;
            workspaces.push(WorkspaceId(number));
        }
        let r = WorkspaceManager {
            workspaces,
            active: WorkspaceId(1),
            windows: SortedMap::new(),
            monitors: SortedMap::new(),
            focused: None,
        };
        proof {
            assert forall|n: u16| #[trigger] r@.workspaces.contains(n) <==> 1 <= n && n <= count by {
                if 1 <= n <= count {
                    assert(workspaces[n - 1] == WorkspaceId(n));
                }
                if workspaces@.contains(WorkspaceId(n)) {
                    let i = workspaces@.index_of(WorkspaceId(n));
                    assert(workspaces[i].0 == i + 1);
                }
            }
            assert(r@.workspaces =~= WorkspaceView::fresh(workspace_count).workspaces);
        }
        r
    }

    /// The same workspaces once more.
    pub fn copy(&self) -> (r: WorkspaceManager)
        requires
            self.wf(),
        ensures
            r.wf(),
            r@ == self@,
    {
        let workspaces: Vec<WorkspaceId> = self.workspaces.clone();
        proof {
            assert(workspaces@ =~= self.workspaces@);
        }
        WorkspaceManager {
            workspaces,
            active: self.active,
            windows: self.windows.copy(),
            monitors: self.monitors.copy(),
            focused: self.focused,
        }
    }

    /// The active workspace.
    pub fn active_workspace(&self) -> (r: WorkspaceId)
        ensures
            r == self@.active,
    {
        self.active
    }

    /// The workspaces in ascending order.
    pub fn workspaces(&self) -> (r: Vec<WorkspaceId>)
        requires
            self.wf(),
        ensures
            ascending_workspaces(r@),
            workspace_numbers(r@) == self@.workspaces,
    {
        self.workspaces.clone()
    }

    /// What is known of a window.
    pub fn window_state(&self, window: WindowHandle) -> (r: Option<WorkspaceWindowState>)
        requires
            self.wf(),
        ensures
            r == if self@.windows.contains_key(window.0) {
                Some(self@.windows[window.0])
            } else {
                None
            },
    {
        match self.windows.get(window.0) {
            Some(state) => Some(*state),
            None => None,
        }
    }

    /// Makes sure that a workspace is there.
    pub fn ensure_workspace(&mut self, workspace: WorkspaceId)
        requires
            old(self).wf(),
        ensures
            final(self).wf(),
            final(self)@ == old(self)@.with_workspace(workspace),
    {
        let ghost before = self.workspaces@;
        let mut place: usize = 0;
        while place < self.workspaces.len() && self.workspaces[place].0 < workspace.0
            invariant
                place <= self.workspaces.len(),
                forall|i: int| 0 <= i < place ==> (#[trigger] self.workspaces@[i]).0 < workspace.0,
            decreases self.workspaces.len() - place,
        {
            place = place + 1;
        }
        if place < self.workspaces.len() && self.workspaces[place].0 == workspace.0 {
            proof {
                assert(before[place as int] == workspace);
                assert(self@.workspaces =~= old(self)@.workspaces.insert(workspace.0));
            }
            return ;
        }
        self.workspaces.insert(place, workspace);
        proof {
            let after = self.workspaces@;
            assert(after == before.insert(place as int, workspace));
            assert forall|i: int| place <= i < before.len() implies (#[trigger] before[i]).0
                > workspace.0 by {
                if i > place {
                    assert(before[place as int].0 < before[i].0);
                }
            }
            assert forall|i: int, j: int| 0 <= i < j < after.len() implies (#[trigger] after[i]).0
                < (#[trigger] after[j]).0 by {
                let a = if i < place {
                    i
                } else {
                    i - 1
                };
                let b = if j < place {
                    j
                } else {
                    j - 1
                };
                if i != place {
                    assert(after[i] == before[a]);
                }
                if j != place {
                    assert(after[j] == before[b]);
                }
                if i != place && j != place {
                    assert(before[a].0 < before[b].0);
                }
            }
            assert forall|n: u16| #[trigger]
                workspace_numbers(after).contains(n) <==> workspace_numbers(before).contains(n) || n
                    == workspace.0 by {
                if before.contains(WorkspaceId(n)) {
                    let i = before.index_of(WorkspaceId(n));
                    if i < place {
                        assert(after[i] == WorkspaceId(n));
                    } else {
                        assert(after[i + 1] == WorkspaceId(n));
                    }
                }
                assert(after[place as int] == workspace);
                if after.contains(WorkspaceId(n)) && n != workspace.0 {
                    let i = after.index_of(WorkspaceId(n));
                    if i < place {
                        assert(before[i] == WorkspaceId(n));
                    } else {
                        assert(before[i - 1] == WorkspaceId(n));
                    }
                }
            }
            assert(self@.workspaces =~= old(self)@.workspaces.insert(workspace.0));
        }
    }

    /// Takes note of a window and its rectangle; a new window is put on the active workspace. Says
    /// whether it is new.
    pub fn track_window(&mut self, window: WindowHandle, rect: Rect) -> (r: bool)
        requires
            old(self).wf(),
        ensures
            final(self).wf(),
            r == !old(self)@.windows.contains_key(window.0),
            final(self)@ == old(self)@.tracking(window, old(self)@.active, rect),
    {
        self.track_window_on_workspace(window, self.active, rect)
    }

    /// Takes note of a window and its rectangle; a new window is put on the workspace. Says whether
    /// it is new.
    pub fn track_window_on_workspace(
        &mut self,
        window: WindowHandle,
        workspace: WorkspaceId,
        rect: Rect,
    ) -> (r: bool)
        requires
            old(self).wf(),
        ensures
            final(self).wf(),
            r == !old(self)@.windows.contains_key(window.0),
            final(self)@ == old(self)@.tracking(window, workspace, rect),
    {
        self.ensure_workspace(workspace);
        match self.windows.get_mut(window.0) {
            Some(state) => {
                state.last_rect = Some(rect);
                false
            },
            None => {
                self.windows.insert(
                    window.0,
                    WorkspaceWindowState {
                        workspace,
                        last_rect: Some(rect),
                        visible_on_all_workspaces: false,
                    },
                );
                true
            },
        }
    }

    /// Forgets a window; says whether it was tracked.
    pub fn remove_window(&mut self, window: WindowHandle) -> (r: bool)
        requires
            old(self).wf(),
        ensures
            final(self).wf(),
            r == old(self)@.windows.contains_key(window.0),
            final(self)@ == (WorkspaceView {
                windows: old(self)@.windows.remove(window.0),
                ..old(self)@
            }),
    {
        self.windows.remove(window.0).is_some()
    }

    /// Forgets every window that is not among `existing`.
    pub fn retain_windows(&mut self, existing: &[WindowHandle])
        requires
            old(self).wf(),
        ensures
            final(self).wf(),
            final(self)@ == (WorkspaceView {
                windows: old(self)@.windows.restrict(
                    Set::new(|key: u64| existing@.contains(WindowHandle(key))),
                ),
                ..old(self)@
            }),
    {
        let ghost keep = Set::new(|key: u64| existing@.contains(WindowHandle(key)));
        let ghost before = self@.windows;
        let mut kept: SortedMap<WorkspaceWindowState> = SortedMap::new();
        let mut index: usize = 0;
        proof {
            self.windows.lemma_view();
        }
        while index < self.windows.len()
            invariant
                index <= self.windows.entries().len(),
                self.windows.wf(),
                kept.wf(),
                before == self.windows@,
                self.windows@ == crate::sorted_map::entry_map(self.windows.entries()),
                keep == Set::new(|key: u64| existing@.contains(WindowHandle(key))),
                forall|key: u64| #[trigger]
                    kept@.contains_key(key) ==> before.contains_key(key) && keep.contains(key)
                        && kept@[key] == before[key],
                forall|i: int|
                    #![trigger self.windows.entries()[i]]
                    0 <= i < index && keep.contains(self.windows.entries()[i].0)
                        ==> kept@.contains_key(self.windows.entries()[i].0),
            decreases self.windows.entries().len() - index,
        {
            let key: u64 = self.windows.key_at(index);
            proof {
                lemma_entry(self.windows.entries(), index as int);
            }
            if contains_handle(existing, WindowHandle(key)) {
                kept.insert(key, *self.windows.value_at(index));
            }
            index = index + 1;
        }
        proof {
            assert forall|key: u64| before.contains_key(key) && keep.contains(key) implies #[trigger] kept@.contains_key(
                key,
            ) by {
                let at = key_index(self.windows.entries(), key);
                assert(has_key(self.windows.entries(), key));
                lemma_entry(self.windows.entries(), at);
                assert(self.windows.entries()[at].0 == key);
            }
            assert(kept@ =~= before.restrict(keep));
        }
        self.windows = kept;
    }

    /// Takes note of a window's rectangle; says whether the window is tracked.
    pub fn update_window_rect(&mut self, window: WindowHandle, rect: Rect) -> (r: bool)
        requires
            old(self).wf(),
        ensures
            final(self).wf(),
            r == old(self)@.windows.contains_key(window.0),
            final(self)@ == if r {
                old(self)@.with_window(
                    window,
                    WorkspaceWindowState {
                        last_rect: Some(rect),
                        ..old(self)@.windows[window.0]
                    },
                )
            } else {
                old(self)@
            },
    {
        match self.windows.get_mut(window.0) {
            None => false,
            Some(state) => {
                state.last_rect = Some(rect);
                true
            },
        }
    }

    /// Moves a window to a workspace; says whether it is tracked and was not there already.
    pub fn move_window_to_workspace(&mut self, window: WindowHandle, workspace: WorkspaceId) -> (r:
        bool)
        requires
            old(self).wf(),
        ensures
            final(self).wf(),
            r == (old(self)@.windows.contains_key(window.0) && old(
                self,
            )@.windows[window.0].workspace != workspace),
            final(self)@ == old(self)@.moving(window, workspace),
    {
        self.ensure_workspace(workspace);
        let moved: bool = match self.windows.get_mut(window.0) {
            None => false,
            Some(state) => {
                if state.workspace == workspace {
                    false
                } else {
                    state.workspace = workspace;
                    true
                }
            },
        };
        proof {
            assert(self@.windows =~= old(self)@.moving(window, workspace).windows);
        }
        moved
    }

    /// Sets whether a window stays visible on every workspace; says whether it is tracked.
    pub fn set_visible_on_all_workspaces(
        &mut self,
        window: WindowHandle,
        visible_on_all_workspaces: bool,
    ) -> (r: bool)
        requires
            old(self).wf(),
        ensures
            final(self).wf(),
            r == old(self)@.windows.contains_key(window.0),
            final(self)@ == if r {
                old(self)@.with_window(
                    window,
                    WorkspaceWindowState {
                        visible_on_all_workspaces,
                        ..old(self)@.windows[window.0]
                    },
                )
            } else {
                old(self)@
            },
    {
        match self.windows.get_mut(window.0) {
            None => false,
            Some(state) => {
                state.visible_on_all_workspaces = visible_on_all_workspaces;
                true
            },
        }
    }

    /// Whether a window is visible now.
    pub fn is_window_on_active_workspace(&self, window: WindowHandle) -> (r: bool)
        requires
            self.wf(),
        ensures
            r == self@.shows_on(window, self@.active),
    {
        match self.windows.get(window.0) {
            None => false,
            Some(state) => state.visible_on_all_workspaces || state.workspace == self.active,
        }
    }

    /// The windows that are visible now, in ascending order of their handles.
    pub fn visible_windows(&self) -> (r: Vec<WindowHandle>)
        requires
            self.wf(),
        ensures
            ascending_handles(r@),
            forall|w: WindowHandle| #[trigger]
                r@.contains(w) <==> self@.shows_on(w, self@.active),
    {
        let mut visible: Vec<WindowHandle> = Vec::new();
        let mut index: usize = 0;
        proof {
            self.windows.lemma_view();
        }
        while index < self.windows.len()
            invariant
                index <= self.windows.entries().len(),
                self.windows.wf(),
                self.windows@ == crate::sorted_map::entry_map(self.windows.entries()),
                ascending_handles(visible@),
                forall|i: int|
                    0 <= i < visible.len() ==> self@.shows_on(#[trigger] visible[i], self@.active)
                        && exists|j: int|
                        0 <= j < index && (#[trigger] self.windows.entries()[j]).0 == visible[i].0,
                forall|j: int|
                    #![trigger self.windows.entries()[j]]
                    0 <= j < index && self@.shows_on(
                        WindowHandle(self.windows.entries()[j].0),
                        self@.active,
                    ) ==> visible@.contains(WindowHandle(self.windows.entries()[j].0)),
            decreases self.windows.entries().len() - index,
        {
            let key: u64 = self.windows.key_at(index);
            let state: WorkspaceWindowState = *self.windows.value_at(index);
            let ghost before = visible@;
            proof {
                lemma_entry(self.windows.entries(), index as int);
                assert forall|i: int| 0 <= i < visible.len() implies (#[trigger] visible[i]).0
                    < key by {
                    let j = choose|j: int|
                        0 <= j < index && (#[trigger] self.windows.entries()[j]).0 == visible[i].0;
                    assert(self.windows.entries()[j].0 < self.windows.entries()[index as int].0);
                }
            }
            if state.visible_on_all_workspaces || state.workspace == self.active {
                visible.push(WindowHandle(key));
                proof {
                    assert(visible@[before.len() as int] == WindowHandle(key));
                    assert(self.windows.entries()[index as int].0 == key);
                    assert forall|w: WindowHandle| before.contains(w) implies visible@.contains(
                        w,
                    ) by {
                        let i = before.index_of(w);
                        assert(visible@[i] == w);
                    }
                }
            }
            index = index + 1;
        }
        proof {
            assert forall|w: WindowHandle| #[trigger]
                visible@.contains(w) <==> self@.shows_on(w, self@.active) by {
                if self@.shows_on(w, self@.active) {
                    let at = key_index(self.windows.entries(), w.0);
                    assert(has_key(self.windows.entries(), w.0));
                    lemma_entry(self.windows.entries(), at);
                    assert(self.windows.entries()[at].0 == w.0);
                }
            }
        }
        visible
    }

    /// What a change from a workspace to another hides and shows.
    fn change_plan(&self, from: WorkspaceId, target: WorkspaceId) -> (r: WorkspaceSwitchPlan)
        requires
            self.wf(),
        ensures
            self@.is_change_plan(from, target, r),
            r.hide@ == self@.hidden_by(from, target),
            r.show@ == self@.shown_by(from, target),
    {
        let ghost before = self@;
        let mut hidden: Vec<WindowHandle> = Vec::new();
        let mut shown: Vec<WorkspaceVisibilityChange> = Vec::new();
        if from == target {
            let plan: WorkspaceSwitchPlan = WorkspaceSwitchPlan {
                from,
                to: target,
                hide: hidden,
                show: shown,
            };
            return plan;
        }
        let mut index: usize = 0;
        proof {
            self.windows.lemma_view();
        }
        while index < self.windows.len()
            invariant
                index <= self.windows.entries().len(),
                self.windows.wf(),
                self.windows@ == before.windows,
                self.windows@ == crate::sorted_map::entry_map(self.windows.entries()),
                from != target,
                ascending_handles(hidden@),
                ascending_handles(changed_windows(shown@)),
                forall|i: int|
                    0 <= i < hidden.len() ==> before.bound_to(#[trigger] hidden[i], from) && exists|
                        j: int,
                    |
                        0 <= j < index && (#[trigger] self.windows.entries()[j]).0 == hidden[i].0,
                forall|i: int|
                    0 <= i < shown.len() ==> before.bound_to((#[trigger] shown[i]).window, target)
                        && shown[i].restore_rect == before.windows[shown[i].window.0].last_rect
                        && exists|j: int|
                        0 <= j < index && (#[trigger] self.windows.entries()[j]).0
                            == shown[i].window.0,
                forall|j: int|
                    #![trigger self.windows.entries()[j]]
                    0 <= j < index ==> {
                        let w = WindowHandle(self.windows.entries()[j].0);
                        &&& before.bound_to(w, from) ==> hidden@.contains(w)
                        &&& before.bound_to(w, target) ==> shown@.contains(
                            WorkspaceVisibilityChange {
                                window: w,
                                restore_rect: before.windows[w.0].last_rect,
                            },
                        )
                    },
            decreases self.windows.entries().len() - index,
        {
            let key: u64 = self.windows.key_at(index);
            let state: WorkspaceWindowState = *self.windows.value_at(index);
            let ghost hidden_before = hidden@;
            let ghost shown_before = shown@;
            proof {
                lemma_entry(self.windows.entries(), index as int);
                assert(self.windows.entries()[index as int].0 == key);
                assert forall|i: int| 0 <= i < hidden.len() implies (#[trigger] hidden[i]).0 < key by {
                    let j = choose|j: int|
                        0 <= j < index && (#[trigger] self.windows.entries()[j]).0 == hidden[i].0;
                    assert(self.windows.entries()[j].0 < self.windows.entries()[index as int].0);
                }
                assert forall|i: int| 0 <= i < shown.len() implies (#[trigger] shown[i]).window.0
                    < key by {
                    let j = choose|j: int|
                        0 <= j < index && (#[trigger] self.windows.entries()[j]).0
                            == shown[i].window.0;
                    assert(self.windows.entries()[j].0 < self.windows.entries()[index as int].0);
                }
            }
            if !state.visible_on_all_workspaces {
                if state.workspace == from {
                    hidden.push(WindowHandle(key));
                    proof {
                        assert(hidden@[hidden_before.len() as int] == WindowHandle(key));
                    }
                } else if state.workspace == target {
                    shown.push(
                        WorkspaceVisibilityChange {
                            window: WindowHandle(key),
                            restore_rect: state.last_rect,
                        },
                    );
                    proof {
                        assert(shown@[shown_before.len() as int].window == WindowHandle(key));
                        assert forall|i: int, j: int|
                            0 <= i < j < changed_windows(shown@).len() implies (
                        #[trigger] changed_windows(shown@)[i]).0 < (#[trigger] changed_windows(
                            shown@,
                        )[j]).0 by {
                            if j < shown_before.len() {
                                assert(changed_windows(shown_before)[i].0 < changed_windows(
                                    shown_before,
                                )[j].0);
                            } else {
                                assert(shown[i].window.0 < key);
                            }
                        }
                    }
                }
            }
            proof {
                assert forall|w: WindowHandle| hidden_before.contains(w) implies hidden@.contains(
                    w,
                ) by {
                    let i = hidden_before.index_of(w);
                    assert(hidden@[i] == w);
                }
                assert forall|c: WorkspaceVisibilityChange|
                    shown_before.contains(c) implies shown@.contains(c) by {
                    let i = shown_before.index_of(c);
                    assert(shown@[i] == c);
                }
            }
            index = index + 1;
        }
        proof {
            assert forall|w: WindowHandle| #[trigger]
                hidden@.contains(w) <==> before.bound_to(w, from) by {
                if before.bound_to(w, from) {
                    let at = key_index(self.windows.entries(), w.0);
                    assert(has_key(self.windows.entries(), w.0));
                    lemma_entry(self.windows.entries(), at);
                    assert(self.windows.entries()[at].0 == w.0);
                }
            }
            assert forall|change: WorkspaceVisibilityChange| #[trigger]
                shown@.contains(change) <==> before.bound_to(change.window, target)
                    && change.restore_rect == before.windows[change.window.0].last_rect by {
                if before.bound_to(change.window, target) && change.restore_rect
                    == before.windows[change.window.0].last_rect {
                    let at = key_index(self.windows.entries(), change.window.0);
                    assert(has_key(self.windows.entries(), change.window.0));
                    lemma_entry(self.windows.entries(), at);
                    assert(self.windows.entries()[at].0 == change.window.0);
                }
            }
        }
        let plan: WorkspaceSwitchPlan = WorkspaceSwitchPlan {
            from,
            to: target,
            hide: hidden,
            show: shown,
        };
        proof {
            lemma_ordered_handles(&self.windows);
            lemma_change_plan(before, from, target, plan);
        }
        plan
    }

    /// Makes a workspace active and says what that hides and shows.
    pub fn switch_to(&mut self, target: WorkspaceId) -> (r: WorkspaceSwitchPlan)
        requires
            old(self).wf(),
        ensures
            final(self).wf(),
            old(self)@.is_switch_plan(target, r),
            r.hide@ == old(self)@.hidden_by(old(self)@.active, target),
            r.show@ == old(self)@.shown_by(old(self)@.active, target),
            final(self)@ == old(self)@.switched(target),
    {
        let plan: WorkspaceSwitchPlan = self.change_plan(self.active, target);
        self.ensure_workspace(target);
        self.active = target;
        if let Some(monitor) = self.focused {
            self.monitors.insert(monitor.0, target);
        }
        plan
    }

    /// The workspace that a monitor shows.
    pub fn active_workspace_for_monitor(&self, monitor: MonitorId) -> (r: WorkspaceId)
        requires
            self.wf(),
        ensures
            r == self@.active_on(monitor),
    {
        match self.monitors.get(monitor.0) {
            Some(workspace) => *workspace,
            None => self.active,
        }
    }

    /// The monitor that has the focus.
    pub fn focused_monitor(&self) -> (r: Option<MonitorId>)
        ensures
            r == self@.focused,
    {
        self.focused
    }

    /// Gives the focus to a monitor.
    pub fn focus_monitor(&mut self, monitor: MonitorId)
        requires
            old(self).wf(),
        ensures
            final(self).wf(),
            final(self)@ == old(self)@.focused_on(monitor),
    {
        let workspace: WorkspaceId = self.active_workspace_for_monitor(monitor);
        self.monitors.insert(monitor.0, workspace);
        self.focused = Some(monitor);
        self.active = workspace;
    }

    /// Makes a monitor show a workspace, gives it the focus, and says what that hides and shows.
    pub fn switch_monitor_to(&mut self, monitor: MonitorId, target: WorkspaceId) -> (r:
        WorkspaceSwitchPlan)
        requires
            old(self).wf(),
        ensures
            final(self).wf(),
            old(self)@.is_change_plan(old(self)@.active_on(monitor), target, r),
            r.hide@ == old(self)@.hidden_by(old(self)@.active_on(monitor), target),
            r.show@ == old(self)@.shown_by(old(self)@.active_on(monitor), target),
            final(self)@ == old(self)@.switched_on(monitor, target),
    {
        let from: WorkspaceId = self.active_workspace_for_monitor(monitor);
        let plan: WorkspaceSwitchPlan = self.change_plan(from, target);
        self.ensure_workspace(target);
        self.active = target;
        self.monitors.insert(monitor.0, target);
        self.focused = Some(monitor);
        plan
    }

    fn is_shown(shown: &SortedMap<WorkspaceId>, workspace: WorkspaceId) -> (r: bool)
        requires
            shown.wf(),
        ensures
            r == WorkspaceView::shown_somewhere(shown@, workspace),
    {
        let mut index: usize = 0;
        proof {
            shown.lemma_view();
        }
        while index < shown.len()
            invariant
                index <= shown.entries().len(),
                shown.wf(),
                shown@ == crate::sorted_map::entry_map(shown.entries()),
                forall|i: int| 0 <= i < index ==> (#[trigger] shown.entries()[i]).1 != workspace,
            decreases shown.entries().len() - index,
        {
            if *shown.value_at(index) == workspace {
                proof {
                    lemma_entry(shown.entries(), index as int);
                }
                return true;
            }
            index = index + 1;
        }
        proof {
            assert forall|key: u64| #[trigger] shown@.contains_key(key) implies shown@[key]
                != workspace by {
                let at = key_index(shown.entries(), key);
                assert(has_key(shown.entries(), key));
                lemma_entry(shown.entries(), at);
            }
        }
        false
    }

    fn workspace_for_new(&self, shown: &SortedMap<WorkspaceId>) -> (r: WorkspaceId)
        requires
            self.wf(),
            shown.wf(),
        ensures
            r == self@.workspace_for_new_monitor(shown@),
            self@.workspaces.contains(r.0),
    {
        if shown.is_empty() {
            return self.active;
        }
        let mut index: usize = 0;
        while index < self.workspaces.len()
            invariant
                index <= self.workspaces.len(),
                self.wf(),
                shown.wf(),
                !(forall|key: u64| !#[trigger] shown@.contains_key(key)),
                forall|i: int|
                    0 <= i < index ==> WorkspaceView::shown_somewhere(
                        shown@,
                        #[trigger] self.workspaces@[i],
                    ),
            decreases self.workspaces.len() - index,
        {
            let workspace: WorkspaceId = self.workspaces[index];
            if !Self::is_shown(shown, workspace) {
                proof {
                    assert(self.workspaces@.contains(workspace));
                    assert forall|other: u16| #[trigger]
                        self@.workspaces.contains(other) && other
                            < workspace.0 implies WorkspaceView::shown_somewhere(
                        shown@,
                        WorkspaceId(other),
                    ) by {
                        let i = self.workspaces@.index_of(WorkspaceId(other));
                        if i > index {
                            assert(self.workspaces@[index as int].0 < self.workspaces@[i].0);
                        }
                    }
                    assert(self@.is_first_free(shown@, workspace.0));
                    let chosen = choose|number: u16| #[trigger] self@.is_first_free(shown@, number);
                    assert(chosen == workspace.0);
                }
                return workspace;
            }
            index = index + 1;
        }
        proof {
            assert forall|number: u16| !#[trigger] self@.is_first_free(shown@, number) by {
                if self@.workspaces.contains(number) {
                    let i = self.workspaces@.index_of(WorkspaceId(number));
                    assert(WorkspaceView::shown_somewhere(shown@, self.workspaces@[i]));
                }
            }
        }
        self.active
    }

    /// Takes note of the monitors that are there.
    pub fn sync_monitors(&mut self, ids: &[MonitorId])
        requires
            old(self).wf(),
        ensures
            final(self).wf(),
            final(self)@ == old(self)@.synced(ids@),
    {
        let ghost before = self@;
        let ghost keep = Set::new(|key: u64| ids@.contains(MonitorId(key)));
        let mut shown: SortedMap<WorkspaceId> = SortedMap::new();
        let mut index: usize = 0;
        while index < ids.len()
            invariant
                index <= ids.len(),
                self.wf(),
                shown.wf(),
                self@ == before,
                forall|key: u64| #[trigger]
                    shown@.contains_key(key) <==> before.monitors.contains_key(key)
                        && ids@.take(index as int).contains(MonitorId(key)),
                forall|key: u64| #[trigger]
                    shown@.contains_key(key) ==> shown@[key] == before.monitors[key],
            decreases ids.len() - index,
        {
            proof {
                assert(ids@.take(index + 1) =~= ids@.take(index as int).push(ids@[index as int]));
                lemma_contains_push(ids@.take(index as int), ids@[index as int]);
            }
            let id: MonitorId = ids[index];
            match self.monitors.get(id.0) {
                Some(workspace) => {
                    shown.insert(id.0, *workspace);
                },
                None => {},
            }
            index = index + 1;
        }
        proof {
            assert(ids@.take(index as int) =~= ids@);
            assert(shown@ =~= before.monitors.restrict(keep));
            assert(ids@.take(0) =~= Seq::empty());
        }
        let mut next: usize = 0;
        while next < ids.len()
            invariant
                next <= ids.len(),
                self.wf(),
                shown.wf(),
                self@ == before,
                shown@ == before.monitors_synced(ids@.take(next as int), ids@),
                forall|i: int| 0 <= i < next ==> shown@.contains_key((#[trigger] ids@[i]).0),
                forall|key: u64| #[trigger]
                    shown@.contains_key(key) ==> before.workspaces.contains(shown@[key].0)
                        && ids@.contains(MonitorId(key)),
                forall|key: u64|
                    before.monitors.contains_key(key) && ids@.contains(MonitorId(key))
                        ==> #[trigger] shown@.contains_key(key) && shown@[key] == before.monitors[key],
            decreases ids.len() - next,
        {
            proof {
                assert(ids@.take(next + 1).drop_last() =~= ids@.take(next as int));
                assert(ids@.take(next + 1).last() == ids@[next as int]);
            }
            let id: MonitorId = ids[next];
            if !shown.contains_key(id.0) {
                let workspace: WorkspaceId = self.workspace_for_new(&shown);
                shown.insert(id.0, workspace);
            }
            next = next + 1;
        }
        proof {
            assert(ids@.take(next as int) =~= ids@);
        }
        let mut kept_focus: bool = false;
        if let Some(monitor) = self.focused {
            let mut at: usize = 0;
            while at < ids.len() && !kept_focus
                invariant
                    at <= ids.len(),
                    kept_focus ==> ids@.contains(monitor),
                    !kept_focus ==> forall|i: int| 0 <= i < at ==> #[trigger] ids@[i] != monitor,
                decreases ids.len() - at + (if kept_focus {
                    0int
                } else {
                    1
                }),
            {
                if ids[at] == monitor {
                    kept_focus = true;
                } else {
                    at = at + 1;
                }
            }
        }
        if !kept_focus {
            self.focused = if ids.len() > 0 {
                Some(ids[0])
            } else {
                None
            };
        }
        if let Some(monitor) = self.focused {
            match shown.get(monitor.0) {
                Some(workspace) => {
                    self.active = *workspace;
                },
                None => {
                    proof {
                        if kept_focus {
                            let i = ids@.index_of(monitor);
                            assert(shown@.contains_key(ids@[i].0));
                        } else {
                            assert(shown@.contains_key(ids@[0].0));
                        }
                    }
                },
            }
        }
        self.monitors = shown;
    }

    /// Makes sure that the workspaces up to a number are there; others stay.
    pub fn set_workspace_count(&mut self, workspace_count: u16)
        requires
            old(self).wf(),
        ensures
            final(self).wf(),
            final(self)@ == old(self)@.with_count(workspace_count),
    {
        let mut number: u16 = 0;
        proof {
            assert(self@.workspaces =~= old(self)@.with_count(0).workspaces);
        }
        while number < workspace_count
            invariant
                number <= workspace_count,
                self.wf(),
                self@ == old(self)@.with_count(number),
            decreases workspace_count - number,
        {
            number = number + 1;
            self.ensure_workspace(WorkspaceId(number));
            proof {
                assert(self@.workspaces =~= old(self)@.with_count(number).workspaces);
            }
        }
    }

    /// The windows that are tracked, in ascending order of their handles.
    pub fn tracked_windows(&self) -> (r: Vec<WindowHandle>)
        requires
            self.wf(),
        ensures
            r@ == ordered_handles(self@.windows),
    {
        handles_of(&self.windows)
    }

    /// Whether a window is visible on the workspace that a monitor shows.
    pub fn is_window_on_monitor_workspace(&self, window: WindowHandle, monitor: MonitorId) -> (r: bool)
        requires
            self.wf(),
        ensures
            r == self@.shows_on(window, self@.active_on(monitor)),
    {
        let workspace: WorkspaceId = self.active_workspace_for_monitor(monitor);
        match self.windows.get(window.0) {
            None => false,
            Some(state) => state.visible_on_all_workspaces || state.workspace == workspace,
        }
    }
}

/// What a filter keeps of ascending handles ascends.
pub proof fn lemma_filter_ascends(windows: Seq<WindowHandle>, keep: spec_fn(WindowHandle) -> bool)
    requires
        ascending_handles(windows),
    ensures
        ascending_handles(windows.filter(keep)),
        forall|w: WindowHandle| #[trigger]
            windows.filter(keep).contains(w) <==> windows.contains(w) && keep(w),
    decreases windows.len(),
{
    reveal(Seq::filter);
    if windows.len() > 0 {
        let rest = windows.drop_last();
        let last = windows.last();
        lemma_filter_ascends(rest, keep);
        assert(windows =~= rest.push(last));
        lemma_contains_push(rest, last);
        lemma_contains_push(rest.filter(keep), last);
        if keep(last) {
            let kept = windows.filter(keep);
            assert forall|i: int, j: int| 0 <= i < j < kept.len() implies (#[trigger] kept[i]).0 < (
            #[trigger] kept[j]).0 by {
                let before = rest.filter(keep);
                assert(kept[i] == before[i]);
                if j < before.len() {
                    assert(kept[j] == before[j]);
                } else {
                    assert(before.contains(before[i]));
                    let k = rest.index_of(before[i]);
                    assert(windows[k] == before[i]);
                    assert(windows[k].0 < windows[windows.len() - 1].0);
                }
            }
        }
    }
}

proof fn lemma_change_plan(
    workspaces: WorkspaceView,
    from: WorkspaceId,
    target: WorkspaceId,
    plan: WorkspaceSwitchPlan,
)
    requires
        from != target,
        workspaces.is_change_plan(from, target, plan),
        ascending_handles(ordered_handles(workspaces.windows)),
        forall|w: WindowHandle| #[trigger]
            ordered_handles(workspaces.windows).contains(w) <==> workspaces.windows.contains_key(w.0),
    ensures
        plan.hide@ == workspaces.hidden_by(from, target),
        plan.show@ == workspaces.shown_by(from, target),
{
    let all = ordered_handles(workspaces.windows);
    lemma_filter_ascends(all, workspaces.is_bound_to(from));
    lemma_filter_ascends(all, workspaces.is_bound_to(target));
    let hidden = all.filter(workspaces.is_bound_to(from));
    let bound = all.filter(workspaces.is_bound_to(target));
    ascending_handles_are_determined(plan.hide@, hidden);
    let changed = changed_windows(plan.show@);
    assert forall|w: WindowHandle|
        #![trigger changed.contains(w)]
        #![trigger bound.contains(w)]
        changed.contains(w) <==> bound.contains(w) by {
        if changed.contains(w) {
            let i = changed.index_of(w);
            assert(plan.show@.contains(plan.show@[i]));
            assert(plan.show@[i].window == w);
        }
        if bound.contains(w) {
            let change = WorkspaceVisibilityChange {
                window: w,
                restore_rect: workspaces.windows[w.0].last_rect,
            };
            assert(plan.show@.contains(change));
            let i = plan.show@.index_of(change);
            assert(changed[i] == w);
        }
    }
    ascending_handles_are_determined(changed, bound);
    assert forall|i: int| 0 <= i < plan.show@.len() implies #[trigger] plan.show@[i]
        == workspaces.restored()(bound[i]) by {
        assert(changed[i] == plan.show@[i].window);
        assert(plan.show@.contains(plan.show@[i]));
    }
    assert(plan.show@ =~= workspaces.shown_by(from, target));
}

/// Ascending handles are determined by which windows are among them.
pub proof fn ascending_handles_are_determined(first: Seq<WindowHandle>, second: Seq<WindowHandle>)
    requires
        ascending_handles(first),
        ascending_handles(second),
        forall|w: WindowHandle|
            #![trigger first.contains(w)]
            #![trigger second.contains(w)]
            first.contains(w) <==> second.contains(w),
    ensures
        first == second,
    decreases first.len(),
{
    if first.len() == 0 {
        if second.len() > 0 {
            assert(second.contains(second[0]));
        }
        assert(first =~= second);
    } else {
        assert(first.contains(first[0]));
        let n = first.len() - 1;
        assert(first.contains(first[n]));
        let m = second.len() - 1;
        assert(second.len() > 0);
        assert(second.contains(second[m]));
        let a = second.index_of(first[n]);
        let b = first.index_of(second[m]);
        assert(first[n] == second[m]);
        let first_rest = first.drop_last();
        let second_rest = second.drop_last();
        assert forall|w: WindowHandle|
            #![trigger first_rest.contains(w)]
            #![trigger second_rest.contains(w)]
            first_rest.contains(w) <==> second_rest.contains(w) by {
            if first_rest.contains(w) {
                let i = first_rest.index_of(w);
                assert(first[i] == w);
                assert(first.contains(w));
                assert(first[i].0 < first[n].0);
                let j = second.index_of(w);
                assert(second[j] == w);
                assert(j != m);
                assert(second_rest[j] == w);
            }
            if second_rest.contains(w) {
                let i = second_rest.index_of(w);
                assert(second[i] == w);
                assert(second.contains(w));
                assert(second[i].0 < second[m].0);
                let j = first.index_of(w);
                assert(first[j] == w);
                assert(first_rest[j] == w);
            }
        }
        ascending_handles_are_determined(first_rest, second_rest);
        assert(first =~= first_rest.push(first[n]));
        assert(second =~= second_rest.push(second[m]));
    }
}

/// A switch hides nothing that it shows, and touches no window that is visible on every workspace.
pub proof fn switch_hides_and_shows_apart(
    workspaces: WorkspaceView,
    target: WorkspaceId,
    plan: WorkspaceSwitchPlan,
)
    requires
        workspaces.is_switch_plan(target, plan),
    ensures
        forall|w: WindowHandle|
            !(#[trigger] plan.hide@.contains(w) && changed_windows(plan.show@).contains(w)),
        forall|w: WindowHandle|
            workspaces.windows.contains_key(w.0)
                && workspaces.windows[w.0].visible_on_all_workspaces
                ==> !#[trigger] plan.hide@.contains(w) && !changed_windows(plan.show@).contains(w),
{
    assert forall|w: WindowHandle| #[trigger]
        changed_windows(plan.show@).contains(w) implies target
        != workspaces.active && workspaces.bound_to(w, target) by {
        let i = changed_windows(plan.show@).index_of(w);
        assert(plan.show@.contains(plan.show@[i]));
        assert(plan.show@[i].window == w);
    }
}

/// Switching to a workspace and back hides what was shown, shows what was hidden, and leaves the
/// windows as they were.
pub proof fn switching_back_undoes_a_switch(
    workspaces: WorkspaceView,
    target: WorkspaceId,
    there: WorkspaceSwitchPlan,
    back: WorkspaceSwitchPlan,
)
    requires
        workspaces.wf(),
        workspaces.is_switch_plan(target, there),
        workspaces.switched(target).is_switch_plan(workspaces.active, back),
    ensures
        changed_windows(back.show@) == there.hide@,
        back.hide@ == changed_windows(there.show@),
        workspaces.switched(target).switched(workspaces.active) == workspaces.with_workspace(target),
{
    let middle = workspaces.switched(target);
    assert forall|w: WindowHandle|
        #![trigger changed_windows(back.show@).contains(w)]
        #![trigger there.hide@.contains(w)]
        changed_windows(back.show@).contains(w) <==> there.hide@.contains(w) by {
        if changed_windows(back.show@).contains(w) {
            let i = changed_windows(back.show@).index_of(w);
            assert(back.show@.contains(back.show@[i]));
            assert(back.show@[i].window == w);
        }
        if there.hide@.contains(w) {
            let change = WorkspaceVisibilityChange {
                window: w,
                restore_rect: middle.windows[w.0].last_rect,
            };
            assert(back.show@.contains(change));
            let i = back.show@.index_of(change);
            assert(changed_windows(back.show@)[i] == w);
        }
    }
    ascending_handles_are_determined(changed_windows(back.show@), there.hide@);
    assert forall|w: WindowHandle|
        #![trigger changed_windows(there.show@).contains(w)]
        #![trigger back.hide@.contains(w)]
        back.hide@.contains(w) <==> changed_windows(there.show@).contains(w) by {
        if changed_windows(there.show@).contains(w) {
            let i = changed_windows(there.show@).index_of(w);
            assert(there.show@.contains(there.show@[i]));
            assert(there.show@[i].window == w);
        }
        if back.hide@.contains(w) {
            let change = WorkspaceVisibilityChange {
                window: w,
                restore_rect: workspaces.windows[w.0].last_rect,
            };
            assert(there.show@.contains(change));
            let i = there.show@.index_of(change);
            assert(changed_windows(there.show@)[i] == w);
        }
    }
    ascending_handles_are_determined(back.hide@, changed_windows(there.show@));
    assert(workspaces.workspaces.insert(target.0).insert(workspaces.active.0)
        =~= workspaces.workspaces.insert(target.0));
    assert(workspaces.switched(target).switched(workspaces.active).monitors =~= workspaces.monitors);
}

} // verus!
