//! What workspaces do with windows and monitors.

use vstd::prelude::*;

use crate::commands::CycleDirection;
use crate::daemon_focus::beside_workspace;
use crate::daemon_focus_laws::{lemma_next, lemma_previous};
use crate::geometry::{MonitorId, Rect, WindowHandle};
use crate::workspace::{
    WorkspaceId, WorkspaceSwitchPlan, WorkspaceView, WorkspaceVisibilityChange, WorkspaceWindowState,
};

verus! {

/// Workspaces begin numbered from one, one of them at least, with the first one active and no window.
pub proof fn workspaces_begin_at_one(count: u16, number: u16)
    ensures
        WorkspaceView::fresh(count).active.0 == 1,
        WorkspaceView::fresh(count).workspaces.contains(1),
        number > 1 ==> (WorkspaceView::fresh(count).workspaces.contains(number) <==> number <= count),
        !WorkspaceView::fresh(count).workspaces.contains(0),
        forall|key: u64| !#[trigger] WorkspaceView::fresh(count).windows.contains_key(key),
        WorkspaceView::fresh(count).focused is None,
{
}

/// More workspaces are added up to a number; those that there are stay, and so do the windows on them.
pub proof fn counting_adds_workspaces(workspaces: WorkspaceView, count: u16, number: u16)
    ensures
        workspaces.with_count(count).workspaces.contains(number) <==> workspaces.workspaces.contains(
            number,
        ) || (number >= 1 && number <= count),
        workspaces.with_count(count).windows == workspaces.windows,
        workspaces.with_count(count).active == workspaces.active,
        workspaces.with_count(count).monitors == workspaces.monitors,
{
}

/// A window that is new is put on the workspace and is seen there only; one that is known stays where it
/// was. Its rectangle is taken note of either way, and nothing becomes of the other windows, of what
/// the monitors show or of the active workspace.
pub proof fn tracked_window_is_on_its_workspace(
    workspaces: WorkspaceView,
    window: WindowHandle,
    workspace: WorkspaceId,
    rect: Rect,
    other: WindowHandle,
)
    requires
        other != window,
    ensures
        ({
            let after = workspaces.tracking(window, workspace, rect);
            let known = workspaces.windows.contains_key(window.0);
            &&& after.windows.contains_key(window.0)
            &&& after.windows[window.0].last_rect == Some(rect)
            &&& !known ==> after.windows[window.0].workspace == workspace
                && !after.windows[window.0].visible_on_all_workspaces
            &&& known ==> after.windows[window.0].workspace == workspaces.windows[window.0].workspace
                && after.windows[window.0].visible_on_all_workspaces
                == workspaces.windows[window.0].visible_on_all_workspaces
            &&& after.windows.contains_key(other.0) == workspaces.windows.contains_key(other.0)
            &&& after.windows[other.0] == workspaces.windows[other.0]
            &&& after.active == workspaces.active
            &&& after.monitors == workspaces.monitors
            &&& after.focused == workspaces.focused
            &&& after.workspaces.contains(workspace.0)
        }),
{
}

/// A window that is moved is on the workspace, keeps its rectangle and whether it is seen everywhere; one
/// that is not known stays so. Nothing becomes of the other windows or of what is shown.
pub proof fn moved_window_changes_its_workspace_only(
    workspaces: WorkspaceView,
    window: WindowHandle,
    workspace: WorkspaceId,
    other: WindowHandle,
)
    requires
        other != window,
    ensures
        ({
            let after = workspaces.moving(window, workspace);
            &&& after.windows.contains_key(window.0) == workspaces.windows.contains_key(window.0)
            &&& workspaces.windows.contains_key(window.0) ==> after.windows[window.0]
                == WorkspaceWindowState {
                workspace,
                last_rect: workspaces.windows[window.0].last_rect,
                visible_on_all_workspaces: workspaces.windows[window.0].visible_on_all_workspaces,
            }
            &&& after.windows.contains_key(other.0) == workspaces.windows.contains_key(other.0)
            &&& after.windows[other.0] == workspaces.windows[other.0]
            &&& after.active == workspaces.active
            &&& after.monitors == workspaces.monitors
            &&& after.workspaces.contains(workspace.0)
        }),
{
}

/// A window is seen on the workspace that it is on, and on every one if it is to be seen everywhere; a
/// window that is not known is seen on none.
pub proof fn window_is_seen_on_its_workspace(
    workspaces: WorkspaceView,
    window: WindowHandle,
    workspace: WorkspaceId,
)
    ensures
        !workspaces.windows.contains_key(window.0) ==> !workspaces.shows_on(window, workspace),
        workspaces.windows.contains_key(window.0)
            && workspaces.windows[window.0].visible_on_all_workspaces ==> workspaces.shows_on(
            window,
            workspace,
        ),
        workspaces.windows.contains_key(window.0)
            && !workspaces.windows[window.0].visible_on_all_workspaces ==> (workspaces.shows_on(
            window,
            workspace,
        ) <==> workspaces.windows[window.0].workspace.0 == workspace.0),
{
}

/// A switch makes the workspace the active one, shows it on the monitor that has the focus, and changes
/// what no other monitor shows. One on a monitor shows it there and brings the focus there.
pub proof fn switch_changes_one_monitor(
    workspaces: WorkspaceView,
    target: WorkspaceId,
    monitor: MonitorId,
    other: MonitorId,
)
    requires
        other != monitor,
    ensures
        workspaces.switched(target).active == target,
        workspaces.switched(target).focused == workspaces.focused,
        workspaces.switched(target).windows == workspaces.windows,
        workspaces.switched(target).workspaces.contains(target.0),
        workspaces.focused == Some(monitor) ==> workspaces.switched(target).active_on(monitor)
            == target,
        workspaces.focused == Some(monitor) && workspaces.monitors.contains_key(other.0)
            ==> workspaces.switched(target).active_on(other) == workspaces.active_on(other),
        workspaces.switched_on(monitor, target).active == target,
        workspaces.switched_on(monitor, target).focused == Some(monitor),
        workspaces.switched_on(monitor, target).windows == workspaces.windows,
        workspaces.switched_on(monitor, target).workspaces.contains(target.0),
        workspaces.switched_on(monitor, target).active_on(monitor) == target,
        workspaces.monitors.contains_key(other.0) ==> workspaces.switched_on(
            monitor,
            target,
        ).active_on(other) == workspaces.active_on(other),
{
}

/// A monitor shows the workspace that is noted for it, or the active one. Bringing the focus to a monitor
/// makes what it shows the active workspace and changes what no known monitor shows.
pub proof fn focused_monitor_has_the_active_workspace(
    workspaces: WorkspaceView,
    monitor: MonitorId,
    other: MonitorId,
)
    ensures
        workspaces.monitors.contains_key(monitor.0) ==> workspaces.active_on(monitor)
            == workspaces.monitors[monitor.0],
        !workspaces.monitors.contains_key(monitor.0) ==> workspaces.active_on(monitor)
            == workspaces.active,
        workspaces.focused_on(monitor).focused == Some(monitor),
        workspaces.focused_on(monitor).active == workspaces.active_on(monitor),
        workspaces.focused_on(monitor).active_on(monitor) == workspaces.active_on(monitor),
        workspaces.monitors.contains_key(other.0) ==> workspaces.focused_on(monitor).active_on(other)
            == workspaces.active_on(other),
        workspaces.focused_on(monitor).windows == workspaces.windows,
        workspaces.focused_on(monitor).workspaces == workspaces.workspaces,
{
}

/// A switch to another workspace hides exactly the windows that are on the one that was shown and are not
/// seen everywhere, and shows those of the other one, each where it was last seen. A switch to the
/// same workspace hides and shows nothing.
pub proof fn switch_hides_the_old_and_shows_the_new(
    workspaces: WorkspaceView,
    target: WorkspaceId,
    plan: WorkspaceSwitchPlan,
    window: WindowHandle,
    change: WorkspaceVisibilityChange,
)
    requires
        workspaces.is_switch_plan(target, plan),
    ensures
        plan.from == workspaces.active,
        plan.to == target,
        plan.hide@.contains(window) <==> target != workspaces.active && workspaces.windows.contains_key(
            window.0,
        ) && !workspaces.windows[window.0].visible_on_all_workspaces
            && workspaces.windows[window.0].workspace == workspaces.active,
        plan.show@.contains(change) <==> target != workspaces.active && workspaces.windows.contains_key(
            change.window.0,
        ) && !workspaces.windows[change.window.0].visible_on_all_workspaces
            && workspaces.windows[change.window.0].workspace == target && change.restore_rect
            == workspaces.windows[change.window.0].last_rect,
{
}

/// The next workspace is the one with the least greater number, or the least of all after the last; the
/// previous one has the greatest smaller number, or the greatest of all before the first.
pub proof fn next_workspace_has_the_next_number(numbers: Set<u16>, active: u16, number: u16)
    requires
        numbers.contains(active),
        numbers.contains(number),
    ensures
        ({
            let next = beside_workspace(numbers, WorkspaceId(active), CycleDirection::Next).0;
            let previous = beside_workspace(numbers, WorkspaceId(active), CycleDirection::Prev).0;
            &&& numbers.contains(next) && numbers.contains(previous)
            &&& number > active ==> active < next <= number
            &&& number < active ==> number <= previous < active
            &&& next <= active ==> next <= number <= active
            &&& previous >= active ==> active <= number <= previous
        }),
{
    let next = lemma_next(numbers, active);
    let previous = lemma_previous(numbers, active);
    assert(numbers.contains(number));
}

proof fn lemma_monitors_synced(workspaces: WorkspaceView, ids: Seq<MonitorId>, all: Seq<MonitorId>)
    requires
        forall|i: int| 0 <= i < ids.len() ==> all.contains(#[trigger] ids[i]),
    ensures
        forall|key: u64| #[trigger]
            workspaces.monitors_synced(ids, all).contains_key(key) <==> (workspaces.monitors.contains_key(
                key,
            ) && all.contains(MonitorId(key))) || ids.contains(MonitorId(key)),
        forall|key: u64|
            workspaces.monitors.contains_key(key) && #[trigger] all.contains(MonitorId(key))
                ==> workspaces.monitors_synced(ids, all)[key] == workspaces.monitors[key],
    decreases ids.len(),
{
    if ids.len() > 0 {
        let rest = ids.drop_last();
        assert forall|i: int| 0 <= i < rest.len() implies all.contains(#[trigger] rest[i]) by {
            assert(rest[i] == ids[i]);
        }
        lemma_monitors_synced(workspaces, rest, all);
        assert(ids =~= rest.push(ids.last()));
        assert(ids[ids.len() - 1] == ids.last());
        assert forall|id: MonitorId| ids.contains(id) <==> rest.contains(id) || id == ids.last() by {
            if rest.contains(id) {
                let at = rest.index_of(id);
                assert(ids[at] == id);
            }
            if ids.contains(id) && id != ids.last() {
                let at = ids.index_of(id);
                assert(rest[at] == id);
            }
        }
        assert(all.contains(ids[ids.len() - 1]));
        let before = workspaces.monitors_synced(rest, all);
        assert forall|key: u64| #[trigger]
            workspaces.monitors_synced(ids, all).contains_key(key) <==> (workspaces.monitors.contains_key(
                key,
            ) && all.contains(MonitorId(key))) || ids.contains(MonitorId(key)) by {
            assert(before.contains_key(key) <==> (workspaces.monitors.contains_key(key) && all.contains(
                MonitorId(key),
            )) || rest.contains(MonitorId(key)));
            assert(ids.contains(MonitorId(key)) <==> rest.contains(MonitorId(key)) || MonitorId(key)
                == ids.last());
            assert(MonitorId(key) == ids.last() <==> key == ids.last().0);
        }
    } else {
        assert forall|key: u64| !ids.contains(MonitorId(key)) by {}
    }
}

/// After the monitors were looked through, those that are there show a workspace and no others do. One
/// that showed a workspace before still shows it. The focus stays on its monitor while that is there
/// and goes to the first one otherwise, and the active workspace is the one shown where the focus is.
pub proof fn monitors_that_stay_keep_their_workspace(
    workspaces: WorkspaceView,
    ids: Seq<MonitorId>,
    monitor: MonitorId,
)
    ensures
        ({
            let after = workspaces.synced(ids);
            &&& after.monitors.contains_key(monitor.0) <==> ids.contains(monitor)
            &&& ids.contains(monitor) && workspaces.monitors.contains_key(monitor.0)
                ==> after.monitors[monitor.0] == workspaces.monitors[monitor.0]
            &&& workspaces.focused == Some(monitor) && ids.contains(monitor) ==> after.focused == Some(
                monitor,
            )
            &&& workspaces.focused == Some(monitor) && !ids.contains(monitor) && ids.len() > 0
                ==> after.focused == Some(ids[0])
            &&& workspaces.focused is None && ids.len() > 0 ==> after.focused == Some(ids[0])
            &&& ids.len() == 0 ==> after.focused is None && after.active == workspaces.active
            &&& after.focused matches Some(focused) ==> after.active == after.monitors[focused.0]
            &&& after.windows == workspaces.windows
            &&& after.workspaces == workspaces.workspaces
        }),
{
    lemma_monitors_synced(workspaces, ids, ids);
    assert(MonitorId(monitor.0) == monitor);
    if ids.len() > 0 {
        assert(ids.contains(ids[0]));
    }
}

/// A monitor that is new shows the active workspace if no other monitor shows anything, and otherwise the
/// workspace with the least number that no monitor shows; where each of them is shown, the active one.
#[verifier::rlimit(50)]
pub proof fn new_monitor_shows_a_free_workspace(
    workspaces: WorkspaceView,
    shown: Map<u64, WorkspaceId>,
    monitor: u64,
    free: u16,
)
    requires
        shown.contains_key(monitor),
        workspaces.workspaces.contains(free),
        forall|key: u64| #[trigger] shown.contains_key(key) ==> shown[key].0 != free,
    ensures
        ({
            let chosen = workspaces.workspace_for_new_monitor(shown).0;
            &&& chosen <= free
            &&& workspaces.workspaces.contains(chosen)
            &&& forall|key: u64| #[trigger] shown.contains_key(key) ==> shown[key].0 != chosen
        }),
{
    lemma_first_free(workspaces, shown, free);
    let first = choose|number: u16| #[trigger] workspaces.is_first_free(shown, number);
    assert(workspaces.is_first_free(shown, first));
    if free < first {
        assert(WorkspaceView::shown_somewhere(shown, WorkspaceId(free)));
    }
    assert forall|key: u64| #[trigger] shown.contains_key(key) implies shown[key].0 != first by {
        if shown[key].0 == first {
            assert(shown[key] == WorkspaceId(first));
        }
    }
}

proof fn lemma_first_free(workspaces: WorkspaceView, shown: Map<u64, WorkspaceId>, free: u16)
    requires
        workspaces.workspaces.contains(free),
        !WorkspaceView::shown_somewhere(shown, WorkspaceId(free)),
    ensures
        exists|number: u16| #[trigger] workspaces.is_first_free(shown, number),
    decreases free,
{
    if !workspaces.is_first_free(shown, free) {
        let lower = choose|other: u16| #[trigger]
            workspaces.workspaces.contains(other) && other < free && !WorkspaceView::shown_somewhere(
                shown,
                WorkspaceId(other),
            );
        lemma_first_free(workspaces, shown, lower);
    }
}

/// Where no monitor shows anything yet, or every workspace is shown already, a new monitor shows the
/// active workspace.
pub proof fn first_monitor_shows_the_active_workspace(
    workspaces: WorkspaceView,
    shown: Map<u64, WorkspaceId>,
)
    requires
        (forall|key: u64| !#[trigger] shown.contains_key(key)) || (forall|number: u16| #[trigger]
            workspaces.workspaces.contains(number) ==> exists|key: u64| #[trigger]
                shown.contains_key(key) && shown[key].0 == number),
    ensures
        workspaces.workspace_for_new_monitor(shown) == workspaces.active,
{
    if exists|number: u16| #[trigger] workspaces.is_first_free(shown, number) {
        let number = choose|number: u16| #[trigger] workspaces.is_first_free(shown, number);
        if exists|key: u64| #[trigger] shown.contains_key(key) {
            assert(workspaces.workspaces.contains(number));
            let key = choose|key: u64| #[trigger] shown.contains_key(key) && shown[key].0 == number;
            assert(shown[key] == WorkspaceId(number));
        }
    }
}

} // verus!
