//! What a monitor's layout does with the windows that come and go.

use vstd::prelude::*;

use crate::engine::EngineView;
use crate::geometry::{MonitorId, MonitorInfo, WindowHandle};
use crate::handles::{lemma_position, lemma_position_is};
use crate::layout::{LayoutDirection, LayoutKind};
use crate::monitor_layout::LayoutView;

verus! {

/// The neighbour to the right of a window, or below it, is the next one in the order; the one to the left,
/// or above, is the one before; and from one end it is the other end.
pub proof fn neighbours_stand_in_order(
    layout: LayoutView,
    at: int,
    direction: LayoutDirection,
)
    requires
        layout.windows.no_duplicates(),
        0 <= at < layout.windows.len(),
    ensures
        ({
            let found = layout.neighbor(Some(layout.windows[at]), direction);
            let last = layout.windows.len() - 1;
            match direction {
                LayoutDirection::Right | LayoutDirection::Down => found == Some(
                    layout.windows[if at < last {
                        at + 1
                    } else {
                        0
                    }],
                ),
                LayoutDirection::Left | LayoutDirection::Up => found == Some(
                    layout.windows[if at > 0 {
                        at - 1
                    } else {
                        last
                    }],
                ),
            }
        }),
{
    lemma_position_is(layout.windows, layout.windows[at], at);
}

/// A window that joins comes last in the order and gets the focus only if no window had it; nothing else
/// changes.
pub proof fn joining_window_comes_last(layout: LayoutView, window: WindowHandle, at: int)
    requires
        0 <= at < layout.windows.len(),
    ensures
        ({
            let after = layout.with_window(window);
            &&& after.windows.len() == layout.windows.len() + 1
            &&& after.windows[at] == layout.windows[at]
            &&& after.windows[layout.windows.len() as int] == window
            &&& layout.focused is Some ==> after.focused == layout.focused
            &&& layout.focused is None ==> after.focused == Some(window)
            &&& after.floating == layout.floating && after.config == layout.config && after.splits
                == layout.splits && after.monitor == layout.monitor
        }),
{
}

/// A window that leaves leaves the others in their order. If it had the focus, the window that takes its
/// place gets it, or the last one if it was the last; otherwise the focus stays.
pub proof fn leaving_window_hands_on_the_focus(layout: LayoutView, at: int, other: int)
    requires
        layout.windows.no_duplicates(),
        0 <= at < layout.windows.len(),
        0 <= other < layout.windows.len() - 1,
    ensures
        ({
            let window = layout.windows[at];
            let after = layout.without_window(window);
            let last = layout.windows.len() - 1;
            &&& after.windows.len() == last
            &&& after.windows[other] == layout.windows[if other < at {
                other
            } else {
                other + 1
            }]
            &&& !after.floating.contains_key(window.0)
            &&& layout.focused != Some(window) ==> after.focused == layout.focused
            &&& layout.focused == Some(window) && at < last ==> after.focused == Some(
                layout.windows[at + 1],
            )
            &&& layout.focused == Some(window) && at == last && at > 0 ==> after.focused == Some(
                layout.windows[at - 1],
            )
            &&& after.config == layout.config && after.monitor == layout.monitor
        }),
{
    lemma_position_is(layout.windows, layout.windows[at], at);
}

/// A window that is not there does not leave.
pub proof fn strange_window_does_not_leave(layout: LayoutView, window: WindowHandle)
    requires
        !layout.windows.contains(window),
    ensures
        layout.without_window(window) == layout,
{
    lemma_position(layout.windows, window, 0);
    if let Some(at) = crate::handles::first_position(layout.windows, window) {
        assert(layout.windows[at] == window);
    }
}

/// A layout that is set back tiles all of its windows again, in their order, with the settings that apply
/// when nothing is set, and has the focus on the first.
pub proof fn layout_that_is_set_back_begins_anew(layout: LayoutView, window: WindowHandle)
    ensures
        ({
            let after = layout.after_reset();
            &&& after.windows == layout.windows && after.monitor == layout.monitor
            &&& after.participation(window) is Tiled
            &&& after.config.kind == LayoutKind::MasterStack && after.config.gap == 0
                && after.config.border == 0 && after.config.master_ratio_percent == 50
                && !after.config.smart_split && !after.config.preserve_split
            &&& after.splits.len() == 0
            &&& layout.windows.len() > 0 ==> after.focused == Some(layout.windows[0])
            &&& layout.windows.len() == 0 ==> after.focused is None
        }),
{
}

proof fn lemma_other_layouts_stay(engine: EngineView, monitors: Seq<MonitorInfo>, key: u64)
    requires
        forall|i: int| 0 <= i < monitors.len() ==> (#[trigger] monitors[i]).id.0 != key,
    ensures
        engine.after_layout(monitors).monitors.contains_key(key) == engine.monitors.contains_key(key),
        engine.monitors.contains_key(key) ==> engine.after_layout(monitors).monitors[key]
            == engine.monitors[key],
    decreases monitors.len(),
{
    if monitors.len() > 0 {
        let rest = monitors.drop_last();
        assert(forall|i: int| 0 <= i < rest.len() ==> #[trigger] rest[i] == monitors[i]);
        assert(monitors[monitors.len() - 1] == monitors.last());
        lemma_other_layouts_stay(engine, rest, key);
    }
}

/// Each monitor is tiled by itself: it adds the tiles of its own layout in its own work area, without a
/// cursor, to those of the others, and changes the layout of none of them. A monitor without a layout adds
/// none.
pub proof fn monitors_are_tiled_by_themselves(
    engine: EngineView,
    monitors: Seq<MonitorInfo>,
    monitor: MonitorInfo,
)
    requires
        forall|i: int| 0 <= i < monitors.len() ==> (#[trigger] monitors[i]).id.0 != monitor.id.0,
    ensures
        engine.tiles(monitors.push(monitor)) == engine.tiles(monitors) + engine.tiles(seq![monitor]),
        engine.monitors.contains_key(monitor.id.0) ==> engine.tiles(seq![monitor])
            == engine.monitors[monitor.id.0].tiles(monitor.work_area, None),
        !engine.monitors.contains_key(monitor.id.0) ==> engine.tiles(seq![monitor]).len() == 0,
        engine.monitors.contains_key(monitor.id.0) ==> engine.after_layout(monitors).monitors[monitor.id.0]
            == engine.monitors[monitor.id.0],
{
    let all = monitors.push(monitor);
    assert(all.drop_last() =~= monitors);
    assert(all.last() == monitor);
    lemma_other_layouts_stay(engine, monitors, monitor.id.0);
    let one = seq![monitor];
    assert(one.drop_last() =~= Seq::empty());
    assert(one.last() == monitor);
    assert(engine.after_layout(one.drop_last()) == engine);
    assert(engine.tiles(one.drop_last()) =~= Seq::empty());
    if engine.monitors.contains_key(monitor.id.0) {
        assert(engine.tiles(one) =~= engine.monitors[monitor.id.0].tiles(monitor.work_area, None));
    } else {
        assert(engine.tiles(one) =~= Seq::empty());
        assert(engine.tiles(monitors) + engine.tiles(one) =~= engine.tiles(monitors));
    }
}

/// A monitor that is new has no window and no focus, and the general settings put in order.
pub proof fn new_monitor_begins_empty(engine: EngineView, monitor: MonitorId, window: WindowHandle)
    requires
        !engine.monitors.contains_key(monitor.0),
    ensures
        engine.layout(monitor).windows.len() == 0,
        engine.layout(monitor).focused is None,
        engine.layout(monitor).monitor == monitor,
        engine.layout(monitor).splits.len() == 0,
        !engine.layout(monitor).floating.contains_key(window.0),
        engine.layout(monitor).config.kind == engine.default_config.kind,
        engine.default_config.is_normal() ==> engine.layout(monitor).config == engine.default_config,
{
}

} // verus!
