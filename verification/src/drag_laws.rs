//! What becomes of windows that are dragged and dropped.

use vstd::prelude::*;

use crate::daemon_drag::DragReading;
use crate::daemon_drop::{drop_point, tile_at};
use crate::daemon_state::{ActiveModifierDrag, DaemonView};
use crate::geometry::{MonitorId, MonitorInfo, Point, Rect, TileAssignment, WindowHandle};
use crate::handles::{lemma_first_kept, lemma_position_is, without};
use crate::layout::WindowParticipation;
use crate::monitor_laws::dragged_rect_moves_as_the_cursor_does;
use crate::monitors::{closest, every_point_has_a_monitor, monitor_of_point, monitor_of_rect};
use crate::placement::far_from_the_ends;
use crate::runtime_config::OverflowFloatPersistence;

verus! {

/// A window that is picked up and follows the cursor stands as far from where it was picked up as the
/// cursor does, and belongs to the monitor it is over.
pub proof fn picked_up_window_follows_the_cursor(
    state: DaemonView,
    window: WindowHandle,
    cursor: Point,
    monitors: Seq<MonitorInfo>,
)
    requires
        state.interactive_drag is Some,
        state.interactive_drag.unwrap().window == window,
        state.windows.contains_key(window.0),
        far_from_the_ends(state.interactive_drag.unwrap().start_rect),
        -0x1000_0000 <= cursor.x <= 0x1000_0000,
        -0x1000_0000 <= cursor.y <= 0x1000_0000,
        -0x1000_0000 <= state.interactive_drag.unwrap().start_cursor.x <= 0x1000_0000,
        -0x1000_0000 <= state.interactive_drag.unwrap().start_cursor.y <= 0x1000_0000,
    ensures
        ({
            let drag = state.interactive_drag.unwrap();
            let after = state.with_drag_followed(Some(cursor), monitors);
            let rect = after.windows[window.0].rect;
            &&& rect.left - drag.start_rect.left == cursor.x - drag.start_cursor.x
            &&& rect.right - drag.start_rect.right == cursor.x - drag.start_cursor.x
            &&& rect.top - drag.start_rect.top == cursor.y - drag.start_cursor.y
            &&& rect.bottom - drag.start_rect.bottom == cursor.y - drag.start_cursor.y
            &&& state.drag_follows(Some(cursor)) <==> state.windows[window.0].rect != rect
            &&& state.windows[window.0].rect != rect && monitor_of_rect(rect, monitors) is Some
                ==> after.overrides.contains_key(window.0) && Some(after.overrides[window.0])
                == monitor_of_rect(rect, monitors)
            &&& state.with_drag_followed(None, monitors) == state
        }),
{
    let drag = state.interactive_drag.unwrap();
    dragged_rect_moves_as_the_cursor_does(drag.start_rect, drag.start_cursor, cursor);
}

/// A window that can be moved by commands is picked up, once, where it really is and where the cursor is,
/// or at its middle where the cursor is not known. No other window is.
pub proof fn movable_window_is_picked_up(
    state: DaemonView,
    window: WindowHandle,
    reading: DragReading,
    monitors: Seq<MonitorInfo>,
)
    ensures
        ({
            let after = state.with_drag_started(window, reading, monitors);
            let dragged = state.interactive_drag is Some && state.interactive_drag.unwrap().window
                == window;
            &&& dragged || !state.movable(window, monitors) ==> after == state
            &&& !dragged && state.movable(window, monitors) ==> {
                let drag = after.interactive_drag.unwrap();
                &&& after.interactive_drag is Some
                &&& drag.window == window && drag.monitors == monitors
                &&& reading.rect matches Some(rect) ==> drag.start_rect == rect
                &&& reading.rect is None ==> drag.start_rect == state.windows[window.0].rect
                &&& reading.cursor matches Some(cursor) ==> drag.start_cursor == cursor
                &&& reading.cursor is None ==> drag.start_cursor == drag.start_rect.middle()
                &&& after.windows[window.0].rect == drag.start_rect
            }
        }),
{
}

/// A window that is picked up floats until it is let go exactly if the settings say so, it does not float
/// for good, and it may be tiled on its monitor. The sizes learned of it are forgotten.
pub proof fn picked_up_window_floats_for_a_while(
    state: DaemonView,
    window: WindowHandle,
    reading: DragReading,
    monitors: Seq<MonitorInfo>,
    monitor: MonitorId,
)
    requires
        state.picked_up(window, reading, monitors).owner(window, monitors) == Some(monitor),
    ensures
        ({
            let picked = state.picked_up(window, reading, monitors);
            let (after, floats) = state.movesize_started(window, reading, monitors);
            let tiled = !picked.participation.contains_key(window.0)
                || picked.participation[window.0] != WindowParticipation::Floating;
            &&& floats <==> state.config.drag_to_float && tiled && picked.tilable(window, monitor)
            &&& floats ==> after.participation.contains_key(window.0) && after.participation[window.0]
                == WindowParticipation::TemporarilyFloating
            &&& !floats ==> after.participation == picked.participation
            &&& !after.learned.contains_key(window.0)
        }),
{
}

/// A window is dropped on the monitor under the cursor, or on that of its rectangle where the cursor is not
/// known, and belongs to it from then on.
pub proof fn window_is_dropped_where_the_cursor_is(
    state: DaemonView,
    window: WindowHandle,
    rect: Rect,
    cursor: Option<Point>,
    monitors: Seq<MonitorInfo>,
)
    requires
        monitors.len() > 0,
    ensures
        ({
            let target = match cursor {
                Some(point) => monitor_of_point(point, monitors),
                None => monitor_of_rect(rect, monitors),
            };
            let after = state.dropped(window, monitors, rect, cursor).0;
            &&& state.drop_monitor(rect, cursor, monitors) matches Some(monitor)
            &&& Some(monitor.id) == target
            &&& after.overrides.contains_key(window.0)
            &&& Some(after.overrides[window.0]) == target
            &&& drop_point(rect, cursor) == match cursor {
                Some(point) => point,
                None => rect.middle(),
            }
        }),
{
    crate::monitors::every_rect_has_a_monitor(rect, monitors);
    if let Some(point) = cursor {
        every_point_has_a_monitor(point, monitors);
        crate::monitors::lemma_monitor_named(monitors, monitor_of_point(point, monitors).unwrap());
    }
    crate::monitors::lemma_monitor_named(monitors, monitor_of_rect(rect, monitors).unwrap());
}

/// The tile that a window is dropped on is the first one under the point, and the closest one where none
/// is.
pub proof fn tile_under_the_point_is_meant(point: Point, tiles: Seq<TileAssignment>, at: int)
    requires
        0 <= at < tiles.len(),
    ensures
        ({
            let under = |tile: TileAssignment|
                tile.rect.left <= point.x < tile.rect.right && tile.rect.top <= point.y
                    < tile.rect.bottom;
            &&& under(tiles[at]) && (forall|i: int| 0 <= i < at ==> !under(#[trigger] tiles[i]))
                ==> tile_at(point, tiles) == Some(tiles[at])
            &&& (forall|i: int| 0 <= i < tiles.len() ==> !under(#[trigger] tiles[i])) ==> tile_at(
                point,
                tiles,
            ) == closest(point, tiles)
        }),
{
    lemma_first_kept(tiles, crate::daemon_drop::covers_point(point));
}

/// A window that is put behind another one comes right after it in the order, and the others keep theirs.
pub proof fn window_comes_right_behind(
    state: DaemonView,
    window: WindowHandle,
    at: int,
    i: int,
)
    requires
        ({
            let rest = without(state.tile_order, window);
            &&& 0 <= at < rest.len()
            &&& 0 <= i < rest.len()
            &&& forall|j: int| 0 <= j < at ==> #[trigger] rest[j] != rest[at]
        }),
    ensures
        ({
            let rest = without(state.tile_order, window);
            let after = state.order_behind(window, rest[at]);
            &&& after.len() == rest.len() + 1
            &&& after[at] == rest[at] && after[at + 1] == window
            &&& i <= at ==> after[i] == rest[i]
            &&& i > at ==> after[i + 1] == rest[i]
        }),
{
    let rest = without(state.tile_order, window);
    lemma_position_is(rest, rest[at], at);
}

/// A window that is put at a place among others comes right before the one that stood there, or right
/// after the last of them where the place is behind them all.
pub proof fn window_comes_to_its_place(
    state: DaemonView,
    window: WindowHandle,
    among: Seq<WindowHandle>,
    place: int,
    at: int,
)
    requires
        0 <= place <= among.len(),
        among.len() > 0,
        ({
            let rest = without(state.tile_order, window);
            let beside = if place < among.len() {
                among[place]
            } else {
                among[among.len() - 1]
            };
            &&& 0 <= at < rest.len()
            &&& rest[at] == beside
            &&& forall|j: int| 0 <= j < at ==> #[trigger] rest[j] != rest[at]
        }),
    ensures
        ({
            let rest = without(state.tile_order, window);
            let after = state.order_among(window, among, place);
            &&& after.len() == rest.len() + 1
            &&& place < among.len() ==> after[at] == window && after[at + 1] == among[place]
            &&& place == among.len() ==> after[at] == among[among.len() - 1] && after[at + 1] == window
        }),
{
    let rest = without(state.tile_order, window);
    lemma_position_is(rest, rest[at], at);
    assert(among.last() == among[among.len() - 1]);
}

/// The place that a dropped window goes to is one at which its tile would be nearest to the point, and the
/// first of these.
pub proof fn dropped_window_goes_to_the_nearest_place(
    state: DaemonView,
    window: WindowHandle,
    point: Point,
    targets: Seq<WindowHandle>,
    monitor: MonitorInfo,
    places: int,
    other: int,
)
    requires
        0 <= other < places,
        state.distance_at(window, point, targets, monitor, other) is Some,
    ensures
        ({
            let chosen = state.best_place(window, point, targets, monitor, places);
            let far = state.distance_at(window, point, targets, monitor, other).unwrap();
            &&& chosen matches Some(place)
            &&& 0 <= place < places
            &&& state.distance_at(window, point, targets, monitor, place) matches Some(near)
            &&& near <= far
            &&& other < place ==> near < far
        }),
    decreases places,
{
    if other < places - 1 {
        dropped_window_goes_to_the_nearest_place(
            state,
            window,
            point,
            targets,
            monitor,
            places - 1,
            other,
        );
    } else if let Some(best) = state.best_place(window, point, targets, monitor, places - 1) {
        lemma_best_place(state, window, point, targets, monitor, places - 1);
    }
}

proof fn lemma_best_place(
    state: DaemonView,
    window: WindowHandle,
    point: Point,
    targets: Seq<WindowHandle>,
    monitor: MonitorInfo,
    places: int,
)
    ensures
        state.best_place(window, point, targets, monitor, places) matches Some(place) ==> 0 <= place
            < places && state.distance_at(window, point, targets, monitor, place) is Some,
    decreases places,
{
    if places > 0 {
        lemma_best_place(state, window, point, targets, monitor, places - 1);
    }
}

/// A window that gave way comes back when it is dropped exactly if the settings say so, it gave way and
/// still floats, and the tiles would fit with it; it is tiled then. Other floating windows stay as they
/// are.
pub proof fn window_that_gave_way_comes_back_if_it_fits(
    state: DaemonView,
    window: WindowHandle,
    monitors: Seq<MonitorInfo>,
    rect: Rect,
    cursor: Option<Point>,
)
    ensures
        ({
            let context = crate::daemon_state::DropContext { rect, cursor };
            let (after, back) = state.reabsorbed(window, monitors, Some(context));
            let floats = state.participation.contains_key(window.0)
                && state.participation[window.0] == WindowParticipation::Floating;
            &&& state.may_come_back(window) <==> state.config.overflow_float_persistence
                == OverflowFloatPersistence::RetileOnDragEnd && state.promoted.contains_key(window.0)
                && floats
            &&& back <==> state.may_come_back(window) && state.drop_fits(window, monitors, rect, cursor)
            &&& !back ==> after == state
            &&& back ==> !after.participation.contains_key(window.0) && !after.promoted.contains_key(
                window.0,
            )
        }),
{
}

/// A window that is dragged with the modifiers held stands as far from where it was as the cursor does, and
/// each move of it is counted; one that is not dragged stays.
pub proof fn window_dragged_with_modifiers_follows_the_cursor(
    state: DaemonView,
    drag: ActiveModifierDrag,
    window: WindowHandle,
    cursor: Point,
)
    requires
        state.modifier_drag == Some(drag),
        state.windows.contains_key(drag.window.0),
        far_from_the_ends(drag.start_rect),
        -0x1000_0000 <= cursor.x <= 0x1000_0000,
        -0x1000_0000 <= cursor.y <= 0x1000_0000,
        -0x1000_0000 <= drag.start_cursor.x <= 0x1000_0000,
        -0x1000_0000 <= drag.start_cursor.y <= 0x1000_0000,
    ensures
        ({
            let after = state.modifier_drag_moved(window, cursor);
            let rect = after.windows[window.0].rect;
            &&& window != drag.window ==> after == state
            &&& window == drag.window ==> {
                &&& rect.left - drag.start_rect.left == cursor.x - drag.start_cursor.x
                &&& rect.right - drag.start_rect.right == cursor.x - drag.start_cursor.x
                &&& rect.top - drag.start_rect.top == cursor.y - drag.start_cursor.y
                &&& rect.bottom - drag.start_rect.bottom == cursor.y - drag.start_cursor.y
                &&& after.modifier_drag matches Some(going)
                &&& going.last_cursor == cursor && going.start_cursor == drag.start_cursor
                    && going.start_rect == drag.start_rect && going.window == drag.window
                &&& drag.move_count < u32::MAX ==> going.move_count == drag.move_count + 1
            }
        }),
{
    dragged_rect_moves_as_the_cursor_does(drag.start_rect, drag.start_cursor, cursor);
}

/// A drag with the modifiers held begins with the window in the foreground, where it is, and no move made.
pub proof fn drag_with_modifiers_begins_in_the_foreground(
    state: DaemonView,
    window: WindowHandle,
    cursor: Point,
    start_rect: Rect,
    reading: DragReading,
    monitors: Seq<MonitorInfo>,
)
    ensures
        ({
            let after = state.modifier_drag_started(window, cursor, start_rect, reading, monitors);
            &&& after.foreground == Some(window)
            &&& after.modifier_drag matches Some(drag)
            &&& drag.window == window && drag.start_cursor == cursor && drag.last_cursor == cursor
                && drag.start_rect == start_rect && drag.move_count == 0
        }),
{
}

} // verus!
