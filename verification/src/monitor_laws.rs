//! Which monitor a rectangle, a point or a command means, and how rectangles go from one to another.

use vstd::prelude::*;

use crate::commands::MonitorSelector;
use crate::daemon_focus::id_position;
use crate::daemon_state::DaemonView;
use crate::geometry::{MonitorId, MonitorInfo, Point, Rect, TileAssignment};
use crate::monitors::{
    arranged, arranged_monitors_are_in_order, close_to, closest, covering, distance_to_middle, dragged,
    known_monitor, monitor_ids, monitor_of_point, monitor_of_rect, moved_into, nearest, nearest_monitor_is_nearest,
    overlap, squared_distance, translated, widest, widest_monitor_shares_most,
};

verus! {

/// Two rectangles share an area exactly if they share a pixel, and a rectangle that lies within another
/// one shares all of its own area with it.
pub proof fn shared_area_is_that_of_the_shared_pixels(a: Rect, b: Rect)
    ensures
        overlap(a, b) >= 0,
        overlap(a, b) > 0 <==> exists|x: int, y: int| #[trigger] a.covers(x, y) && b.covers(x, y),
        overlap(a, b) == overlap(b, a),
        a.within(b) && 0 <= a.right - a.left <= i32::MAX && 0 <= a.bottom - a.top <= i32::MAX
            ==> overlap(a, b) == (a.right - a.left) * (a.bottom - a.top),
{
    let left = if a.left >= b.left {
        a.left
    } else {
        b.left
    };
    let top = if a.top >= b.top {
        a.top
    } else {
        b.top
    };
    let w = crate::monitors::shared_extent(a.left as int, a.right as int, b.left as int, b.right as int);
    let h = crate::monitors::shared_extent(a.top as int, a.bottom as int, b.top as int, b.bottom as int);
    assert(w * h >= 0 && (w * h > 0 <==> w > 0 && h > 0)) by (nonlinear_arith)
        requires
            w >= 0,
            h >= 0,
    ;
    if w > 0 && h > 0 {
        assert(a.covers(left as int, top as int) && b.covers(left as int, top as int));
    }
}

/// A rectangle belongs to the one monitor that it shares pixels with.
pub proof fn rect_on_one_monitor_belongs_to_it(rect: Rect, monitors: Seq<MonitorInfo>, at: int)
    requires
        0 <= at < monitors.len(),
        exists|x: int, y: int| #[trigger] rect.covers(x, y) && monitors[at].rect.covers(x, y),
        forall|i: int, x: int, y: int|
            0 <= i < monitors.len() && i != at ==> !(#[trigger] rect.covers(x, y) && (
            #[trigger] monitors[i]).rect.covers(x, y)),
    ensures
        monitor_of_rect(rect, monitors) == Some(monitors[at].id),
{
    widest_monitor_shares_most(rect, monitors);
    shared_area_is_that_of_the_shared_pixels(rect, monitors[at].rect);
    if let Some(best) = widest(rect, monitors) {
        let place = monitors.index_of(best);
        assert(monitors[place] == best);
        shared_area_is_that_of_the_shared_pixels(rect, monitors[place].rect);
    }
}

/// Of the monitors that a rectangle shares pixels with, it belongs to the one with which it shares most,
/// and of those to the one with the least identifier. One that shares none belongs to the monitor that
/// is nearest to its middle.
pub proof fn rect_belongs_where_most_of_it_is(rect: Rect, monitors: Seq<MonitorInfo>, at: int, other: int)
    requires
        0 <= at < monitors.len(),
        0 <= other < monitors.len(),
        monitor_of_rect(rect, monitors) == Some(monitors[at].id),
        forall|i: int, j: int|
            0 <= i < j < monitors.len() ==> (#[trigger] monitors[i]).id != (#[trigger] monitors[j]).id,
    ensures
        overlap(rect, monitors[other].rect) <= overlap(rect, monitors[at].rect),
        overlap(rect, monitors[at].rect) > 0 && overlap(rect, monitors[other].rect) == overlap(
            rect,
            monitors[at].rect,
        ) ==> monitors[at].id.0 <= monitors[other].id.0,
        overlap(rect, monitors[at].rect) == 0 ==> squared_distance(rect.middle(), monitors[at].rect)
            <= squared_distance(rect.middle(), monitors[other].rect),
{
    widest_monitor_shares_most(rect, monitors);
    nearest_monitor_is_nearest(rect.middle(), monitors);
    shared_area_is_that_of_the_shared_pixels(rect, monitors[at].rect);
    shared_area_is_that_of_the_shared_pixels(rect, monitors[other].rect);
    if let Some(best) = widest(rect, monitors) {
        let place = monitors.index_of(best);
        assert(monitors[place] == best);
    }
    if let Some(best) = nearest(rect.middle(), monitors) {
        let place = monitors.index_of(best);
        assert(monitors[place] == best);
    }
}

proof fn lemma_covering(point: Point, monitors: Seq<MonitorInfo>)
    ensures
        covering(point, monitors) is None ==> forall|i: int|
            0 <= i < monitors.len() ==> !(#[trigger] monitors[i]).rect.covers(
                point.x as int,
                point.y as int,
            ),
        forall|at: int|
            0 <= at < monitors.len() && (#[trigger] monitors[at]).rect.covers(
                point.x as int,
                point.y as int,
            ) && (forall|i: int|
                0 <= i < at ==> !(#[trigger] monitors[i]).rect.covers(point.x as int, point.y as int))
                ==> covering(point, monitors) == Some(monitors[at]),
    decreases monitors.len(),
{
    if monitors.len() > 0 {
        let rest = monitors.drop_last();
        lemma_covering(point, rest);
        assert(forall|i: int| 0 <= i < rest.len() ==> rest[i] == #[trigger] monitors[i]);
        assert(monitors[monitors.len() - 1] == monitors.last());
        assert forall|at: int|
            0 <= at < monitors.len() && (#[trigger] monitors[at]).rect.covers(
                point.x as int,
                point.y as int,
            ) && (forall|i: int|
                0 <= i < at ==> !(#[trigger] monitors[i]).rect.covers(point.x as int, point.y as int))
            implies covering(point, monitors) == Some(monitors[at]) by {
            if at < rest.len() {
                assert(rest[at].rect.covers(point.x as int, point.y as int));
                assert(forall|i: int|
                    0 <= i < at ==> !(#[trigger] rest[i]).rect.covers(point.x as int, point.y as int));
            } else if covering(point, rest) is Some {
                assert forall|i: int| 0 <= i < rest.len() implies !(#[trigger] rest[i]).rect.covers(
                    point.x as int,
                    point.y as int,
                ) by {
                    assert(rest[i] == monitors[i]);
                }
                lemma_covered(point, rest);
            }
        }
        if covering(point, monitors) is None {
            assert forall|i: int| 0 <= i < monitors.len() implies !(
            #[trigger] monitors[i]).rect.covers(point.x as int, point.y as int) by {
                if i < rest.len() {
                    assert(rest[i] == monitors[i]);
                }
            }
        }
    }
}

proof fn lemma_covered(point: Point, monitors: Seq<MonitorInfo>)
    ensures
        covering(point, monitors) is Some ==> exists|i: int|
            0 <= i < monitors.len() && (#[trigger] monitors[i]).rect.covers(
                point.x as int,
                point.y as int,
            ),
    decreases monitors.len(),
{
    if monitors.len() > 0 {
        let rest = monitors.drop_last();
        lemma_covered(point, rest);
        if covering(point, rest) is Some {
            let i = choose|i: int|
                0 <= i < rest.len() && (#[trigger] rest[i]).rect.covers(point.x as int, point.y as int);
            assert(monitors[i] == rest[i]);
        } else if covering(point, monitors) is Some {
            assert(monitors[monitors.len() - 1] == monitors.last());
        }
    }
}

/// A point belongs to the first monitor that covers it: its left and upper edges count, its right and
/// lower ones do not.
pub proof fn point_belongs_to_the_monitor_under_it(point: Point, monitors: Seq<MonitorInfo>, at: int)
    requires
        0 <= at < monitors.len(),
        monitors[at].rect.left <= point.x < monitors[at].rect.right,
        monitors[at].rect.top <= point.y < monitors[at].rect.bottom,
        forall|i: int|
            0 <= i < at ==> !((#[trigger] monitors[i]).rect.left <= point.x < monitors[i].rect.right
                && monitors[i].rect.top <= point.y < monitors[i].rect.bottom),
    ensures
        monitor_of_point(point, monitors) == Some(monitors[at].id),
{
    lemma_covering(point, monitors);
}

/// How far a point lies from a rectangle is how far it lies from the nearest pixel: nothing if it lies in
/// it, and otherwise the sum of the squares of how far it lies beside it and above or below it.
pub proof fn distance_is_that_to_the_nearest_pixel(point: Point, rect: Rect, x: int, y: int)
    requires
        rect.covers(x, y),
        -0x2000_0000 <= rect.left && rect.right <= 0x2000_0000,
        -0x2000_0000 <= rect.top && rect.bottom <= 0x2000_0000,
        -0x2000_0000 <= point.x <= 0x2000_0000,
        -0x2000_0000 <= point.y <= 0x2000_0000,
    ensures
        squared_distance(point, rect) <= (x - point.x) * (x - point.x) + (y - point.y) * (y - point.y),
        exists|a: int, b: int| #[trigger]
            rect.covers(a, b) && squared_distance(point, rect) == (a - point.x) * (a - point.x) + (b
                - point.y) * (b - point.y),
{
    let a: int = if point.x < rect.left {
        rect.left as int
    } else if point.x >= rect.right {
        rect.right - 1
    } else {
        point.x as int
    };
    let b: int = if point.y < rect.top {
        rect.top as int
    } else if point.y >= rect.bottom {
        rect.bottom - 1
    } else {
        point.y as int
    };
    assert(rect.covers(a, b));
    let dx = crate::monitors::gap_to(point.x as int, rect.left as int, rect.right as int);
    let dy = crate::monitors::gap_to(point.y as int, rect.top as int, rect.bottom as int);
    assert(dx == a - point.x || dx == point.x - a);
    assert(dy == b - point.y || dy == point.y - b);
    lemma_squares(dx, a - point.x, x - point.x);
    lemma_squares(dy, b - point.y, y - point.y);
}

proof fn lemma_squares(gap: int, offset: int, farther: int)
    requires
        gap >= 0,
        gap == offset || gap == -offset,
        farther >= gap || -farther >= gap,
    ensures
        gap * gap == offset * offset,
        gap * gap <= farther * farther,
{
    assert(gap * gap == offset * offset && gap * gap <= farther * farther) by (nonlinear_arith)
        requires
            gap >= 0,
            gap == offset || gap == -offset,
            farther >= gap || -farther >= gap,
    ;
}

/// Monitors stand in order from left to right, those with the same left edge from top to bottom, and
/// those that start at the same point by their identifiers.
pub proof fn monitors_stand_from_left_to_right(monitors: Seq<MonitorInfo>, i: int, j: int)
    requires
        0 <= i < j < monitors.len(),
    ensures
        ({
            let a = arranged(monitors)[i];
            let b = arranged(monitors)[j];
            &&& a.rect.left <= b.rect.left
            &&& a.rect.left == b.rect.left ==> a.rect.top <= b.rect.top
            &&& a.rect.left == b.rect.left && a.rect.top == b.rect.top ==> a.id.0 <= b.id.0
        }),
        arranged(monitors).to_multiset() == monitors.to_multiset(),
{
    arranged_monitors_are_in_order(monitors);
}

proof fn lemma_place(ids: Seq<MonitorId>, id: MonitorId, at: int)
    requires
        0 <= at < ids.len(),
        ids[at] == id,
        forall|i: int| 0 <= i < at ==> #[trigger] ids[i] != id,
    ensures
        id_position(ids, id) == Some(at),
    decreases ids.len(),
{
    let rest = ids.drop_last();
    if at < rest.len() {
        assert(forall|i: int| 0 <= i < at ==> #[trigger] rest[i] == ids[i]);
        lemma_place(rest, id, at);
    } else {
        lemma_nowhere(rest, id);
    }
}

proof fn lemma_nowhere(ids: Seq<MonitorId>, id: MonitorId)
    requires
        forall|i: int| 0 <= i < ids.len() ==> #[trigger] ids[i] != id,
    ensures
        id_position(ids, id) is None,
    decreases ids.len(),
{
    if ids.len() > 0 {
        let rest = ids.drop_last();
        assert(forall|i: int| 0 <= i < rest.len() ==> #[trigger] rest[i] == ids[i]);
        assert(ids[ids.len() - 1] == ids.last());
        lemma_nowhere(rest, id);
    }
}

/// A number means the monitor at that place from left to right, counted from one, and an identifier the
/// monitor that has it; next and previous mean the monitor to the right and to the left, in a circle,
/// of the one that commands mean. Numbers and identifiers that no monitor has mean none.
pub proof fn selectors_mean_monitors_by_their_place(
    state: DaemonView,
    monitors: Seq<MonitorInfo>,
    at: int,
    number: usize,
    id: MonitorId,
)
    requires
        0 <= at < monitors.len(),
        state.command_monitor(monitors) == Some(arranged(monitors)[at].id),
        forall|i: int| 0 <= i < at ==> (#[trigger] arranged(monitors)[i]).id != arranged(monitors)[at].id,
    ensures
        ({
            let standing = arranged(monitors);
            let last = monitors.len() - 1;
            &&& at < last ==> state.selected(MonitorSelector::Next, monitors) == Some(
                standing[at + 1].id,
            )
            &&& at == last ==> state.selected(MonitorSelector::Next, monitors) == Some(standing[0].id)
            &&& at > 0 ==> state.selected(MonitorSelector::Prev, monitors) == Some(standing[at - 1].id)
            &&& at == 0 ==> state.selected(MonitorSelector::Prev, monitors) == Some(standing[last].id)
            &&& 1 <= number <= monitors.len() ==> state.selected(
                MonitorSelector::Index(number),
                monitors,
            ) == Some(standing[number - 1].id)
            &&& number == 0 || number > monitors.len() ==> state.selected(
                MonitorSelector::Index(number),
                monitors,
            ) is None
            &&& (exists|i: int| 0 <= i < monitors.len() && (#[trigger] monitors[i]).id == id)
                ==> state.selected(MonitorSelector::Id(id), monitors) == Some(id)
            &&& !(exists|i: int| 0 <= i < monitors.len() && (#[trigger] monitors[i]).id == id)
                ==> state.selected(MonitorSelector::Id(id), monitors) is None
        }),
{
    let standing = arranged(monitors);
    let ids = monitor_ids(standing);
    arranged_monitors_are_in_order(monitors);
    assert forall|i: int| 0 <= i < at implies #[trigger] ids[i] != ids[at] by {
        assert(standing[i].id != standing[at].id);
    }
    lemma_place(ids, standing[at].id, at);
    standing.to_multiset_ensures();
    monitors.to_multiset_ensures();
    if exists|i: int| 0 <= i < monitors.len() && (#[trigger] monitors[i]).id == id {
        let i = choose|i: int| 0 <= i < monitors.len() && (#[trigger] monitors[i]).id == id;
        assert(monitors.contains(monitors[i]));
        assert(monitors.to_multiset().contains(monitors[i]));
        assert(standing.contains(monitors[i]));
        let place = standing.index_of(monitors[i]);
        assert(ids[place] == id);
    } else if ids.contains(id) {
        let place = ids.index_of(id);
        assert(standing.contains(standing[place]));
        assert(standing.to_multiset().contains(standing[place]));
        assert(monitors.contains(standing[place]));
        let i = monitors.index_of(standing[place]);
        assert(monitors[i].id == id);
    }
}

/// Commands mean the monitor of the foreground window, or else the one that has the focus, or else the
/// leftmost one.
pub proof fn commands_mean_the_monitor_of_the_foreground(state: DaemonView, monitors: Seq<MonitorInfo>)
    ensures
        ({
            let meant = state.command_monitor(monitors);
            let owner = match state.foreground {
                Some(window) => state.owner(window, monitors),
                None => None,
            };
            &&& owner is Some ==> meant == owner
            &&& owner is None && state.workspaces.focused is Some && known_monitor(
                monitors,
                state.workspaces.focused.unwrap(),
            ) ==> meant == state.workspaces.focused
            &&& owner is None && (state.workspaces.focused is None || !known_monitor(
                monitors,
                state.workspaces.focused.unwrap(),
            )) && monitors.len() > 0 ==> meant == Some(arranged(monitors)[0].id)
            &&& monitors.len() == 0 && owner is None ==> meant is None
        }),
{
}

/// A rectangle is moved into an area no farther than it must: where it lies within it stays, where it
/// juts out at one side it is brought to that edge, and where it is too large it starts where the area
/// starts.
pub proof fn rect_is_moved_no_farther_than_it_must(rect: Rect, area: Rect)
    requires
        0 <= rect.right - rect.left <= i32::MAX,
        0 <= rect.bottom - rect.top <= i32::MAX,
        0 <= area.right - area.left <= i32::MAX,
        0 <= area.bottom - area.top <= i32::MAX,
        i32::MIN <= area.right - (rect.right - rect.left),
        i32::MIN <= area.bottom - (rect.bottom - rect.top),
        area.left + (rect.right - rect.left) <= i32::MAX,
        area.top + (rect.bottom - rect.top) <= i32::MAX,
    ensures
        ({
            let moved = moved_into(rect, area);
            let wide = rect.right - rect.left > area.right - area.left;
            let high = rect.bottom - rect.top > area.bottom - area.top;
            &&& moved.right - moved.left == rect.right - rect.left
            &&& moved.bottom - moved.top == rect.bottom - rect.top
            &&& rect.within(area) ==> moved == rect
            &&& wide || rect.left < area.left ==> moved.left == area.left
            &&& !wide && rect.right > area.right ==> moved.right == area.right
            &&& rect.left >= area.left && rect.right <= area.right ==> moved.left == rect.left
            &&& high || rect.top < area.top ==> moved.top == area.top
            &&& !high && rect.bottom > area.bottom ==> moved.bottom == area.bottom
            &&& rect.top >= area.top && rect.bottom <= area.bottom ==> moved.top == rect.top
        }),
{
}

/// A rectangle that goes from one monitor to another stands in the work area of the second as it stood in
/// that of the first, if it fits there; one that comes from nowhere stands in the middle. Its size stays.
pub proof fn rect_stands_as_it_stood(rect: Rect, source: MonitorInfo, target: MonitorInfo)
    requires
        -0x1000_0000 <= rect.left <= rect.right <= 0x1000_0000,
        -0x1000_0000 <= rect.top <= rect.bottom <= 0x1000_0000,
        -0x1000_0000 <= source.work_area.left <= 0x1000_0000,
        -0x1000_0000 <= source.work_area.top <= 0x1000_0000,
        -0x1000_0000 <= target.work_area.left <= target.work_area.right <= 0x1000_0000,
        -0x1000_0000 <= target.work_area.top <= target.work_area.bottom <= 0x1000_0000,
    ensures
        ({
            let moved = translated(rect, Some(source), target);
            let middle = translated(rect, None, target);
            let x = rect.left - source.work_area.left;
            let y = rect.top - source.work_area.top;
            let width = rect.right - rect.left;
            let height = rect.bottom - rect.top;
            let area = target.work_area;
            &&& moved.right - moved.left == width && moved.bottom - moved.top == height
            &&& middle.right - middle.left == width && middle.bottom - middle.top == height
            &&& 0 <= x && x + width <= area.right - area.left ==> moved.left == area.left + x
            &&& 0 <= y && y + height <= area.bottom - area.top ==> moved.top == area.top + y
            &&& width <= area.right - area.left ==> area.left <= moved.left && moved.right <= area.right
            &&& height <= area.bottom - area.top ==> area.top <= moved.top && moved.bottom
                <= area.bottom
            &&& width <= area.right - area.left ==> -1 <= (area.right - middle.right) - (middle.left
                - area.left) <= 1
            &&& height <= area.bottom - area.top ==> -1 <= (area.bottom - middle.bottom) - (middle.top
                - area.top) <= 1
        }),
{
}

/// A rectangle that is dragged moves as the cursor does.
pub proof fn dragged_rect_moves_as_the_cursor_does(rect: Rect, start: Point, current: Point)
    requires
        -0x1000_0000 <= rect.left <= 0x1000_0000,
        -0x1000_0000 <= rect.right <= 0x1000_0000,
        -0x1000_0000 <= rect.top <= 0x1000_0000,
        -0x1000_0000 <= rect.bottom <= 0x1000_0000,
        -0x1000_0000 <= start.x <= 0x1000_0000,
        -0x1000_0000 <= start.y <= 0x1000_0000,
        -0x1000_0000 <= current.x <= 0x1000_0000,
        -0x1000_0000 <= current.y <= 0x1000_0000,
    ensures
        ({
            let moved = dragged(rect, start, current);
            &&& moved.left - rect.left == current.x - start.x
            &&& moved.right - rect.right == current.x - start.x
            &&& moved.top - rect.top == current.y - start.y
            &&& moved.bottom - rect.bottom == current.y - start.y
        }),
{
}

/// Two rectangles are close exactly if no edge of one is farther than the tolerance from that of the
/// other; without a tolerance, if they are the same.
pub proof fn close_rects_differ_by_the_tolerance(a: Rect, b: Rect, tolerance: int)
    ensures
        tolerance >= 0 ==> (close_to(a, b, tolerance) <==> -tolerance <= a.left - b.left <= tolerance
            && -tolerance <= a.top - b.top <= tolerance && -tolerance <= a.right - b.right <= tolerance
            && -tolerance <= a.bottom - b.bottom <= tolerance),
        tolerance <= 0 ==> (close_to(a, b, tolerance) <==> a == b),
        close_to(a, b, tolerance) == close_to(b, a, tolerance),
{
}

/// The tile that is closest to a point is one of the tiles, none has its middle nearer, and those that
/// come earlier have theirs farther.
pub proof fn closest_tile_is_closest(point: Point, tiles: Seq<TileAssignment>, other: int) -> (at: int)
    requires
        0 <= other < tiles.len(),
    ensures
        0 <= at < tiles.len(),
        closest(point, tiles) == Some(tiles[at]),
        ({
            let best = tiles[at].rect.middle();
            let middle = tiles[other].rect.middle();
            let near = (best.x - point.x) * (best.x - point.x) + (best.y - point.y) * (best.y - point.y);
            let far = (middle.x - point.x) * (middle.x - point.x) + (middle.y - point.y) * (middle.y
                - point.y);
            near <= far && (other < at ==> near < far)
        }),
{
    lemma_closest(point, tiles)
}

proof fn lemma_closest(point: Point, tiles: Seq<TileAssignment>) -> (at: int)
    requires
        tiles.len() > 0,
    ensures
        0 <= at < tiles.len(),
        closest(point, tiles) == Some(tiles[at]),
        forall|i: int|
            0 <= i < tiles.len() ==> distance_to_middle(point, tiles[at].rect) <= distance_to_middle(
                point,
                (#[trigger] tiles[i]).rect,
            ),
        forall|i: int|
            0 <= i < at ==> distance_to_middle(point, tiles[at].rect) < distance_to_middle(
                point,
                (#[trigger] tiles[i]).rect,
            ),
    decreases tiles.len(),
{
    let rest = tiles.drop_last();
    assert(forall|i: int| 0 <= i < rest.len() ==> #[trigger] rest[i] == tiles[i]);
    assert(tiles[tiles.len() - 1] == tiles.last());
    if rest.len() == 0 {
        assert(closest(point, rest) is None);
        0
    } else {
        let before = lemma_closest(point, rest);
        assert(forall|i: int|
            0 <= i < rest.len() ==> distance_to_middle(point, rest[before].rect) <= distance_to_middle(
                point,
                (#[trigger] tiles[i]).rect,
            )) by {
            assert(forall|i: int| 0 <= i < rest.len() ==> rest[i] == #[trigger] tiles[i]);
        }
        assert(forall|i: int|
            0 <= i < before ==> distance_to_middle(point, rest[before].rect) < distance_to_middle(
                point,
                (#[trigger] tiles[i]).rect,
            )) by {
            assert(forall|i: int| 0 <= i < rest.len() ==> rest[i] == #[trigger] tiles[i]);
        }
        if distance_to_middle(point, tiles.last().rect) < distance_to_middle(point, rest[before].rect) {
            tiles.len() - 1
        } else {
            before
        }
    }
}

} // verus!
