//! Which monitor a rectangle or a point belongs to, and how rectangles move between monitors.

use vstd::prelude::*;

use crate::geometry::{MonitorId, MonitorInfo, Point, Rect, TileAssignment};
use crate::num::{
    abs_int, clamp_i32, half, half_towards_zero, max_i32, max_int, min_i32, min_int, sat_add, sat_sub,
};

verus! {

/// How many pixels two extents share.
pub open spec fn shared_extent(near: int, far: int, other_near: int, other_far: int) -> int {
    max_int(clamp_i32(min_int(far, other_far) - max_int(near, other_near)), 0)
}

/// How many pixels two rectangles share.
pub open spec fn overlap(a: Rect, b: Rect) -> int {
    shared_extent(a.left as int, a.right as int, b.left as int, b.right as int) * shared_extent(
        a.top as int,
        a.bottom as int,
        b.top as int,
        b.bottom as int,
    )
}

/// How many pixels two rectangles share.
pub fn rect_overlap_area(a: Rect, b: Rect) -> (r: i64)
    ensures
        r == overlap(a, b),
        r >= 0,
{
    let left: i32 = max_i32(a.left, b.left);
    let top: i32 = max_i32(a.top, b.top);
    let right: i32 = min_i32(a.right, b.right);
    let bottom: i32 = min_i32(a.bottom, b.bottom);
    let width: i64 = max_i32(sat_sub(right, left), 0) as i64;
    let height: i64 = max_i32(sat_sub(bottom, top), 0) as i64;
    proof {
        assert(0 <= width * height <= 0x7fff_ffff * 0x7fff_ffff) by (nonlinear_arith)
            requires
                0 <= width <= 0x7fff_ffff,
                0 <= height <= 0x7fff_ffff,
        ;
    }
    width * height
}

/// How far a coordinate lies outside an extent.
pub open spec fn gap_to(x: int, near: int, far: int) -> int {
    if x < near {
        clamp_i32(near - x)
    } else if x >= far {
        clamp_i32(x - clamp_i32(far - 1))
    } else {
        0
    }
}

/// The square of the distance from a point to the nearest pixel of a rectangle.
pub open spec fn squared_distance(point: Point, rect: Rect) -> int {
    let dx = gap_to(point.x as int, rect.left as int, rect.right as int);
    let dy = gap_to(point.y as int, rect.top as int, rect.bottom as int);
    dx * dx + dy * dy
}

/// The square of the distance from a point to the nearest pixel of a rectangle.
pub fn squared_distance_to_rect(point: Point, rect: Rect) -> (r: i64)
    ensures
        r == squared_distance(point, rect),
        r >= 0,
{
    let dx: i64 = if point.x < rect.left {
        sat_sub(rect.left, point.x) as i64
    } else if point.x >= rect.right {
        sat_sub(point.x, sat_sub(rect.right, 1)) as i64
    } else {
        0
    };
    let dy: i64 = if point.y < rect.top {
        sat_sub(rect.top, point.y) as i64
    } else if point.y >= rect.bottom {
        sat_sub(point.y, sat_sub(rect.bottom, 1)) as i64
    } else {
        0
    };
    proof {
        assert(0 <= dx * dx <= 0x7fff_ffff * 0x7fff_ffff) by (nonlinear_arith)
            requires
                0 <= dx <= 0x7fff_ffff,
        ;
        assert(0 <= dy * dy <= 0x7fff_ffff * 0x7fff_ffff) by (nonlinear_arith)
            requires
                0 <= dy <= 0x7fff_ffff,
        ;
    }
    dx * dx + dy * dy
}

/// Whether there is a monitor with the identifier.
pub open spec fn known_monitor(monitors: Seq<MonitorInfo>, id: MonitorId) -> bool {
    exists|i: int| 0 <= i < monitors.len() && (#[trigger] monitors[i]).id == id
}

/// The first monitor with the identifier.
pub open spec fn monitor_named(monitors: Seq<MonitorInfo>, id: MonitorId) -> Option<MonitorInfo>
    decreases monitors.len(),
{
    if monitors.len() == 0 {
        None
    } else {
        match monitor_named(monitors.drop_last(), id) {
            Some(monitor) => Some(monitor),
            None => if monitors.last().id == id {
                Some(monitors.last())
            } else {
                None
            },
        }
    }
}

/// The first monitor with the identifier, which is there exactly if one is known.
pub proof fn lemma_monitor_named(monitors: Seq<MonitorInfo>, id: MonitorId)
    ensures
        monitor_named(monitors, id) is Some <==> known_monitor(monitors, id),
        monitor_named(monitors, id) matches Some(monitor) ==> monitor.id == id && monitors.contains(
            monitor,
        ),
    decreases monitors.len(),
{
    if monitors.len() > 0 {
        let rest = monitors.drop_last();
        lemma_monitor_named(rest, id);
        if known_monitor(rest, id) {
            let i = choose|i: int| 0 <= i < rest.len() && (#[trigger] rest[i]).id == id;
            assert(monitors[i].id == id);
        }
        if known_monitor(monitors, id) && monitors.last().id != id {
            let i = choose|i: int| 0 <= i < monitors.len() && (#[trigger] monitors[i]).id == id;
            assert(rest[i].id == id);
        }
        assert(monitors[monitors.len() - 1] == monitors.last());
        if monitor_named(rest, id) is Some {
            let monitor = monitor_named(rest, id).unwrap();
            let i = rest.index_of(monitor);
            assert(monitors[i] == monitor);
        }
    }
}

/// The first monitor with the identifier.
pub fn find_monitor(monitors: &[MonitorInfo], id: MonitorId) -> (r: Option<MonitorInfo>)
    ensures
        r == monitor_named(monitors@, id),
        r is Some <==> known_monitor(monitors@, id),
        r matches Some(monitor) ==> monitor.id == id,
{
    let mut index: usize = 0;
    let mut found: Option<MonitorInfo> = None;
    while index < monitors.len()
        invariant
            index <= monitors.len(),
            found == monitor_named(monitors@.take(index as int), id),
        decreases monitors.len() - index,
    {
        proof {
            assert(monitors@.take(index + 1).drop_last() =~= monitors@.take(index as int));
            assert(monitors@.take(index + 1).last() == monitors@[index as int]);
        }
        if found.is_none() && monitors[index].id == id {
            found = Some(monitors[index]);
        }
        index = index + 1;
    }
    proof {
        assert(monitors@.take(index as int) =~= monitors@);
        lemma_monitor_named(monitors@, id);
    }
    found
}

/// Whether there is a monitor with the identifier.
pub fn has_monitor(monitors: &[MonitorInfo], id: MonitorId) -> (r: bool)
    ensures
        r == known_monitor(monitors@, id),
{
    find_monitor(monitors, id).is_some()
}

/// The monitor that shares the most pixels with a rectangle, the one with the smallest identifier
/// among equals; none if no monitor shares a pixel.
pub open spec fn widest(rect: Rect, monitors: Seq<MonitorInfo>) -> Option<MonitorInfo>
    decreases monitors.len(),
{
    if monitors.len() == 0 {
        None
    } else {
        let before = widest(rect, monitors.drop_last());
        let last = monitors.last();
        if overlap(rect, last.rect) <= 0 {
            before
        } else {
            match before {
                None => Some(last),
                Some(best) => if overlap(rect, last.rect) > overlap(rect, best.rect) || (overlap(
                    rect,
                    last.rect,
                ) == overlap(rect, best.rect) && last.id.0 < best.id.0) {
                    Some(last)
                } else {
                    Some(best)
                },
            }
        }
    }
}

/// The monitor nearest to a point, the one with the smallest identifier among equals.
pub open spec fn nearest(point: Point, monitors: Seq<MonitorInfo>) -> Option<MonitorInfo>
    decreases monitors.len(),
{
    if monitors.len() == 0 {
        None
    } else {
        let before = nearest(point, monitors.drop_last());
        let last = monitors.last();
        match before {
            None => Some(last),
            Some(best) => if squared_distance(point, last.rect) < squared_distance(point, best.rect)
                || (squared_distance(point, last.rect) == squared_distance(point, best.rect)
                && last.id.0 < best.id.0) {
                Some(last)
            } else {
                Some(best)
            },
        }
    }
}

/// The first monitor that covers a point.
pub open spec fn covering(point: Point, monitors: Seq<MonitorInfo>) -> Option<MonitorInfo>
    decreases monitors.len(),
{
    if monitors.len() == 0 {
        None
    } else {
        match covering(point, monitors.drop_last()) {
            Some(monitor) => Some(monitor),
            None => if monitors.last().rect.covers(point.x as int, point.y as int) {
                Some(monitors.last())
            } else {
                None
            },
        }
    }
}

/// The identifier of a monitor, if there is one.
pub open spec fn id_of(monitor: Option<MonitorInfo>) -> Option<MonitorId> {
    match monitor {
        Some(monitor) => Some(monitor.id),
        None => None,
    }
}

/// The monitor that a rectangle belongs to: the one that shares the most pixels with it, or the one
/// nearest to its middle.
pub open spec fn monitor_of_rect(rect: Rect, monitors: Seq<MonitorInfo>) -> Option<MonitorId> {
    if widest(rect, monitors) is Some {
        id_of(widest(rect, monitors))
    } else {
        id_of(nearest(rect.middle(), monitors))
    }
}

/// The monitor that a point belongs to: the first that covers it, or the nearest one.
pub open spec fn monitor_of_point(point: Point, monitors: Seq<MonitorInfo>) -> Option<MonitorId> {
    if covering(point, monitors) is Some {
        id_of(covering(point, monitors))
    } else {
        id_of(nearest(point, monitors))
    }
}

/// The monitor nearest to a point.
pub fn nearest_monitor(point: Point, monitors: &[MonitorInfo]) -> (r: Option<MonitorInfo>)
    ensures
        r == nearest(point, monitors@),
{
    let mut best: Option<MonitorInfo> = None;
    let mut index: usize = 0;
    while index < monitors.len()
        invariant
            index <= monitors.len(),
            best == nearest(point, monitors@.take(index as int)),
        decreases monitors.len() - index,
    {
        proof {
            assert(monitors@.take(index + 1).drop_last() =~= monitors@.take(index as int));
            assert(monitors@.take(index + 1).last() == monitors@[index as int]);
        }
        let monitor: MonitorInfo = monitors[index];
        let distance: i64 = squared_distance_to_rect(point, monitor.rect);
        best = match best {
            None => Some(monitor),
            Some(held) => {
                let held_distance: i64 = squared_distance_to_rect(point, held.rect);
                if distance < held_distance || (distance == held_distance && monitor.id.0
                    < held.id.0) {
                    Some(monitor)
                } else {
                    Some(held)
                }
            },
        };
        index = index + 1;
    }
    proof {
        assert(monitors@.take(index as int) =~= monitors@);
    }
    best
}

/// The monitor that a point belongs to.
pub fn monitor_for_point(point: Point, monitors: &[MonitorInfo]) -> (r: Option<MonitorId>)
    ensures
        r == monitor_of_point(point, monitors@),
{
    let mut found: Option<MonitorInfo> = None;
    let mut index: usize = 0;
    while index < monitors.len()
        invariant
            index <= monitors.len(),
            found == covering(point, monitors@.take(index as int)),
        decreases monitors.len() - index,
    {
        proof {
            assert(monitors@.take(index + 1).drop_last() =~= monitors@.take(index as int));
            assert(monitors@.take(index + 1).last() == monitors@[index as int]);
        }
        if found.is_none() && monitors[index].rect.contains(point) {
            found = Some(monitors[index]);
        }
        index = index + 1;
    }
    proof {
        assert(monitors@.take(index as int) =~= monitors@);
    }
    match found {
        Some(monitor) => Some(monitor.id),
        None => match nearest_monitor(point, monitors) {
            Some(monitor) => Some(monitor.id),
            None => None,
        },
    }
}

/// The monitor that shares the most pixels with a rectangle.
pub fn widest_monitor(rect: Rect, monitors: &[MonitorInfo]) -> (r: Option<MonitorInfo>)
    ensures
        r == widest(rect, monitors@),
{
    let mut best: Option<MonitorInfo> = None;
    let mut index: usize = 0;
    while index < monitors.len()
        invariant
            index <= monitors.len(),
            best == widest(rect, monitors@.take(index as int)),
        decreases monitors.len() - index,
    {
        proof {
            assert(monitors@.take(index + 1).drop_last() =~= monitors@.take(index as int));
            assert(monitors@.take(index + 1).last() == monitors@[index as int]);
        }
        let monitor: MonitorInfo = monitors[index];
        let area: i64 = rect_overlap_area(rect, monitor.rect);
        if area > 0 {
            best = match best {
                None => Some(monitor),
                Some(held) => {
                    let held_area: i64 = rect_overlap_area(rect, held.rect);
                    if area > held_area || (area == held_area && monitor.id.0 < held.id.0) {
                        Some(monitor)
                    } else {
                        Some(held)
                    }
                },
            };
        }
        index = index + 1;
    }
    proof {
        assert(monitors@.take(index as int) =~= monitors@);
    }
    best
}

/// The monitor that a rectangle belongs to.
pub fn monitor_for_rect(rect: Rect, monitors: &[MonitorInfo]) -> (r: Option<MonitorId>)
    ensures
        r == monitor_of_rect(rect, monitors@),
{
    match widest_monitor(rect, monitors) {
        Some(monitor) => Some(monitor.id),
        None => match nearest_monitor(rect.center(), monitors) {
            Some(monitor) => Some(monitor.id),
            None => None,
        },
    }
}

/// Whether a rectangle belongs to a monitor.
pub fn monitor_owns_rect(monitor: &MonitorInfo, rect: Rect, monitors: &[MonitorInfo]) -> (r: bool)
    ensures
        r == (monitor_of_rect(rect, monitors@) == Some(monitor.id)),
{
    match monitor_for_rect(rect, monitors) {
        Some(id) => id == monitor.id,
        None => false,
    }
}

/// What `widest` finds: a monitor of the list that shares pixels with the rectangle, no other one
/// sharing more, or as many with a smaller identifier.
pub proof fn widest_monitor_shares_most(rect: Rect, monitors: Seq<MonitorInfo>)
    ensures
        widest(rect, monitors) is None <==> forall|i: int|
            0 <= i < monitors.len() ==> overlap(rect, (#[trigger] monitors[i]).rect) <= 0,
        widest(rect, monitors) matches Some(best) ==> {
            &&& monitors.contains(best)
            &&& overlap(rect, best.rect) > 0
            &&& forall|i: int|
                0 <= i < monitors.len() ==> overlap(rect, (#[trigger] monitors[i]).rect) < overlap(
                    rect,
                    best.rect,
                ) || (overlap(rect, monitors[i].rect) == overlap(rect, best.rect) && best.id.0
                    <= monitors[i].id.0)
        },
    decreases monitors.len(),
{
    if monitors.len() > 0 {
        let rest = monitors.drop_last();
        widest_monitor_shares_most(rect, rest);
        assert(forall|i: int| 0 <= i < rest.len() ==> #[trigger] monitors[i] == rest[i]);
        assert(monitors[monitors.len() - 1] == monitors.last());
        if widest(rect, rest) is Some {
            let best = widest(rect, rest).unwrap();
            let i = rest.index_of(best);
            assert(monitors[i] == best);
        }
    }
}

/// What `nearest` finds: a monitor of the list, no other one being nearer, or as near with a smaller
/// identifier.
pub proof fn nearest_monitor_is_nearest(point: Point, monitors: Seq<MonitorInfo>)
    ensures
        nearest(point, monitors) is None <==> monitors.len() == 0,
        nearest(point, monitors) matches Some(best) ==> {
            &&& monitors.contains(best)
            &&& forall|i: int|
                0 <= i < monitors.len() ==> squared_distance(point, best.rect) < squared_distance(
                    point,
                    (#[trigger] monitors[i]).rect,
                ) || (squared_distance(point, monitors[i].rect) == squared_distance(point, best.rect)
                    && best.id.0 <= monitors[i].id.0)
        },
    decreases monitors.len(),
{
    if monitors.len() > 0 {
        let rest = monitors.drop_last();
        nearest_monitor_is_nearest(point, rest);
        assert(forall|i: int| 0 <= i < rest.len() ==> #[trigger] monitors[i] == rest[i]);
        assert(monitors[monitors.len() - 1] == monitors.last());
        if nearest(point, rest) is Some {
            let best = nearest(point, rest).unwrap();
            let i = rest.index_of(best);
            assert(monitors[i] == best);
        }
    }
}

/// Every rectangle belongs to one of the monitors, as soon as there is one.
pub proof fn every_rect_has_a_monitor(rect: Rect, monitors: Seq<MonitorInfo>)
    ensures
        monitor_of_rect(rect, monitors) is None <==> monitors.len() == 0,
        monitor_of_rect(rect, monitors) matches Some(id) ==> known_monitor(monitors, id),
{
    widest_monitor_shares_most(rect, monitors);
    nearest_monitor_is_nearest(rect.middle(), monitors);
    if widest(rect, monitors) is Some {
        let i = monitors.index_of(widest(rect, monitors).unwrap());
        assert(monitors[i].id == widest(rect, monitors).unwrap().id);
    } else if monitors.len() > 0 {
        let i = monitors.index_of(nearest(rect.middle(), monitors).unwrap());
        assert(monitors[i].id == nearest(rect.middle(), monitors).unwrap().id);
    }
}

/// Every point belongs to one of the monitors, as soon as there is one.
pub proof fn every_point_has_a_monitor(point: Point, monitors: Seq<MonitorInfo>)
    ensures
        monitor_of_point(point, monitors) is None <==> monitors.len() == 0,
        monitor_of_point(point, monitors) matches Some(id) ==> known_monitor(monitors, id),
{
    lemma_covering(point, monitors);
    nearest_monitor_is_nearest(point, monitors);
    if covering(point, monitors) is Some {
        let i = monitors.index_of(covering(point, monitors).unwrap());
        assert(monitors[i].id == covering(point, monitors).unwrap().id);
    } else if monitors.len() > 0 {
        let i = monitors.index_of(nearest(point, monitors).unwrap());
        assert(monitors[i].id == nearest(point, monitors).unwrap().id);
    }
}

proof fn lemma_covering(point: Point, monitors: Seq<MonitorInfo>)
    ensures
        covering(point, monitors) matches Some(monitor) ==> monitors.contains(monitor),
    decreases monitors.len(),
{
    if monitors.len() > 0 {
        let rest = monitors.drop_last();
        lemma_covering(point, rest);
        assert(monitors[monitors.len() - 1] == monitors.last());
        if covering(point, rest) is Some {
            let found = covering(point, rest).unwrap();
            let i = rest.index_of(found);
            assert(monitors[i] == found);
        }
    }
}

/// Whether a monitor stands before another: further left, or else further up, or else with a smaller
/// identifier.
pub open spec fn stands_before(a: MonitorInfo, b: MonitorInfo) -> bool {
    a.rect.left < b.rect.left || (a.rect.left == b.rect.left && (a.rect.top < b.rect.top || (
    a.rect.top == b.rect.top && a.id.0 <= b.id.0)))
}

/// How many monitors at the front of a list stand before a monitor.
pub open spec fn leading(monitors: Seq<MonitorInfo>, monitor: MonitorInfo) -> nat
    decreases monitors.len(),
{
    if monitors.len() == 0 || !stands_before(monitors[0], monitor) {
        0
    } else {
        1 + leading(monitors.drop_first(), monitor)
    }
}

/// The monitors as they stand, from left to right.
pub open spec fn arranged(monitors: Seq<MonitorInfo>) -> Seq<MonitorInfo>
    decreases monitors.len(),
{
    if monitors.len() == 0 {
        Seq::empty()
    } else {
        let rest = arranged(monitors.drop_last());
        rest.insert(leading(rest, monitors.last()) as int, monitors.last())
    }
}

/// The identifiers of monitors.
pub open spec fn monitor_ids(monitors: Seq<MonitorInfo>) -> Seq<MonitorId> {
    monitors.map_values(|monitor: MonitorInfo| monitor.id)
}

proof fn lemma_leading(monitors: Seq<MonitorInfo>, monitor: MonitorInfo)
    ensures
        leading(monitors, monitor) <= monitors.len(),
        forall|i: int|
            0 <= i < leading(monitors, monitor) ==> stands_before(#[trigger] monitors[i], monitor),
        leading(monitors, monitor) < monitors.len() ==> !stands_before(
            monitors[leading(monitors, monitor) as int],
            monitor,
        ),
    decreases monitors.len(),
{
    if monitors.len() > 0 && stands_before(monitors[0], monitor) {
        let rest = monitors.drop_first();
        lemma_leading(rest, monitor);
        assert forall|i: int| 0 <= i < leading(monitors, monitor) implies stands_before(
            #[trigger] monitors[i],
            monitor,
        ) by {
            if i > 0 {
                assert(monitors[i] == rest[i - 1]);
            }
        }
    }
}

/// The arranged monitors are the monitors, each standing before those that follow it.
pub proof fn arranged_monitors_are_in_order(monitors: Seq<MonitorInfo>)
    ensures
        arranged(monitors).to_multiset() == monitors.to_multiset(),
        arranged(monitors).len() == monitors.len(),
        forall|i: int, j: int|
            0 <= i < j < monitors.len() ==> stands_before(
                #[trigger] arranged(monitors)[i],
                #[trigger] arranged(monitors)[j],
            ),
    decreases monitors.len(),
{
    broadcast use vstd::seq_lib::group_to_multiset_ensures;

    if monitors.len() == 0 {
        assert(arranged(monitors) =~= monitors);
    } else {
        let rest = arranged(monitors.drop_last());
        let last = monitors.last();
        let at = leading(rest, last) as int;
        arranged_monitors_are_in_order(monitors.drop_last());
        lemma_leading(rest, last);
        assert(monitors =~= monitors.drop_last().push(last));
        assert(arranged(monitors) == rest.insert(at, last));
        let all = arranged(monitors);
        assert forall|i: int, j: int| 0 <= i < j < monitors.len() implies stands_before(
            #[trigger] all[i],
            #[trigger] all[j],
        ) by {
            let a = if i < at {
                i
            } else {
                i - 1
            };
            let b = if j < at {
                j
            } else {
                j - 1
            };
            if i != at {
                assert(all[i] == rest[a]);
            }
            if j != at {
                assert(all[j] == rest[b]);
            }
            if i != at && j != at {
                assert(stands_before(rest[a], rest[b]));
            } else if i == at {
                assert(!stands_before(rest[at], last));
                if b > at {
                    assert(stands_before(rest[at], rest[b]));
                }
            }
        }
    }
}

/// The identifiers of the monitors as they stand, from left to right, then from top to bottom.
pub fn sorted_monitor_ids(monitors: &[MonitorInfo]) -> (r: Vec<MonitorId>)
    ensures
        r@ == monitor_ids(arranged(monitors@)),
{
    let mut held: Vec<MonitorInfo> = Vec::new();
    let mut index: usize = 0;
    while index < monitors.len()
        invariant
            index <= monitors.len(),
            held@ == arranged(monitors@.take(index as int)),
        decreases monitors.len() - index,
    {
        proof {
            assert(monitors@.take(index + 1).drop_last() =~= monitors@.take(index as int));
            assert(monitors@.take(index + 1).last() == monitors@[index as int]);
        }
        let monitor: MonitorInfo = monitors[index];
        let mut place: usize = 0;
        proof {
            assert(held@.skip(0) =~= held@);
        }
        while place < held.len() && (held[place].rect.left < monitor.rect.left || (
        held[place].rect.left == monitor.rect.left && (held[place].rect.top < monitor.rect.top || (
        held[place].rect.top == monitor.rect.top && held[place].id.0 <= monitor.id.0))))
            invariant
                place <= held.len(),
                leading(held@, monitor) == place + leading(held@.skip(place as int), monitor),
            decreases held.len() - place,
        {
            proof {
                assert(held@.skip(place as int).drop_first() =~= held@.skip(place + 1));
                assert(held@.skip(place as int)[0] == held@[place as int]);
            }
            place = place + 1;
        }
        proof {
            if place < held.len() {
                assert(held@.skip(place as int)[0] == held@[place as int]);
            }
        }
        held.insert(place, monitor);
        index = index + 1;
    }
    proof {
        assert(monitors@.take(index as int) =~= monitors@);
    }
    let mut ids: Vec<MonitorId> = Vec::new();
    let mut next: usize = 0;
    while next < held.len()
        invariant
            next <= held.len(),
            held@ == arranged(monitors@),
            ids@ == monitor_ids(held@.take(next as int)),
        decreases held.len() - next,
    {
        let ghost before = ids@;
        ids.push(held[next].id);
        proof {
            assert(ids@ =~= monitor_ids(held@.take(next + 1)));
        }
        next = next + 1;
    }
    proof {
        assert(held@.take(next as int) =~= held@);
    }
    ids
}

/// A coordinate brought into a range.
pub open spec fn held_between(x: int, least: int, most: int) -> int {
    if x < least {
        least
    } else if x > most {
        most
    } else {
        x
    }
}

/// A rectangle moved into an area as far as it fits, without a change of its size.
pub open spec fn moved_into(rect: Rect, area: Rect) -> Rect {
    Rect::sized(
        held_between(
            rect.left as int,
            area.left as int,
            max_int(clamp_i32(area.right - rect.spec_width()), area.left as int),
        ),
        held_between(
            rect.top as int,
            area.top as int,
            max_int(clamp_i32(area.bottom - rect.spec_height()), area.top as int),
        ),
        rect.spec_width(),
        rect.spec_height(),
    )
}

/// A coordinate brought into a range.
fn hold_between(x: i32, least: i32, most: i32) -> (r: i32)
    ensures
        r == held_between(x as int, least as int, most as int),
{
    if x < least {
        least
    } else if x > most {
        most
    } else {
        x
    }
}

/// Moves a rectangle into an area as far as it fits.
pub fn clamp_rect_to_area(rect: Rect, area: Rect) -> (r: Rect)
    ensures
        r == moved_into(rect, area),
{
    let width: i32 = rect.width();
    let height: i32 = rect.height();
    let max_left: i32 = max_i32(sat_sub(area.right, width), area.left);
    let max_top: i32 = max_i32(sat_sub(area.bottom, height), area.top);
    Rect::from_size(
        hold_between(rect.left, area.left, max_left),
        hold_between(rect.top, area.top, max_top),
        width,
        height,
    )
}

/// A rectangle that is no larger than the area lies in it once it is moved there, and keeps its
/// size.
pub proof fn moved_rect_lies_in_the_area(rect: Rect, area: Rect)
    requires
        0 <= rect.right - rect.left <= area.right - area.left <= i32::MAX,
        0 <= rect.bottom - rect.top <= area.bottom - area.top <= i32::MAX,
    ensures
        moved_into(rect, area).within(area),
        moved_into(rect, area).spec_width() == rect.spec_width(),
        moved_into(rect, area).spec_height() == rect.spec_height(),
{
}

/// A rectangle moved by a distance along each axis, its edges held within the coordinates.
pub open spec fn shifted(rect: Rect, dx: int, dy: int) -> Rect {
    Rect {
        left: clamp_i32(rect.left + dx) as i32,
        top: clamp_i32(rect.top + dy) as i32,
        right: clamp_i32(rect.right + dx) as i32,
        bottom: clamp_i32(rect.bottom + dy) as i32,
    }
}

/// A rectangle moved as far as the cursor has moved.
pub open spec fn dragged(rect: Rect, start: Point, current: Point) -> Rect {
    shifted(rect, clamp_i32(current.x - start.x), clamp_i32(current.y - start.y))
}

/// Moves a rectangle as far as the cursor has moved.
pub fn offset_rect_by_cursor_delta(rect: Rect, start: Point, current: Point) -> (r: Rect)
    ensures
        r == dragged(rect, start, current),
{
    let dx: i32 = sat_sub(current.x, start.x);
    let dy: i32 = sat_sub(current.y, start.y);
    Rect {
        left: sat_add(rect.left, dx),
        top: sat_add(rect.top, dy),
        right: sat_add(rect.right, dx),
        bottom: sat_add(rect.bottom, dy),
    }
}

/// Dragging a rectangle and dragging it back leaves it where it was, as long as no edge reaches the
/// end of the coordinates.
pub proof fn dragging_back_restores_the_rect(rect: Rect, start: Point, current: Point)
    requires
        i32::MIN <= current.x - start.x <= i32::MAX,
        i32::MIN <= current.y - start.y <= i32::MAX,
        i32::MIN < start.x - current.x <= i32::MAX,
        i32::MIN < start.y - current.y <= i32::MAX,
        i32::MIN <= rect.left + (current.x - start.x) <= i32::MAX,
        i32::MIN <= rect.right + (current.x - start.x) <= i32::MAX,
        i32::MIN <= rect.top + (current.y - start.y) <= i32::MAX,
        i32::MIN <= rect.bottom + (current.y - start.y) <= i32::MAX,
    ensures
        dragged(dragged(rect, start, current), current, start) == rect,
{
}

/// Where a rectangle goes on another monitor: as far from the near edges of the work area as it was
/// on the monitor that it comes from, or in the middle if it comes from none; in any case inside the
/// work area as far as it fits.
pub open spec fn translated(rect: Rect, source: Option<MonitorInfo>, target: MonitorInfo) -> Rect {
    moved_into(
        match source {
            Some(source) => shifted(
                rect,
                clamp_i32(target.work_area.left - source.work_area.left),
                clamp_i32(target.work_area.top - source.work_area.top),
            ),
            None => Rect::sized(
                clamp_i32(
                    target.work_area.middle().x - half_towards_zero(rect.spec_width()),
                ),
                clamp_i32(
                    target.work_area.middle().y - half_towards_zero(rect.spec_height()),
                ),
                rect.spec_width(),
                rect.spec_height(),
            ),
        },
        target.work_area,
    )
}

/// Where a rectangle goes on another monitor.
pub fn translate_rect_to_monitor(rect: Rect, source: Option<&MonitorInfo>, target: &MonitorInfo) -> (r:
    Rect)
    ensures
        r == translated(
            rect,
            match source {
                Some(source) => Some(*source),
                None => None,
            },
            *target,
        ),
{
    let moved: Rect = match source {
        Some(source) => {
            let dx: i32 = sat_sub(target.work_area.left, source.work_area.left);
            let dy: i32 = sat_sub(target.work_area.top, source.work_area.top);
            Rect {
                left: sat_add(rect.left, dx),
                top: sat_add(rect.top, dy),
                right: sat_add(rect.right, dx),
                bottom: sat_add(rect.bottom, dy),
            }
        },
        None => {
            let center: Point = target.work_area.center();
            Rect::from_size(
                sat_sub(center.x, half(rect.width())),
                sat_sub(center.y, half(rect.height())),
                rect.width(),
                rect.height(),
            )
        },
    };
    clamp_rect_to_area(moved, target.work_area)
}

/// Whether each edge of a rectangle is at most `tolerance` pixels from where it is expected.
pub open spec fn close_to(actual: Rect, expected: Rect, tolerance: int) -> bool {
    let allowed = max_int(tolerance, 0);
    &&& abs_int(actual.left - expected.left) <= allowed
    &&& abs_int(actual.top - expected.top) <= allowed
    &&& abs_int(actual.right - expected.right) <= allowed
    &&& abs_int(actual.bottom - expected.bottom) <= allowed
}

fn apart(a: i32, b: i32) -> (r: i64)
    ensures
        r == abs_int(a - b),
{
    let difference: i64 = a as i64 - b as i64;
    if difference >= 0 {
        difference
    } else {
        -difference
    }
}

/// Whether each edge of a rectangle is at most `tolerance` pixels from where it is expected.
pub fn rect_within_tolerance(actual: Rect, expected: Rect, tolerance: i32) -> (r: bool)
    ensures
        r == close_to(actual, expected, tolerance as int),
{
    let allowed: i64 = max_i32(tolerance, 0) as i64;
    apart(actual.left, expected.left) <= allowed && apart(actual.top, expected.top) <= allowed
        && apart(actual.right, expected.right) <= allowed && apart(actual.bottom, expected.bottom)
        <= allowed
}

/// Whether a rectangle covers an area up to `tolerance` pixels at each edge.
pub open spec fn fills(rect: Rect, area: Rect, tolerance: int) -> bool {
    &&& rect.left <= area.left + tolerance
    &&& rect.top <= area.top + tolerance
    &&& rect.right >= area.right - tolerance
    &&& rect.bottom >= area.bottom - tolerance
}

/// Whether a rectangle fills a monitor or its work area.
pub open spec fn fills_some_monitor(rect: Rect, monitors: Seq<MonitorInfo>, tolerance: int) -> bool {
    exists|i: int|
        0 <= i < monitors.len() && (fills(rect, (#[trigger] monitors[i]).rect, tolerance) || fills(
            rect,
            monitors[i].work_area,
            tolerance,
        ))
}

/// Whether a rectangle covers an area up to `tolerance` pixels at each edge.
pub fn fills_area(rect: Rect, area: Rect, tolerance: i32) -> (r: bool)
    ensures
        r == fills(rect, area, tolerance as int),
{
    let slack: i64 = tolerance as i64;
    rect.left as i64 <= area.left as i64 + slack && rect.top as i64 <= area.top as i64 + slack
        && rect.right as i64 >= area.right as i64 - slack && rect.bottom as i64
        >= area.bottom as i64 - slack
}

/// Whether a rectangle fills a monitor or its work area, up to a tolerance.
pub fn rect_fills_some_monitor(rect: Rect, monitors: &[MonitorInfo], tolerance: i32) -> (r: bool)
    ensures
        r == fills_some_monitor(rect, monitors@, tolerance as int),
{
    let mut index: usize = 0;
    while index < monitors.len()
        invariant
            index <= monitors.len(),
            forall|i: int|
                0 <= i < index ==> !fills(rect, (#[trigger] monitors@[i]).rect, tolerance as int)
                    && !fills(rect, monitors@[i].work_area, tolerance as int),
        decreases monitors.len() - index,
    {
        if fills_area(rect, monitors[index].rect, tolerance) || fills_area(
            rect,
            monitors[index].work_area,
            tolerance,
        ) {
            return true;
        }
        index = index + 1;
    }
    false
}

/// The square of the distance from a point to the middle of a rectangle.
pub open spec fn distance_to_middle(point: Point, rect: Rect) -> int {
    (rect.middle().x - point.x) * (rect.middle().x - point.x) + (rect.middle().y - point.y) * (
    rect.middle().y - point.y)
}

/// The square of the distance from a point to the middle of a rectangle.
pub fn squared_distance_to_center(point: Point, rect: Rect) -> (r: i128)
    ensures
        r == distance_to_middle(point, rect),
        r >= 0,
{
    let center: Point = rect.center();
    let dx: i128 = center.x as i128 - point.x as i128;
    let dy: i128 = center.y as i128 - point.y as i128;
    proof {
        assert(0 <= dx * dx <= 0xffff_ffff * 0xffff_ffff) by (nonlinear_arith)
            requires
                -0xffff_ffff <= dx <= 0xffff_ffff,
        ;
        assert(0 <= dy * dy <= 0xffff_ffff * 0xffff_ffff) by (nonlinear_arith)
            requires
                -0xffff_ffff <= dy <= 0xffff_ffff,
        ;
    }
    dx * dx + dy * dy
}

/// The assignment whose middle is nearest to a point, the first among equals.
pub open spec fn closest(point: Point, assignments: Seq<TileAssignment>) -> Option<TileAssignment>
    decreases assignments.len(),
{
    if assignments.len() == 0 {
        None
    } else {
        let last = assignments.last();
        match closest(point, assignments.drop_last()) {
            None => Some(last),
            Some(best) => if distance_to_middle(point, last.rect) < distance_to_middle(
                point,
                best.rect,
            ) {
                Some(last)
            } else {
                Some(best)
            },
        }
    }
}

/// The assignment whose middle is nearest to a point.
pub fn nearest_assignment(point: Point, assignments: &[TileAssignment]) -> (r: Option<
    TileAssignment,
>)
    ensures
        r == closest(point, assignments@),
{
    let mut best: Option<TileAssignment> = None;
    let mut index: usize = 0;
    while index < assignments.len()
        invariant
            index <= assignments.len(),
            best == closest(point, assignments@.take(index as int)),
        decreases assignments.len() - index,
    {
        proof {
            assert(assignments@.take(index + 1).drop_last() =~= assignments@.take(index as int));
            assert(assignments@.take(index + 1).last() == assignments@[index as int]);
        }
        let assignment: TileAssignment = assignments[index];
        best = match best {
            None => Some(assignment),
            Some(held) => {
                if squared_distance_to_center(point, assignment.rect) < squared_distance_to_center(
                    point,
                    held.rect,
                ) {
                    Some(assignment)
                } else {
                    Some(held)
                }
            },
        };
        index = index + 1;
    }
    proof {
        assert(assignments@.take(index as int) =~= assignments@);
    }
    best
}

} // verus!
