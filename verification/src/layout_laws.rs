//! What operations on a monitor's layout undo and what they keep.

use vstd::prelude::*;

use crate::geometry::{Point, Rect, TileAssignment, WindowHandle};
use crate::handles::{first_position, lemma_position, lemma_position_is};
use crate::layout::{LayoutDirection, WindowParticipation};
use crate::monitor_layout::{beside, LayoutView};

verus! {

/// The direction that leads back.
pub open spec fn opposite(direction: LayoutDirection) -> LayoutDirection {
    match direction {
        LayoutDirection::Left => LayoutDirection::Right,
        LayoutDirection::Right => LayoutDirection::Left,
        LayoutDirection::Up => LayoutDirection::Down,
        LayoutDirection::Down => LayoutDirection::Up,
    }
}

/// A tiled window that is made to float, for good or for a drag, and is tiled again leaves the
/// layout as it was.
pub proof fn tiling_again_restores_the_layout(
    layout: LayoutView,
    window: WindowHandle,
    floating: WindowParticipation,
)
    requires
        layout.participation(window) is Tiled,
        layout.wf(),
    ensures
        layout.with_participation(window, floating).with_participation(
            window,
            WindowParticipation::Tiled,
        ) == layout,
{
    assert(!layout.floating.contains_key(window.0));
    assert(layout.floating.insert(window.0, floating).remove(window.0) =~= layout.floating);
    assert(layout.floating.remove(window.0) =~= layout.floating);
    assert(layout.floating.remove(window.0).remove(window.0) =~= layout.floating);
}

/// How other windows take part in tiling does not change with one window.
pub proof fn participation_of_others_stays(
    layout: LayoutView,
    window: WindowHandle,
    other: WindowHandle,
    participation: WindowParticipation,
)
    requires
        other != window,
    ensures
        layout.with_participation(window, participation).participation(other)
            == layout.participation(other),
        layout.with_participation(window, participation).participation(window) == participation,
{
}

/// Focus that moves one way and then back is where it was.
pub proof fn focus_moves_back(layout: LayoutView, direction: LayoutDirection)
    requires
        layout.wf(),
        layout.focused is Some,
    ensures
        layout.neighbor(layout.neighbor(layout.focused, direction), opposite(direction))
            == layout.focused,
{
    let window = layout.focused->0;
    lemma_position(layout.windows, window, 0);
    let from = first_position(layout.windows, window)->0;
    let len = layout.windows.len() as int;
    let to = beside(from, len, direction);
    let target = layout.windows[to];
    lemma_position_is(layout.windows, target, to);
}

/// Two windows that are swapped one way and then back are where they were.
pub proof fn swapping_back_restores_the_order(windows: Seq<WindowHandle>, from: int, to: int)
    requires
        0 <= from < windows.len(),
        0 <= to < windows.len(),
    ensures
        ({
            let swapped = windows.update(from, windows[to]).update(to, windows[from]);
            swapped.update(to, swapped[from]).update(from, swapped[to]) == windows
        }),
{
    let swapped = windows.update(from, windows[to]).update(to, windows[from]);
    assert(swapped.update(to, swapped[from]).update(from, swapped[to]) =~= windows);
}

/// A window that is added and taken out again leaves the order, the focus and the floating windows
/// as they were.
pub proof fn removing_undoes_inserting(layout: LayoutView, window: WindowHandle)
    requires
        layout.wf(),
        !layout.windows.contains(window),
    ensures
        layout.with_window(window).without_window(window) == layout,
{
    let added = layout.with_window(window);
    let last = layout.windows.len() as int;
    assert(added.windows[last] == window);
    assert forall|j: int| 0 <= j < last implies added.windows[j] != window by {
        assert(layout.windows.contains(layout.windows[j]));
    }
    lemma_position_is(added.windows, window, last);
    assert(added.windows.remove(last) =~= layout.windows);
    assert(!layout.floating.contains_key(window.0)) by {
        if layout.floating.contains_key(window.0) {
            assert(layout.windows.contains(WindowHandle(window.0)));
        }
    }
    assert(layout.floating.remove(window.0) =~= layout.floating);
}

/// Floating windows are given no tile: every tile of the layout is for a window that is tiled.
pub proof fn floating_windows_get_no_tile(
    layout: LayoutView,
    work_area: Rect,
    cursor_position: Option<Point>,
    at: int,
)
    requires
        layout.wf(),
        layout.windows.len() <= usize::MAX,
        0 <= at < layout.tiles(work_area, cursor_position).len(),
    ensures
        ({
            let window = layout.tiles(work_area, cursor_position)[at].window;
            layout.windows.contains(window) && layout.participation(window) is Tiled
        }),
{
    let tiled = layout.tiled();
    let placed = layout.tiles(work_area, cursor_position);
    lemma_tiled_windows(layout);
    if layout.config.kind is Dwindle {
        if !work_area.covers_nothing() {
            crate::dwindle_laws::dwindle_places_each_window(
                work_area,
                tiled,
                layout.config,
                cursor_position,
                layout.splits,
            );
            let windows = placed.map_values(|tile: TileAssignment| tile.window);
            assert(windows[at] == placed[at].window);
            assert(tiled[at] == placed[at].window);
        }
    } else {
        assert(placed[at].window == tiled[at]);
    }
    assert(tiled.contains(tiled[at]));
}

/// The tiled windows are distinct windows of the layout.
pub proof fn lemma_tiled_windows(layout: LayoutView)
    requires
        layout.wf(),
    ensures
        layout.tiled().no_duplicates(),
        layout.tiled().len() <= layout.windows.len(),
        forall|w: WindowHandle| #[trigger]
            layout.tiled().contains(w) <==> layout.windows.contains(w) && layout.participation(w)
                is Tiled,
{
    let pred = |window: WindowHandle| layout.participation(window) is Tiled;
    lemma_filter(layout.windows, pred);
}

/// A filtered list without duplicates has none, and holds what the list holds and the filter keeps.
pub proof fn lemma_filter(windows: Seq<WindowHandle>, pred: spec_fn(WindowHandle) -> bool)
    requires
        windows.no_duplicates(),
    ensures
        windows.filter(pred).no_duplicates(),
        windows.filter(pred).len() <= windows.len(),
        forall|w: WindowHandle| #[trigger]
            windows.filter(pred).contains(w) <==> windows.contains(w) && pred(w),
    decreases windows.len(),
{
    reveal(Seq::filter);
    if windows.len() > 0 {
        let rest = windows.drop_last();
        let kept = rest.filter(pred);
        let all = windows.filter(pred);
        lemma_filter(rest, pred);
        assert forall|w: WindowHandle| #[trigger]
            all.contains(w) <==> windows.contains(w) && pred(w) by {
            assert(kept.contains(w) <==> rest.contains(w) && pred(w));
            if rest.contains(w) {
                let i = rest.index_of(w);
                assert(windows[i] == w);
            }
            if windows.contains(w) && w != windows.last() {
                let i = windows.index_of(w);
                assert(rest[i] == w);
            }
            assert(windows[windows.len() - 1] == windows.last());
            if kept.contains(w) {
                let i = kept.index_of(w);
                assert(all[i] == w);
            }
            if pred(windows.last()) {
                assert(all[kept.len() as int] == windows.last());
            }
            if all.contains(w) {
                let i = all.index_of(w);
                if i < kept.len() {
                    assert(kept[i] == w);
                }
            }
        }
        if pred(windows.last()) {
            assert(!kept.contains(windows.last())) by {
                if kept.contains(windows.last()) {
                    assert(rest.contains(windows.last()));
                    let i = rest.index_of(windows.last());
                    assert(windows[i] == windows[windows.len() - 1]);
                }
            }
            assert forall|i: int, j: int| 0 <= i < all.len() && 0 <= j < all.len() && i
                != j implies all[i] != all[j] by {
                if i < kept.len() && j < kept.len() {
                    assert(kept[i] != kept[j]);
                } else if i < kept.len() {
                    assert(kept.contains(kept[i]));
                } else if j < kept.len() {
                    assert(kept.contains(kept[j]));
                }
            }
        }
    }
}

} // verus!
