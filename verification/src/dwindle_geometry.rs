//! Where the tiles of a dwindle layout lie.

use vstd::prelude::*;

use crate::dwindle::{cut, dwindle_tree, dwindled, window_ranks, DwindleSplit, DwindleTree};
use crate::geometry::{Point, Rect, WindowHandle};
use crate::layout::{scaled, LayoutConfig, SplitDirection};
use crate::order::{lemma_order_exists, sorted_stably};

verus! {

/// Whether the extents of a rectangle are not negative and fit a coordinate.
pub open spec fn measurable(rect: Rect) -> bool {
    &&& rect.left <= rect.right
    &&& rect.top <= rect.bottom
    &&& rect.right - rect.left <= i32::MAX
    &&& rect.bottom - rect.top <= i32::MAX
}

/// Whether a split in this direction leaves room beside the gap.
pub open spec fn has_room(rect: Rect, direction: SplitDirection, config: LayoutConfig) -> bool {
    if direction is Left || direction is Right {
        rect.right - rect.left > config.gap
    } else {
        rect.bottom - rect.top > config.gap
    }
}

/// Whether every split of the tree has room.
pub open spec fn roomy(tree: DwindleTree, rect: Rect, config: LayoutConfig) -> bool
    decreases tree,
{
    match tree {
        DwindleTree::Leaf(_) => true,
        DwindleTree::Split { direction, existing, new } => {
            let parts = cut(rect, direction, config);
            &&& has_room(rect, direction, config)
            &&& roomy(*existing, parts.0, config)
            &&& roomy(*new, parts.1, config)
        },
    }
}

/// The two parts of a cut with room lie in the rectangle, `gap` pixels apart, and fill it but for
/// the gap.
pub proof fn cut_divides_the_rect(rect: Rect, direction: SplitDirection, config: LayoutConfig)
    requires
        measurable(rect),
        config.is_normal(),
        has_room(rect, direction, config),
    ensures
        ({
            let (kept, taken) = cut(rect, direction, config);
            &&& measurable(kept) && measurable(taken)
            &&& kept.within(rect) && taken.within(rect)
            &&& direction is Right ==> kept.right + config.gap == taken.left && kept.left
                == rect.left && taken.right == rect.right
            &&& direction is Left ==> taken.right + config.gap == kept.left && taken.left
                == rect.left && kept.right == rect.right
            &&& direction is Down ==> kept.bottom + config.gap == taken.top && kept.top == rect.top
                && taken.bottom == rect.bottom
            &&& direction is Up ==> taken.bottom + config.gap == kept.top && taken.top == rect.top
                && kept.bottom == rect.bottom
            &&& direction is Left || direction is Right ==> kept.top == rect.top && kept.bottom
                == rect.bottom && taken.top == rect.top && taken.bottom == rect.bottom
            &&& direction is Up || direction is Down ==> kept.left == rect.left && kept.right
                == rect.right && taken.left == rect.left && taken.right == rect.right
            &&& kept.apart_from(taken)
            &&& taken.apart_from(kept)
        }),
{
    let across = direction is Left || direction is Right;
    let room = if across {
        rect.right - rect.left - config.gap
    } else {
        rect.bottom - rect.top - config.gap
    };
    let percent = config.master_ratio_percent as int;
    assert(0 <= room * percent <= room * 100) by (nonlinear_arith)
        requires
            0 <= room,
            0 <= percent <= 100,
    ;
    assert(0 <= scaled(room, percent) <= room);
}

proof fn lemma_apart_within(a: Rect, outer_a: Rect, b: Rect, outer_b: Rect)
    requires
        a.within(outer_a),
        b.within(outer_b),
        outer_a.apart_from(outer_b),
    ensures
        a.apart_from(b),
{
    assert forall|x: int, y: int| !(#[trigger] a.covers(x, y) && b.covers(x, y)) by {
        assert(a.covers(x, y) ==> outer_a.covers(x, y));
        assert(b.covers(x, y) ==> outer_b.covers(x, y));
    }
}

proof fn lemma_tiles_apart(tree: DwindleTree, rect: Rect, config: LayoutConfig)
    requires
        measurable(rect),
        config.is_normal(),
        roomy(tree, rect, config),
    ensures
        forall|i: int|
            0 <= i < tree.tiles(rect, config).len() ==> (#[trigger] tree.tiles(
                rect,
                config,
            )[i]).rect.within(rect),
        forall|i: int, j: int|
            0 <= i < tree.tiles(rect, config).len() && 0 <= j < tree.tiles(rect, config).len() && i
                != j ==> (#[trigger] tree.tiles(rect, config)[i]).rect.apart_from(
                (#[trigger] tree.tiles(rect, config)[j]).rect,
            ),
    decreases tree,
{
    match tree {
        DwindleTree::Leaf(_) => {},
        DwindleTree::Split { direction, existing, new } => {
            let parts = cut(rect, direction, config);
            cut_divides_the_rect(rect, direction, config);
            lemma_tiles_apart(*existing, parts.0, config);
            lemma_tiles_apart(*new, parts.1, config);
            let a = existing.tiles(parts.0, config);
            let b = new.tiles(parts.1, config);
            let all = tree.tiles(rect, config);
            assert(all == a + b);
            assert forall|i: int| 0 <= i < all.len() implies (#[trigger] all[i]).rect.within(
                rect,
            ) by {
                if i < a.len() {
                    assert(all[i] == a[i]);
                } else {
                    assert(all[i] == b[i - a.len()]);
                }
            }
            assert forall|i: int, j: int|
                0 <= i < all.len() && 0 <= j < all.len() && i
                    != j implies (#[trigger] all[i]).rect.apart_from((#[trigger] all[j]).rect) by {
                if i < a.len() && j < a.len() {
                    assert(all[i] == a[i] && all[j] == a[j]);
                } else if i >= a.len() && j >= a.len() {
                    assert(all[i] == b[i - a.len()] && all[j] == b[j - a.len()]);
                } else if i < a.len() {
                    assert(all[i] == a[i] && all[j] == b[j - a.len()]);
                    lemma_apart_within(a[i].rect, parts.0, b[j - a.len()].rect, parts.1);
                } else {
                    assert(all[i] == b[i - a.len()] && all[j] == a[j]);
                    lemma_apart_within(b[i - a.len()].rect, parts.1, a[j].rect, parts.0);
                }
            }
        },
    }
}

proof fn lemma_shrunk_within(rect: Rect, amount: int)
    requires
        amount >= 0,
    ensures
        rect.shrunk(amount).within(rect),
{
}

/// Where every split has room, the tiles lie in the work area and no two of them overlap.
pub proof fn dwindle_tiles_are_apart(
    work_area: Rect,
    windows: Seq<WindowHandle>,
    config: LayoutConfig,
    cursor_position: Option<Point>,
    splits: Seq<DwindleSplit>,
)
    requires
        measurable(work_area),
        ({
            let normal = config.spec_normalized();
            let outer = work_area.shrunk(normal.gap as int);
            roomy(dwindle_tree(outer, windows, normal, cursor_position, splits), outer, normal)
        }),
    ensures
        ({
            let placed = dwindled(work_area, windows, config, cursor_position, splits);
            &&& forall|i: int|
                0 <= i < placed.len() ==> (#[trigger] placed[i]).rect.within(work_area)
            &&& forall|i: int, j: int|
                0 <= i < j < placed.len() ==> (#[trigger] placed[i]).rect.apart_from(
                    (#[trigger] placed[j]).rect,
                )
        }),
{
    let normal = config.spec_normalized();
    let outer = work_area.shrunk(normal.gap as int);
    let placed = dwindled(work_area, windows, config, cursor_position, splits);
    if !work_area.covers_nothing() && windows.len() > 1 {
        let tree = dwindle_tree(outer, windows, normal, cursor_position, splits);
        let tiles = tree.tiles(outer, normal);
        lemma_tiles_apart(tree, outer, normal);
        let ranks = window_ranks(tiles, windows);
        let order = lemma_order_exists(ranks);
        crate::order::lemma_stable_order(order, ranks);
        let sorted = sorted_stably(tiles, ranks);
        assert forall|i: int| 0 <= i < placed.len() implies (#[trigger] placed[i]).rect.within(
            work_area,
        ) by {
            let at = order[i];
            assert(sorted[i] == tiles[at]);
            assert(tiles[at].rect.within(outer));
            lemma_shrunk_within(tiles[at].rect, normal.border as int);
        }
        assert forall|i: int, j: int|
            0 <= i < j < placed.len() implies (#[trigger] placed[i]).rect.apart_from(
            (#[trigger] placed[j]).rect,
        ) by {
            let a = order[i];
            let b = order[j];
            assert(crate::order::comes_before(ranks, a, b));
            assert(sorted[i] == tiles[a] && sorted[j] == tiles[b]);
            assert(tiles[a].rect.apart_from(tiles[b].rect));
            lemma_shrunk_within(tiles[a].rect, normal.border as int);
            lemma_shrunk_within(tiles[b].rect, normal.border as int);
            lemma_apart_within(placed[i].rect, tiles[a].rect, placed[j].rect, tiles[b].rect);
        }
    }
}

/// The tile of a window of the tree when the tree takes `rect`.
pub open spec fn tile_of(tree: DwindleTree, rect: Rect, config: LayoutConfig, window: WindowHandle) -> Rect
    decreases tree,
{
    match tree {
        DwindleTree::Leaf(_) => rect,
        DwindleTree::Split { direction, existing, new } => {
            let parts = cut(rect, direction, config);
            if existing.holds(window) {
                tile_of(*existing, parts.0, config, window)
            } else {
                tile_of(*new, parts.1, config, window)
            }
        },
    }
}

/// A window that joins a layout takes its tile from the split window alone: the two share the tile
/// that the one had, and every other window stays where it was.
pub proof fn joining_moves_one_window(
    tree: DwindleTree,
    rect: Rect,
    config: LayoutConfig,
    split: DwindleSplit,
)
    requires
        crate::dwindle_laws::distinct_leaves(tree),
        tree.holds(split.target),
        !tree.holds(split.new_window),
    ensures
        ({
            let after = tree.with_split(split);
            let shared = cut(tile_of(tree, rect, config, split.target), split.direction, config);
            &&& tile_of(after, rect, config, split.target) == shared.0
            &&& tile_of(after, rect, config, split.new_window) == shared.1
            &&& forall|w: WindowHandle|
                tree.holds(w) && w != split.target ==> #[trigger] tile_of(after, rect, config, w)
                    == tile_of(tree, rect, config, w)
        }),
    decreases tree,
{
    let after = tree.with_split(split);
    match tree {
        DwindleTree::Leaf(leaf) => {
            let first = DwindleTree::Leaf(split.target);
            let second = DwindleTree::Leaf(split.new_window);
            assert(after == DwindleTree::Split {
                direction: split.direction,
                existing: Box::new(first),
                new: Box::new(second),
            });
            let parts = cut(rect, split.direction, config);
            assert(first.holds(split.target) && !first.holds(split.new_window));
            assert(tile_of(first, parts.0, config, split.target) == parts.0);
            assert(tile_of(second, parts.1, config, split.new_window) == parts.1);
            assert forall|w: WindowHandle|
                tree.holds(w) && w != split.target implies #[trigger] tile_of(
                after,
                rect,
                config,
                w,
            ) == tile_of(tree, rect, config, w) by {
                assert(w == leaf);
            }
        },
        DwindleTree::Split { direction, existing, new } => {
            let parts = cut(rect, direction, config);
            crate::dwindle_laws::lemma_parts_are_distinct(direction, *existing, *new);
            if existing.holds(split.target) {
                joining_moves_one_window(*existing, parts.0, config, split);
                crate::dwindle_laws::lemma_with_split(*existing, split);
                let side = existing.with_split(split);
                assert(side.holds(split.target) && side.holds(split.new_window));
                assert forall|w: WindowHandle|
                    tree.holds(w) && w != split.target implies #[trigger] tile_of(
                    after,
                    rect,
                    config,
                    w,
                ) == tile_of(tree, rect, config, w) by {
                    assert(side.holds(w) <==> existing.holds(w) || w == split.new_window);
                    if existing.holds(w) {
                        assert(tile_of(side, parts.0, config, w) == tile_of(
                            *existing,
                            parts.0,
                            config,
                            w,
                        ));
                    }
                }
            } else {
                joining_moves_one_window(*new, parts.1, config, split);
                let side = new.with_split(split);
                assert forall|w: WindowHandle|
                    tree.holds(w) && w != split.target implies #[trigger] tile_of(
                    after,
                    rect,
                    config,
                    w,
                ) == tile_of(tree, rect, config, w) by {
                    if !existing.holds(w) {
                        assert(tile_of(side, parts.1, config, w) == tile_of(
                            *new,
                            parts.1,
                            config,
                            w,
                        ));
                    }
                }
            }
        },
    }
}

} // verus!
