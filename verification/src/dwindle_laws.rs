//! What holds of every dwindle layout.

use vstd::prelude::*;

use crate::dwindle::{
    dwindle_memory, dwindle_tree, dwindled, grown, joining_split, lemma_holds_leaves,
    lemma_tiles_are_leaves, missing_count, never_new, remembered_tree, root_of, root_target,
    split_target, tile_under, window_ranks, DwindleSplit, DwindleTree,
};
use crate::geometry::{Point, Rect, TileAssignment, WindowHandle};
use crate::handles::lemma_position;
use crate::layout::{LayoutConfig, SplitDirection};
use crate::order::{lemma_order_exists, sorted_stably, stably_sorts};

verus! {

/// The windows that splits bring in.
pub open spec fn new_windows(splits: Seq<DwindleSplit>) -> Seq<WindowHandle> {
    splits.map_values(|split: DwindleSplit| split.new_window)
}

/// Whether no window is in the tree twice.
pub open spec fn distinct_leaves(tree: DwindleTree) -> bool {
    tree.leaves().no_duplicates()
}

pub proof fn lemma_parts_are_distinct(direction: SplitDirection, existing: DwindleTree, new: DwindleTree)
    requires
        distinct_leaves(
            DwindleTree::Split { direction, existing: Box::new(existing), new: Box::new(new) },
        ),
    ensures
        distinct_leaves(existing),
        distinct_leaves(new),
        forall|w: WindowHandle| !(#[trigger] existing.holds(w) && new.holds(w)),
{
    let first = existing.leaves();
    let second = new.leaves();
    let all = first + second;
    assert forall|i: int, j: int| 0 <= i < first.len() && 0 <= j < first.len() && i != j implies first[i]
        != first[j] by {
        assert(all[i] == first[i] && all[j] == first[j]);
    }
    assert forall|i: int, j: int| 0 <= i < second.len() && 0 <= j < second.len() && i != j implies second[i]
        != second[j] by {
        assert(all[first.len() + i] == second[i] && all[first.len() + j] == second[j]);
    }
    assert forall|w: WindowHandle| !(#[trigger] existing.holds(w) && new.holds(w)) by {
        lemma_holds_leaves(existing, w);
        lemma_holds_leaves(new, w);
        if existing.holds(w) && new.holds(w) {
            let i = first.index_of(w);
            let j = second.index_of(w);
            assert(all[i] == w && all[first.len() + j] == w);
        }
    }
}

proof fn lemma_joined_is_distinct(direction: SplitDirection, existing: DwindleTree, new: DwindleTree)
    requires
        distinct_leaves(existing),
        distinct_leaves(new),
        forall|w: WindowHandle| !(#[trigger] existing.holds(w) && new.holds(w)),
    ensures
        distinct_leaves(
            DwindleTree::Split { direction, existing: Box::new(existing), new: Box::new(new) },
        ),
{
    let first = existing.leaves();
    let second = new.leaves();
    let all = first + second;
    assert forall|i: int, j: int| 0 <= i < all.len() && 0 <= j < all.len() && i != j implies all[i]
        != all[j] by {
        lemma_holds_leaves(existing, all[i]);
        lemma_holds_leaves(new, all[i]);
        lemma_holds_leaves(existing, all[j]);
        lemma_holds_leaves(new, all[j]);
        if i < first.len() {
            assert(all[i] == first[i]);
        } else {
            assert(all[i] == second[i - first.len()]);
        }
        if j < first.len() {
            assert(all[j] == first[j]);
        } else {
            assert(all[j] == second[j - first.len()]);
        }
    }
}

/// What a graft does to the leaves.
proof fn lemma_graft(tree: DwindleTree, split: DwindleSplit)
    requires
        !tree.holds(split.new_window),
        distinct_leaves(tree),
    ensures
        forall|w: WindowHandle|
            #[trigger] tree.grafted(split).holds(w) <==> tree.holds(w) || (w == split.new_window
                && tree.holds(split.target)),
        distinct_leaves(tree.grafted(split)),
    decreases tree,
{
    match tree {
        DwindleTree::Leaf(leaf) => {
            assert(tree.holds(split.target) <==> leaf == split.target);
            if leaf == split.target {
                let first = DwindleTree::Leaf(split.target);
                let second = DwindleTree::Leaf(split.new_window);
                assert(tree.grafted(split) == DwindleTree::Split {
                    direction: split.direction,
                    existing: Box::new(first),
                    new: Box::new(second),
                });
                assert forall|w: WindowHandle| #[trigger]
                    tree.grafted(split).holds(w) <==> tree.holds(w) || (w == split.new_window
                        && tree.holds(split.target)) by {
                    assert(first.holds(w) <==> w == split.target);
                    assert(second.holds(w) <==> w == split.new_window);
                }
                lemma_joined_is_distinct(split.direction, first, second);
            }
        },
        DwindleTree::Split { direction, existing, new } => {
            lemma_parts_are_distinct(direction, *existing, *new);
            if existing.holds(split.target) {
                lemma_graft(*existing, split);
                assert forall|w: WindowHandle| #[trigger]
                    tree.grafted(split).holds(w) <==> tree.holds(w) || (w == split.new_window
                        && tree.holds(split.target)) by {
                    assert(existing.grafted(split).holds(w) <==> existing.holds(w) || (w
                        == split.new_window && existing.holds(split.target)));
                }
                lemma_joined_is_distinct(direction, existing.grafted(split), *new);
            } else {
                lemma_graft(*new, split);
                assert forall|w: WindowHandle| #[trigger]
                    tree.grafted(split).holds(w) <==> tree.holds(w) || (w == split.new_window
                        && tree.holds(split.target)) by {
                    assert(new.grafted(split).holds(w) <==> new.holds(w) || (w == split.new_window
                        && new.holds(split.target)));
                }
                lemma_joined_is_distinct(direction, *existing, new.grafted(split));
            }
        },
    }
}

pub proof fn lemma_with_split(tree: DwindleTree, split: DwindleSplit)
    requires
        distinct_leaves(tree),
    ensures
        distinct_leaves(tree.with_split(split)),
        forall|w: WindowHandle|
            #[trigger] tree.with_split(split).holds(w) <==> tree.holds(w) || (w == split.new_window
                && tree.holds(split.target)),
{
    if !tree.holds(split.new_window) {
        lemma_graft(tree, split);
    }
}

proof fn lemma_with_splits_distinct(tree: DwindleTree, splits: Seq<DwindleSplit>)
    requires
        distinct_leaves(tree),
    ensures
        distinct_leaves(tree.with_splits(splits)),
    decreases splits.len(),
{
    if splits.len() > 0 {
        lemma_with_splits_distinct(tree, splits.drop_last());
        lemma_with_split(tree.with_splits(splits.drop_last()), splits.last());
    }
}

/// Pruning keeps exactly the leaves that are among the windows, in their order.
pub proof fn pruning_keeps_the_rest(tree: DwindleTree, windows: Seq<WindowHandle>)
    ensures
        match tree.pruned(windows) {
            Some(rest) => rest.leaves() == tree.leaves().filter(
                |w: WindowHandle| windows.contains(w),
            ),
            None => tree.leaves().filter(|w: WindowHandle| windows.contains(w)).len() == 0,
        },
    decreases tree,
{
    let keep = |w: WindowHandle| windows.contains(w);
    match tree {
        DwindleTree::Leaf(leaf) => {
            let one = seq![leaf];
            assert(one.drop_last() =~= Seq::empty());
            reveal_with_fuel(Seq::filter, 2);
            if keep(leaf) {
                assert(one.filter(keep) =~= one);
            }
        },
        DwindleTree::Split { existing, new, .. } => {
            pruning_keeps_the_rest(*existing, windows);
            pruning_keeps_the_rest(*new, windows);
            Seq::filter_distributes_over_add(existing.leaves(), new.leaves(), keep);
        },
    }
}

/// Pruning with all leaves among the windows changes nothing.
proof fn lemma_prune_nothing(tree: DwindleTree, windows: Seq<WindowHandle>)
    requires
        forall|w: WindowHandle| #[trigger] tree.holds(w) ==> windows.contains(w),
    ensures
        tree.pruned(windows) == Some(tree),
    decreases tree,
{
    match tree {
        DwindleTree::Leaf(leaf) => {
            assert(tree.holds(leaf));
        },
        DwindleTree::Split { existing, new, .. } => {
            assert forall|w: WindowHandle| #[trigger] existing.holds(w) implies windows.contains(
                w,
            ) by {
                assert(tree.holds(w));
            }
            assert forall|w: WindowHandle| #[trigger] new.holds(w) implies windows.contains(w) by {
                assert(tree.holds(w));
            }
            lemma_prune_nothing(*existing, windows);
            lemma_prune_nothing(*new, windows);
        },
    }
}

proof fn lemma_pruned(tree: DwindleTree, windows: Seq<WindowHandle>)
    requires
        distinct_leaves(tree),
    ensures
        tree.pruned(windows) matches Some(rest) ==> {
            &&& distinct_leaves(rest)
            &&& forall|w: WindowHandle| #[trigger]
                rest.holds(w) ==> windows.contains(w) && tree.holds(w)
        },
    decreases tree,
{
    match tree {
        DwindleTree::Leaf(leaf) => {
            assert forall|w: WindowHandle| #[trigger] tree.holds(w) implies w == leaf by {}
        },
        DwindleTree::Split { direction, existing, new } => {
            lemma_parts_are_distinct(direction, *existing, *new);
            lemma_pruned(*existing, windows);
            lemma_pruned(*new, windows);
            match (existing.pruned(windows), new.pruned(windows)) {
                (Some(first), Some(second)) => {
                    lemma_joined_is_distinct(direction, first, second);
                },
                _ => {},
            }
            if let Some(rest) = tree.pruned(windows) {
                assert forall|w: WindowHandle| #[trigger] rest.holds(w) implies windows.contains(w)
                    && tree.holds(w) by {
                    if let Some(first) = existing.pruned(windows) {
                        assert(first.holds(w) ==> existing.holds(w) && windows.contains(w));
                    }
                    if let Some(second) = new.pruned(windows) {
                        assert(second.holds(w) ==> new.holds(w) && windows.contains(w));
                    }
                }
            }
        },
    }
}

/// The tree that is remembered holds each window once, and only windows that are there.
proof fn lemma_remembered(windows: Seq<WindowHandle>, splits: Seq<DwindleSplit>)
    requires
        windows.len() > 0,
    ensures
        distinct_leaves(remembered_tree(windows, splits)),
        forall|w: WindowHandle| #[trigger]
            remembered_tree(windows, splits).holds(w) ==> windows.contains(w),
{
    let root = DwindleTree::Leaf(root_of(windows, splits));
    lemma_with_splits_distinct(root, splits);
    lemma_pruned(root.with_splits(splits), windows);
    assert(windows.contains(windows[0]));
}

proof fn lemma_tile_under(tiles: Seq<TileAssignment>, point: Point, from: int)
    requires
        0 <= from,
    ensures
        tile_under(tiles, point, from) matches Some(tile) ==> exists|i: int|
            0 <= i < tiles.len() && #[trigger] tiles[i] == tile,
    decreases tiles.len() - from,
{
    if from < tiles.len() {
        if !tiles[from].rect.covers(point.x as int, point.y as int) {
            lemma_tile_under(tiles, point, from + 1);
        }
    }
}

/// The target of a joining split is in the tree.
proof fn lemma_joining_target(
    tree: DwindleTree,
    window: WindowHandle,
    outer: Rect,
    config: LayoutConfig,
    smart: bool,
    cursor_position: Option<Point>,
)
    ensures
        tree.holds(joining_split(tree, window, outer, config, smart, cursor_position).target),
{
    let tiles = tree.tiles(outer, config);
    lemma_tiles_are_leaves(tree, outer, config);
    let target = split_target(tiles, smart, cursor_position);
    if let Some(point) = cursor_position {
        lemma_tile_under(tiles, point, 0);
    }
    assert(tiles[tiles.len() - 1] == tiles.last());
    let at = choose|i: int| 0 <= i < tiles.len() && #[trigger] tiles[i] == target;
    assert(tree.leaves()[at] == target.window);
    lemma_holds_leaves(tree, target.window);
}

proof fn lemma_grown(
    tree: DwindleTree,
    windows: Seq<WindowHandle>,
    outer: Rect,
    config: LayoutConfig,
    smart: bool,
    cursor_position: Option<Point>,
)
    requires
        distinct_leaves(tree),
    ensures
        ({
            let after = grown(tree, windows, outer, config, smart, cursor_position);
            &&& distinct_leaves(after)
            &&& forall|w: WindowHandle| #[trigger]
                after.holds(w) <==> tree.holds(w) || windows.contains(w)
        }),
    decreases windows.len(),
{
    if windows.len() > 0 {
        let rest = windows.drop_last();
        let before = grown(tree, rest, outer, config, smart, cursor_position);
        let after = grown(tree, windows, outer, config, smart, cursor_position);
        lemma_grown(tree, rest, outer, config, smart, cursor_position);
        let split = joining_split(before, windows.last(), outer, config, smart, cursor_position);
        lemma_joining_target(before, windows.last(), outer, config, smart, cursor_position);
        lemma_with_split(before, split);
        assert forall|w: WindowHandle| #[trigger]
            after.holds(w) <==> tree.holds(w) || windows.contains(w) by {
            assert(before.holds(w) <==> tree.holds(w) || rest.contains(w));
            if rest.contains(w) {
                let i = rest.index_of(w);
                assert(windows[i] == w);
            }
            if windows.contains(w) && w != windows.last() {
                let i = windows.index_of(w);
                assert(rest[i] == w);
            }
            assert(windows[windows.len() - 1] == windows.last());
            if !before.holds(windows.last()) {
                assert(before.with_split(split).holds(w) <==> before.holds(w) || w
                    == windows.last());
            }
        }
    }
}

/// The tree of a layout holds exactly the windows that are there, each once.
pub proof fn tree_holds_the_windows(
    outer: Rect,
    windows: Seq<WindowHandle>,
    config: LayoutConfig,
    cursor_position: Option<Point>,
    splits: Seq<DwindleSplit>,
)
    requires
        windows.len() > 0,
    ensures
        ({
            let tree = dwindle_tree(outer, windows, config, cursor_position, splits);
            &&& distinct_leaves(tree)
            &&& forall|w: WindowHandle| #[trigger] tree.holds(w) <==> windows.contains(w)
        }),
{
    let start = remembered_tree(windows, splits);
    let smart = config.smart_split && missing_count(start, windows) == 1;
    lemma_remembered(windows, splits);
    lemma_grown(start, windows, outer, config, smart, cursor_position);
    let tree = dwindle_tree(outer, windows, config, cursor_position, splits);
    assert forall|w: WindowHandle| #[trigger] tree.holds(w) <==> windows.contains(w) by {
        assert(start.holds(w) ==> windows.contains(w));
    }
}

/// Integers that rise strictly through a range of as many values are the range.
proof fn lemma_rising_is_identity(values: Seq<int>, i: int)
    requires
        forall|a: int| 0 <= a < values.len() ==> 0 <= #[trigger] values[a] < values.len(),
        forall|a: int, b: int|
            0 <= a < b < values.len() ==> #[trigger] values[a] < #[trigger] values[b],
        0 <= i < values.len(),
    ensures
        values[i] == i,
{
    lemma_rising_from_below(values, i);
    lemma_rising_from_above(values, i);
}

proof fn lemma_rising_from_below(values: Seq<int>, i: int)
    requires
        forall|a: int| 0 <= a < values.len() ==> 0 <= #[trigger] values[a] < values.len(),
        forall|a: int, b: int|
            0 <= a < b < values.len() ==> #[trigger] values[a] < #[trigger] values[b],
        0 <= i < values.len(),
    ensures
        values[i] >= i,
    decreases i,
{
    if i > 0 {
        lemma_rising_from_below(values, i - 1);
    }
}

proof fn lemma_rising_from_above(values: Seq<int>, i: int)
    requires
        forall|a: int| 0 <= a < values.len() ==> 0 <= #[trigger] values[a] < values.len(),
        forall|a: int, b: int|
            0 <= a < b < values.len() ==> #[trigger] values[a] < #[trigger] values[b],
        0 <= i < values.len(),
    ensures
        values[i] <= i,
    decreases values.len() - i,
{
    if i < values.len() - 1 {
        lemma_rising_from_above(values, i + 1);
    }
}

/// Tiles that stand for the windows, each for one, come out of the sort in window order.
proof fn lemma_sorted_tiles(tiles: Seq<TileAssignment>, windows: Seq<WindowHandle>, order: Seq<int>)
    requires
        windows.no_duplicates(),
        tiles.len() == windows.len(),
        windows.len() <= usize::MAX,
        forall|i: int| 0 <= i < tiles.len() ==> windows.contains((#[trigger] tiles[i]).window),
        forall|i: int, j: int|
            0 <= i < j < tiles.len() ==> (#[trigger] tiles[i]).window != (#[trigger] tiles[j]).window,
        stably_sorts(order, window_ranks(tiles, windows)),
    ensures
        forall|i: int|
            0 <= i < tiles.len() ==> (#[trigger] sorted_stably(
                tiles,
                window_ranks(tiles, windows),
            )[i]).window == windows[i],
{
    let ranks = window_ranks(tiles, windows);
    crate::order::lemma_stable_order(order, ranks);
    assert forall|i: int| 0 <= i < tiles.len() implies {
        &&& 0 <= #[trigger] ranks[i] < windows.len()
        &&& windows[ranks[i]] == tiles[i].window
    } by {
        lemma_position(windows, tiles[i].window, 0);
        assert(windows.contains(tiles[i].window));
    }
    let values = Seq::new(order.len(), |a: int| ranks[order[a]]);
    assert forall|a: int| 0 <= a < values.len() implies 0 <= #[trigger] values[a] < values.len() by {
        let at = order[a];
        assert(0 <= ranks[at] < windows.len());
    }
    assert forall|a: int, b: int| 0 <= a < b < values.len() implies #[trigger] values[a]
        < #[trigger] values[b] by {
        let x = order[a];
        let y = order[b];
        assert(crate::order::comes_before(ranks, x, y));
        if ranks[x] == ranks[y] {
            assert(windows[ranks[x]] == tiles[x].window);
            assert(windows[ranks[y]] == tiles[y].window);
            if x < y {
                assert(tiles[x].window != tiles[y].window);
            } else {
                assert(tiles[y].window != tiles[x].window);
            }
        }
    }
    assert forall|i: int| 0 <= i < tiles.len() implies (#[trigger] sorted_stably(
        tiles,
        ranks,
    )[i]).window == windows[i] by {
        lemma_rising_is_identity(values, i);
        let at = order[i];
        assert(windows[ranks[at]] == tiles[at].window);
    }
}

/// Every window of a list without repetitions gets one tile, in the order of the list.
pub proof fn dwindle_places_each_window(
    work_area: Rect,
    windows: Seq<WindowHandle>,
    config: LayoutConfig,
    cursor_position: Option<Point>,
    splits: Seq<DwindleSplit>,
)
    requires
        !work_area.covers_nothing(),
        windows.no_duplicates(),
        windows.len() <= usize::MAX,
    ensures
        dwindled(work_area, windows, config, cursor_position, splits).map_values(
            |tile: TileAssignment| tile.window,
        ) == windows,
{
    let normal = config.spec_normalized();
    let outer = work_area.shrunk(normal.gap as int);
    let placed = dwindled(work_area, windows, config, cursor_position, splits);
    if windows.len() > 1 {
        let tree = dwindle_tree(outer, windows, normal, cursor_position, splits);
        tree_holds_the_windows(outer, windows, normal, cursor_position, splits);
        lemma_tiles_are_leaves(tree, outer, normal);
        let tiles = tree.tiles(outer, normal);
        let leaves = tree.leaves();
        assert forall|w: WindowHandle| leaves.contains(w) <==> windows.contains(w) by {
            lemma_holds_leaves(tree, w);
            assert(tree.holds(w) <==> windows.contains(w));
        }
        leaves.unique_seq_to_set();
        windows.unique_seq_to_set();
        assert(leaves.to_set() =~= windows.to_set());
        let ranks = window_ranks(tiles, windows);
        let order = lemma_order_exists(ranks);
        assert forall|i: int| 0 <= i < tiles.len() implies windows.contains(
            (#[trigger] tiles[i]).window,
        ) by {
            assert(leaves.contains(leaves[i]));
        }
        assert forall|i: int, j: int| 0 <= i < j < tiles.len() implies (#[trigger] tiles[i]).window
            != (#[trigger] tiles[j]).window by {
            assert(leaves[i] != leaves[j]);
        }
        lemma_sorted_tiles(tiles, windows, order);
        assert forall|i: int| 0 <= i < windows.len() implies (#[trigger] placed[i]).window
            == windows[i] by {
            assert(sorted_stably(tiles, ranks)[i].window == windows[i]);
        }
    }
    assert(placed.map_values(|tile: TileAssignment| tile.window) =~= windows);
}

/// Splits that do not touch the new side leave it alone.
proof fn lemma_splits_in_existing(
    direction: SplitDirection,
    existing: DwindleTree,
    new: DwindleTree,
    splits: Seq<DwindleSplit>,
)
    requires
        forall|i: int|
            0 <= i < splits.len() ==> !new.holds((#[trigger] splits[i]).target) && !new.holds(
                splits[i].new_window,
            ),
    ensures
        (DwindleTree::Split { direction, existing: Box::new(existing), new: Box::new(new) }).with_splits(
            splits,
        ) == (DwindleTree::Split {
            direction,
            existing: Box::new(existing.with_splits(splits)),
            new: Box::new(new),
        }),
    decreases splits.len(),
{
    if splits.len() > 0 {
        let rest = splits.drop_last();
        assert forall|i: int| 0 <= i < rest.len() implies !new.holds((#[trigger] rest[i]).target)
            && !new.holds(rest[i].new_window) by {
            assert(rest[i] == splits[i]);
        }
        lemma_splits_in_existing(direction, existing, new, rest);
        let last = splits.last();
        assert(last == splits[splits.len() - 1]);
        let before = existing.with_splits(rest);
        if !before.holds(last.target) {
            lemma_no_target(before, last);
            lemma_no_target(new, last);
        }
    }
}

proof fn lemma_no_target(tree: DwindleTree, split: DwindleSplit)
    requires
        !tree.holds(split.target),
    ensures
        tree.grafted(split) == tree,
    decreases tree,
{
    match tree {
        DwindleTree::Leaf(_) => {},
        DwindleTree::Split { new, .. } => {
            lemma_no_target(*new, split);
        },
    }
}

/// Splits that do not touch the existing side leave it alone.
proof fn lemma_splits_in_new(
    direction: SplitDirection,
    existing: DwindleTree,
    new: DwindleTree,
    splits: Seq<DwindleSplit>,
)
    requires
        forall|i: int|
            0 <= i < splits.len() ==> !existing.holds((#[trigger] splits[i]).target)
                && !existing.holds(splits[i].new_window),
    ensures
        (DwindleTree::Split { direction, existing: Box::new(existing), new: Box::new(new) }).with_splits(
            splits,
        ) == (DwindleTree::Split {
            direction,
            existing: Box::new(existing),
            new: Box::new(new.with_splits(splits)),
        }),
    decreases splits.len(),
{
    if splits.len() > 0 {
        let rest = splits.drop_last();
        assert forall|i: int| 0 <= i < rest.len() implies !existing.holds(
            (#[trigger] rest[i]).target,
        ) && !existing.holds(rest[i].new_window) by {
            assert(rest[i] == splits[i]);
        }
        lemma_splits_in_new(direction, existing, new, rest);
        assert(splits.last() == splits[splits.len() - 1]);
    }
}

proof fn lemma_with_splits_concat(tree: DwindleTree, first: Seq<DwindleSplit>, second: Seq<DwindleSplit>)
    ensures
        tree.with_splits(first + second) == tree.with_splits(first).with_splits(second),
    decreases second.len(),
{
    if second.len() == 0 {
        assert(first + second =~= first);
    } else {
        assert((first + second).drop_last() =~= first + second.drop_last());
        lemma_with_splits_concat(tree, first, second.drop_last());
    }
}

/// The history of a tree speaks of its leaves only.
proof fn lemma_history_in_tree(tree: DwindleTree)
    ensures
        tree.holds(tree.first_leaf()),
        forall|i: int|
            0 <= i < tree.history().len() ==> tree.holds((#[trigger] tree.history()[i]).target)
                && tree.holds(tree.history()[i].new_window),
    decreases tree,
{
    match tree {
        DwindleTree::Leaf(_) => {},
        DwindleTree::Split { direction, existing, new } => {
            lemma_history_in_tree(*existing);
            lemma_history_in_tree(*new);
            let first = seq![
                DwindleSplit {
                    target: existing.first_leaf(),
                    new_window: new.first_leaf(),
                    direction,
                },
            ];
            let h = tree.history();
            let a = existing.history();
            let b = new.history();
            assert forall|i: int| 0 <= i < h.len() implies tree.holds((#[trigger] h[i]).target)
                && tree.holds(h[i].new_window) by {
                if i == 0 {
                    assert(h[0] == first[0]);
                } else if i < 1 + a.len() {
                    assert(h[i] == a[i - 1]);
                } else {
                    assert(h[i] == b[i - 1 - a.len()]);
                }
            }
        },
    }
}

/// The splits that a tree is remembered by grow the same tree again.
pub proof fn history_grows_the_tree(tree: DwindleTree)
    requires
        distinct_leaves(tree),
    ensures
        DwindleTree::Leaf(tree.first_leaf()).with_splits(tree.history()) == tree,
    decreases tree,
{
    match tree {
        DwindleTree::Leaf(_) => {},
        DwindleTree::Split { direction, existing, new } => {
            lemma_parts_are_distinct(direction, *existing, *new);
            history_grows_the_tree(*existing);
            history_grows_the_tree(*new);
            lemma_history_in_tree(*existing);
            lemma_history_in_tree(*new);
            let opening = DwindleSplit {
                target: existing.first_leaf(),
                new_window: new.first_leaf(),
                direction,
            };
            let a = existing.history();
            let b = new.history();
            let root = DwindleTree::Leaf(tree.first_leaf());
            let small = DwindleTree::Leaf(new.first_leaf());
            assert(tree.history() =~= seq![opening] + (a + b));
            lemma_with_splits_concat(root, seq![opening], a + b);
            assert(seq![opening].drop_last() =~= Seq::empty());
            assert(root.with_splits(seq![opening]) == root.with_splits(Seq::empty()).with_split(
                opening,
            ));
            assert(root.with_splits(Seq::empty()) == root);
            assert(existing.holds(new.first_leaf()) ==> !new.holds(new.first_leaf()));
            assert(!root.holds(new.first_leaf()));
            let opened = DwindleTree::Split {
                direction,
                existing: Box::new(root),
                new: Box::new(small),
            };
            assert(root.with_split(opening) == opened);
            lemma_with_splits_concat(opened, a, b);
            assert forall|i: int| 0 <= i < a.len() implies !small.holds((#[trigger] a[i]).target)
                && !small.holds(a[i].new_window) by {
                assert(existing.holds(a[i].target) && existing.holds(a[i].new_window));
                assert(!(existing.holds(new.first_leaf()) && new.holds(new.first_leaf())));
            }
            lemma_splits_in_existing(direction, root, small, a);
            assert forall|i: int| 0 <= i < b.len() implies !existing.holds(
                (#[trigger] b[i]).target,
            ) && !existing.holds(b[i].new_window) by {
                assert(new.holds(b[i].target) && new.holds(b[i].new_window));
                assert(!(existing.holds(b[i].target) && new.holds(b[i].target)));
                assert(!(existing.holds(b[i].new_window) && new.holds(b[i].new_window)));
            }
            lemma_splits_in_new(direction, *existing, small, b);
        },
    }
}

/// No split of a history brings the first leaf in.
proof fn lemma_first_leaf_is_never_new(tree: DwindleTree)
    requires
        distinct_leaves(tree),
    ensures
        never_new(tree.history(), tree.first_leaf()),
    decreases tree,
{
    match tree {
        DwindleTree::Leaf(_) => {},
        DwindleTree::Split { direction, existing, new } => {
            lemma_parts_are_distinct(direction, *existing, *new);
            lemma_first_leaf_is_never_new(*existing);
            lemma_history_in_tree(*existing);
            lemma_history_in_tree(*new);
            let h = tree.history();
            let a = existing.history();
            let b = new.history();
            let leaf = tree.first_leaf();
            assert(existing.holds(leaf) && !new.holds(leaf));
            assert forall|i: int| 0 <= i < h.len() implies (#[trigger] h[i]).new_window != leaf by {
                if i == 0 {
                    assert(h[0].new_window == new.first_leaf());
                } else if i < 1 + a.len() {
                    assert(h[i] == a[i - 1]);
                } else {
                    assert(h[i] == b[i - 1 - a.len()]);
                }
            }
        },
    }
}

proof fn lemma_nothing_missing(
    tree: DwindleTree,
    windows: Seq<WindowHandle>,
    outer: Rect,
    config: LayoutConfig,
    smart: bool,
    cursor_position: Option<Point>,
)
    requires
        forall|w: WindowHandle| windows.contains(w) ==> #[trigger] tree.holds(w),
    ensures
        grown(tree, windows, outer, config, smart, cursor_position) == tree,
    decreases windows.len(),
{
    if windows.len() > 0 {
        let rest = windows.drop_last();
        assert forall|w: WindowHandle| rest.contains(w) implies #[trigger] tree.holds(w) by {
            let i = rest.index_of(w);
            assert(windows[i] == w);
        }
        lemma_nothing_missing(tree, rest, outer, config, smart, cursor_position);
        assert(windows[windows.len() - 1] == windows.last());
        assert(windows.contains(windows.last()));
    }
}

/// A layout that is laid out again, with the windows it has and wherever the cursor is, stays as
/// it is: tiles and memory are the same.
pub proof fn relayout_keeps_the_layout(
    work_area: Rect,
    windows: Seq<WindowHandle>,
    config: LayoutConfig,
    cursor_position: Option<Point>,
    later_cursor_position: Option<Point>,
    splits: Seq<DwindleSplit>,
)
    ensures
        ({
            let memory = dwindle_memory(work_area, windows, config, cursor_position, splits);
            &&& dwindled(work_area, windows, config, later_cursor_position, memory) == dwindled(
                work_area,
                windows,
                config,
                cursor_position,
                splits,
            )
            &&& dwindle_memory(work_area, windows, config, later_cursor_position, memory) == memory
        }),
{
    let normal = config.spec_normalized();
    let outer = work_area.shrunk(normal.gap as int);
    if !work_area.covers_nothing() && windows.len() > 1 {
        let tree = dwindle_tree(outer, windows, normal, cursor_position, splits);
        let memory = tree.history();
        tree_holds_the_windows(outer, windows, normal, cursor_position, splits);
        assert forall|w: WindowHandle| windows.contains(w) implies #[trigger] tree.holds(w) by {}
        lemma_first_leaf_is_never_new(tree);
        history_grows_the_tree(tree);
        lemma_history_in_tree(tree);
        lemma_memory_root(tree, windows);
        lemma_prune_nothing(tree, windows);
        assert(remembered_tree(windows, memory) == tree);
        let smart = normal.smart_split && missing_count(tree, windows) == 1;
        lemma_nothing_missing(tree, windows, outer, normal, smart, later_cursor_position);
        assert(dwindle_tree(outer, windows, normal, later_cursor_position, memory) == tree);
    }
}

/// The history of a tree that holds more than one window starts from its first leaf.
proof fn lemma_memory_root(tree: DwindleTree, windows: Seq<WindowHandle>)
    requires
        distinct_leaves(tree),
        windows.len() > 1,
        forall|w: WindowHandle| #[trigger] tree.holds(w) <==> windows.contains(w),
    ensures
        DwindleTree::Leaf(root_of(windows, tree.history())).with_splits(tree.history()) == tree,
{
    lemma_first_leaf_is_never_new(tree);
    history_grows_the_tree(tree);
    match tree {
        DwindleTree::Leaf(leaf) => {
            assert(windows.contains(windows[0]));
            assert(tree.holds(windows[0]));
            assert(root_target(tree.history(), 0) is None);
        },
        DwindleTree::Split { existing, .. } => {
            assert(tree.history()[0].target == existing.first_leaf());
        },
    }
}

/// The history of a tree has one split fewer than the tree has leaves, and the first leaf with the
/// windows that the splits bring in are the leaves, each once.
proof fn lemma_history_brings_the_leaves(tree: DwindleTree)
    requires
        distinct_leaves(tree),
    ensures
        tree.history().len() + 1 == tree.leaves().len(),
        new_windows(tree.history()).no_duplicates(),
        forall|w: WindowHandle| #[trigger]
            new_windows(tree.history()).contains(w) <==> tree.holds(w) && w != tree.first_leaf(),
    decreases tree,
{
    match tree {
        DwindleTree::Leaf(_) => {},
        DwindleTree::Split { direction, existing, new } => {
            lemma_parts_are_distinct(direction, *existing, *new);
            lemma_history_brings_the_leaves(*existing);
            lemma_history_brings_the_leaves(*new);
            lemma_history_in_tree(*existing);
            lemma_history_in_tree(*new);
            let opening = seq![new.first_leaf()];
            let a = new_windows(existing.history());
            let b = new_windows(new.history());
            let all = new_windows(tree.history());
            assert(all =~= opening + a + b);
            assert forall|w: WindowHandle| #[trigger] all.contains(w) <==> tree.holds(w) && w
                != tree.first_leaf() by {
                assert(!(existing.holds(w) && new.holds(w)));
                assert(a.contains(w) <==> existing.holds(w) && w != existing.first_leaf());
                assert(b.contains(w) <==> new.holds(w) && w != new.first_leaf());
                if all.contains(w) {
                    let i = all.index_of(w);
                    if i >= 1 + a.len() {
                        assert(b[i - 1 - a.len()] == w);
                    } else if i >= 1 {
                        assert(a[i - 1] == w);
                    }
                }
                if w == new.first_leaf() {
                    assert(all[0] == w);
                }
                if a.contains(w) {
                    assert(all[1 + a.index_of(w)] == w);
                }
                if b.contains(w) {
                    assert(all[1 + a.len() + b.index_of(w)] == w);
                }
            }
            assert forall|i: int, j: int| 0 <= i < j < all.len() implies all[i] != all[j] by {
                if j < 1 + a.len() {
                    assert(a.contains(a[j - 1]));
                    assert(all[j] == a[j - 1]);
                    if i > 0 {
                        assert(all[i] == a[i - 1]);
                    }
                } else {
                    let last = b[j - 1 - a.len()];
                    assert(all[j] == last && b.contains(last));
                    if i > a.len() {
                        assert(all[i] == b[i - 1 - a.len()]);
                    } else if i > 0 {
                        assert(all[i] == a[i - 1] && a.contains(a[i - 1]));
                        assert(!(existing.holds(last) && new.holds(last)));
                    }
                }
            }
        },
    }
}

/// After a dwindle layout of windows that are listed once there is one split fewer than windows. No
/// window is brought in twice, every target is one of the windows, and the first target with the
/// windows that were brought in are all of them.
pub proof fn remembered_splits_tell_the_windows(
    work_area: Rect,
    windows: Seq<WindowHandle>,
    config: LayoutConfig,
    cursor_position: Option<Point>,
    splits: Seq<DwindleSplit>,
)
    requires
        !work_area.covers_nothing(),
        windows.len() > 0,
        windows.no_duplicates(),
    ensures
        ({
            let memory = dwindle_memory(work_area, windows, config, cursor_position, splits);
            &&& memory.len() == windows.len() - 1
            &&& new_windows(memory).no_duplicates()
            &&& forall|i: int|
                0 <= i < memory.len() ==> windows.contains((#[trigger] memory[i]).target)
            &&& windows.len() >= 2 ==> new_windows(memory).to_set().insert(memory[0].target)
                == windows.to_set()
        }),
{
    if windows.len() > 1 {
        let normal = config.spec_normalized();
        let outer = work_area.shrunk(normal.gap as int);
        let tree = dwindle_tree(outer, windows, normal, cursor_position, splits);
        let leaves = tree.leaves();
        let memory = tree.history();
        tree_holds_the_windows(outer, windows, normal, cursor_position, splits);
        lemma_history_brings_the_leaves(tree);
        lemma_history_in_tree(tree);
        assert forall|w: WindowHandle| leaves.contains(w) <==> windows.contains(w) by {
            lemma_holds_leaves(tree, w);
            assert(tree.holds(w) <==> windows.contains(w));
        }
        leaves.unique_seq_to_set();
        windows.unique_seq_to_set();
        assert(leaves.to_set() =~= windows.to_set());
        assert(memory[0].target == tree.first_leaf());
        assert forall|w: WindowHandle| new_windows(memory).to_set().insert(memory[0].target).contains(w)
            <==> windows.to_set().contains(w) by {
            assert(tree.holds(w) <==> windows.contains(w));
            assert(new_windows(memory).contains(w) <==> tree.holds(w) && w != tree.first_leaf());
        }
        assert(new_windows(memory).to_set().insert(memory[0].target) =~= windows.to_set());
    }
}

} // verus!
