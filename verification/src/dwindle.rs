//! The dwindle layout: each new window splits the tile of an earlier one.
//!
//! A layout is a binary tree whose leaves are windows. It is remembered as the list of splits that
//! grows the tree from its first window.

use vstd::prelude::*;

use crate::geometry::{Point, Rect, TileAssignment, WindowHandle};
use crate::handles::{contains_handle, first_position, position_of};
use crate::layout::{scale_length, scaled, LayoutConfig, SplitDirection};
use crate::num::{clamp_i32, sat_add, sat_sub};
use crate::order::{order_by_keys, sorted_stably};
use crate::smart_split::{drawn_to, split_direction_for_point};
use crate::stack::{bordered, reserve_window_rect};

verus! {

/// A window that took part of another's tile.
#[derive(Debug, Clone, Copy, PartialEq, Eq, Structural)]
pub struct DwindleSplit {
    pub target: WindowHandle,
    pub new_window: WindowHandle,
    pub direction: SplitDirection,
}

/// A dwindle layout as a tree of splits.
#[derive(Debug)]
pub enum DwindleTree {
    Leaf(WindowHandle),
    Split { direction: SplitDirection, existing: Box<DwindleTree>, new: Box<DwindleTree> },
}

impl DwindleTree {
    /// The windows of the tree, from the first leaf to the last.
    pub open spec fn leaves(self) -> Seq<WindowHandle>
        decreases self,
    {
        match self {
            DwindleTree::Leaf(window) => seq![window],
            DwindleTree::Split { existing, new, .. } => existing.leaves() + new.leaves(),
        }
    }

    /// Whether the window is a leaf of the tree.
    pub open spec fn holds(self, window: WindowHandle) -> bool
        decreases self,
    {
        match self {
            DwindleTree::Leaf(leaf) => leaf == window,
            DwindleTree::Split { existing, new, .. } => existing.holds(window) || new.holds(window),
        }
    }

    /// The tree with the first leaf that is the split's target split for its new window.
    pub open spec fn grafted(self, split: DwindleSplit) -> DwindleTree
        decreases self,
    {
        match self {
            DwindleTree::Leaf(window) => if window == split.target {
                DwindleTree::Split {
                    direction: split.direction,
                    existing: Box::new(DwindleTree::Leaf(split.target)),
                    new: Box::new(DwindleTree::Leaf(split.new_window)),
                }
            } else {
                self
            },
            DwindleTree::Split { direction, existing, new } => if existing.holds(split.target) {
                DwindleTree::Split { direction, existing: Box::new(existing.grafted(split)), new }
            } else {
                DwindleTree::Split { direction, existing, new: Box::new(new.grafted(split)) }
            },
        }
    }

    /// The tree after a split; a window that is in the tree already is not put in again.
    pub open spec fn with_split(self, split: DwindleSplit) -> DwindleTree {
        if self.holds(split.new_window) {
            self
        } else {
            self.grafted(split)
        }
    }

    /// The tree after the splits, one by one.
    pub open spec fn with_splits(self, splits: Seq<DwindleSplit>) -> DwindleTree
        decreases splits.len(),
    {
        if splits.len() == 0 {
            self
        } else {
            self.with_splits(splits.drop_last()).with_split(splits.last())
        }
    }

    /// The tree without the leaves that are not among `windows`; a split that loses one side gives
    /// way to the other.
    pub open spec fn pruned(self, windows: Seq<WindowHandle>) -> Option<DwindleTree>
        decreases self,
    {
        match self {
            DwindleTree::Leaf(window) => if windows.contains(window) {
                Some(self)
            } else {
                None
            },
            DwindleTree::Split { direction, existing, new } => match (
                existing.pruned(windows),
                new.pruned(windows),
            ) {
                (Some(first), Some(second)) => Some(
                    DwindleTree::Split {
                        direction,
                        existing: Box::new(first),
                        new: Box::new(second),
                    },
                ),
                (Some(first), None) => Some(first),
                (None, second) => second,
            },
        }
    }

    /// The first leaf.
    pub open spec fn first_leaf(self) -> WindowHandle
        decreases self,
    {
        match self {
            DwindleTree::Leaf(window) => window,
            DwindleTree::Split { existing, .. } => existing.first_leaf(),
        }
    }

    /// The splits that grow the tree from its first leaf, outermost first.
    pub open spec fn history(self) -> Seq<DwindleSplit>
        decreases self,
    {
        match self {
            DwindleTree::Leaf(_) => Seq::empty(),
            DwindleTree::Split { direction, existing, new } => seq![
                DwindleSplit {
                    target: existing.first_leaf(),
                    new_window: new.first_leaf(),
                    direction,
                },
            ] + existing.history() + new.history(),
        }
    }

    /// The tiles of the leaves, from the first leaf to the last, when the tree takes `rect`.
    pub open spec fn tiles(self, rect: Rect, config: LayoutConfig) -> Seq<TileAssignment>
        decreases self,
    {
        match self {
            DwindleTree::Leaf(window) => seq![TileAssignment { window, rect }],
            DwindleTree::Split { direction, existing, new } => {
                let parts = cut(rect, direction, config);
                existing.tiles(parts.0, config) + new.tiles(parts.1, config)
            },
        }
    }
}

/// The parts into which a split cuts a rectangle: what the existing window keeps and what the new
/// one takes. A rectangle with no room beside the gap is not cut.
pub open spec fn cut(rect: Rect, direction: SplitDirection, config: LayoutConfig) -> (Rect, Rect) {
    let across = direction is Left || direction is Right;
    let room = clamp_i32(
        (if across {
            rect.spec_width()
        } else {
            rect.spec_height()
        }) - config.gap,
    );
    let near = clamp_i32(scaled(room, config.master_ratio_percent as int));
    let far = clamp_i32(room - near);
    if room <= 0 {
        (rect, rect)
    } else if across {
        let left = Rect::sized(rect.left as int, rect.top as int, near, rect.spec_height());
        let right = Rect::sized(
            clamp_i32(left.right + config.gap),
            rect.top as int,
            far,
            rect.spec_height(),
        );
        if direction is Left {
            (right, left)
        } else {
            (left, right)
        }
    } else {
        let top = Rect::sized(rect.left as int, rect.top as int, rect.spec_width(), near);
        let bottom = Rect::sized(
            rect.left as int,
            clamp_i32(top.bottom + config.gap),
            rect.spec_width(),
            far,
        );
        if direction is Up {
            (bottom, top)
        } else {
            (top, bottom)
        }
    }
}

/// Cuts a rectangle into what the existing window keeps and what the new one takes.
pub fn split_for_direction(
    rect: Rect,
    direction: SplitDirection,
    config: LayoutConfig,
) -> (r: (Rect, Rect))
    ensures
        r == cut(rect, direction, config),
{
    let gap: i32 = config.gap;
    match direction {
        SplitDirection::Left | SplitDirection::Right => {
            let available_width: i32 = sat_sub(rect.width(), gap);
            if available_width <= 0 {
                return (rect, rect);
            }
            let first_width: i32 = scale_length(available_width, config.master_ratio_percent);
            let second_width: i32 = sat_sub(available_width, first_width);
            let left: Rect = Rect::from_size(rect.left, rect.top, first_width, rect.height());
            let right: Rect = Rect::from_size(
                sat_add(left.right, gap),
                rect.top,
                second_width,
                rect.height(),
            );
            match direction {
                SplitDirection::Left => (right, left),
                _ => (left, right),
            }
        },
        SplitDirection::Up | SplitDirection::Down => {
            let available_height: i32 = sat_sub(rect.height(), gap);
            if available_height <= 0 {
                return (rect, rect);
            }
            let first_height: i32 = scale_length(available_height, config.master_ratio_percent);
            let second_height: i32 = sat_sub(available_height, first_height);
            let top: Rect = Rect::from_size(rect.left, rect.top, rect.width(), first_height);
            let bottom: Rect = Rect::from_size(
                rect.left,
                sat_add(top.bottom, gap),
                rect.width(),
                second_height,
            );
            match direction {
                SplitDirection::Up => (bottom, top),
                _ => (top, bottom),
            }
        },
    }
}

/// Whether the window is a leaf of the tree.
pub fn dwindle_tree_contains(tree: &DwindleTree, needle: WindowHandle) -> (r: bool)
    ensures
        r == tree.holds(needle),
    decreases tree,
{
    match tree {
        DwindleTree::Leaf(window) => *window == needle,
        DwindleTree::Split { existing, new, .. } => {
            dwindle_tree_contains(existing, needle) || dwindle_tree_contains(new, needle)
        },
    }
}

/// A tree without the target is left alone by a graft.
proof fn lemma_graft_needs_target(tree: DwindleTree, split: DwindleSplit)
    requires
        !tree.holds(split.target),
    ensures
        tree.grafted(split) == tree,
    decreases tree,
{
    match tree {
        DwindleTree::Leaf(_) => {},
        DwindleTree::Split { existing, new, .. } => {
            lemma_graft_needs_target(*new, split);
        },
    }
}

/// Splits a leaf; says whether it did.
pub fn insert_dwindle_split(tree: &mut DwindleTree, split: DwindleSplit) -> (r: bool)
    ensures
        *final(tree) == old(tree).with_split(split),
        r == (old(tree).holds(split.target) && !old(tree).holds(split.new_window)),
    decreases *old(tree),
{
    if dwindle_tree_contains(tree, split.new_window) {
        return false;
    }
    match tree {
        DwindleTree::Leaf(window) => {
            if *window == split.target {
                *tree = DwindleTree::Split {
                    direction: split.direction,
                    existing: Box::new(DwindleTree::Leaf(split.target)),
                    new: Box::new(DwindleTree::Leaf(split.new_window)),
                };
                true
            } else {
                false
            }
        },
        DwindleTree::Split { existing, new, .. } => {
            proof {
                if !existing.holds(split.target) {
                    lemma_graft_needs_target(**existing, split);
                }
            }
            if insert_dwindle_split(existing, split) {
                true
            } else {
                insert_dwindle_split(new, split)
            }
        },
    }
}

/// Grows the tree from its root window by the splits.
pub fn build_dwindle_tree(root: WindowHandle, splits: &[DwindleSplit]) -> (r: DwindleTree)
    ensures
        r == DwindleTree::Leaf(root).with_splits(splits@),
{
    let mut tree: DwindleTree = DwindleTree::Leaf(root);
    let mut index: usize = 0;
    proof {
        assert(splits@.take(0) =~= Seq::empty());
    }
    while index < splits.len()
        invariant
            index <= splits.len(),
            tree == DwindleTree::Leaf(root).with_splits(splits@.take(index as int)),
        decreases splits.len() - index,
    {
        insert_dwindle_split(&mut tree, splits[index]);
        proof {
            assert(splits@.take(index + 1).drop_last() =~= splits@.take(index as int));
        }
        index = index + 1;
    }
    proof {
        assert(splits@.take(index as int) =~= splits@);
    }
    tree
}

/// Takes the leaves that are not among `windows` out of the tree.
pub fn prune_dwindle_tree(tree: DwindleTree, windows: &[WindowHandle]) -> (r: Option<DwindleTree>)
    ensures
        r == tree.pruned(windows@),
    decreases tree,
{
    match tree {
        DwindleTree::Leaf(window) => {
            if contains_handle(windows, window) {
                Some(DwindleTree::Leaf(window))
            } else {
                None
            }
        },
        DwindleTree::Split { direction, existing, new } => {
            let first: Option<DwindleTree> = prune_dwindle_tree(*existing, windows);
            let second: Option<DwindleTree> = prune_dwindle_tree(*new, windows);
            match (first, second) {
                (Some(first), Some(second)) => Some(
                    DwindleTree::Split {
                        direction,
                        existing: Box::new(first),
                        new: Box::new(second),
                    },
                ),
                (Some(remaining), None) => Some(remaining),
                (None, second) => second,
            }
        },
    }
}

/// Adds the tiles of the leaves when the tree takes `rect`.
pub fn collect_dwindle_assignments(
    tree: &DwindleTree,
    rect: Rect,
    config: LayoutConfig,
    assignments: &mut Vec<TileAssignment>,
)
    ensures
        final(assignments)@ == old(assignments)@ + tree.tiles(rect, config),
    decreases tree,
{
    match tree {
        DwindleTree::Leaf(window) => {
            assignments.push(TileAssignment { window: *window, rect });
            proof {
                assert(assignments@ =~= old(assignments)@ + tree.tiles(rect, config));
            }
        },
        DwindleTree::Split { direction, existing, new } => {
            let (existing_rect, new_rect) = split_for_direction(rect, *direction, config);
            collect_dwindle_assignments(existing, existing_rect, config, assignments);
            collect_dwindle_assignments(new, new_rect, config, assignments);
            proof {
                assert(assignments@ =~= old(assignments)@ + tree.tiles(rect, config));
            }
        },
    }
}

/// The first leaf.
pub fn dwindle_tree_root_leaf(tree: &DwindleTree) -> (r: WindowHandle)
    ensures
        r == tree.first_leaf(),
    decreases tree,
{
    match tree {
        DwindleTree::Leaf(window) => *window,
        DwindleTree::Split { existing, .. } => dwindle_tree_root_leaf(existing),
    }
}

/// Adds the splits that grow the tree from its first leaf.
pub fn serialize_dwindle_tree(tree: &DwindleTree, splits: &mut Vec<DwindleSplit>)
    ensures
        final(splits)@ == old(splits)@ + tree.history(),
    decreases tree,
{
    match tree {
        DwindleTree::Leaf(_) => {
            proof {
                assert(splits@ =~= old(splits)@ + tree.history());
            }
        },
        DwindleTree::Split { direction, existing, new } => {
            splits.push(
                DwindleSplit {
                    target: dwindle_tree_root_leaf(existing),
                    new_window: dwindle_tree_root_leaf(new),
                    direction: *direction,
                },
            );
            serialize_dwindle_tree(existing, splits);
            serialize_dwindle_tree(new, splits);
            proof {
                assert(splits@ =~= old(splits)@ + tree.history());
            }
        },
    }
}

/// Whether no split brought `window` in.
pub open spec fn never_new(splits: Seq<DwindleSplit>, window: WindowHandle) -> bool {
    forall|i: int| 0 <= i < splits.len() ==> (#[trigger] splits[i]).new_window != window
}

/// The first target, from index `from` on, that no split brought in.
pub open spec fn root_target(splits: Seq<DwindleSplit>, from: int) -> Option<WindowHandle>
    decreases splits.len() - from,
{
    if from >= splits.len() {
        None
    } else if never_new(splits, splits[from].target) {
        Some(splits[from].target)
    } else {
        root_target(splits, from + 1)
    }
}

/// The window that a history of splits starts from: the first target that no split brought in, or
/// else the first window.
pub open spec fn root_of(windows: Seq<WindowHandle>, splits: Seq<DwindleSplit>) -> WindowHandle {
    match root_target(splits, 0) {
        Some(target) => target,
        None => windows[0],
    }
}

/// The window that a history of splits starts from.
pub fn dwindle_root_window(windows: &[WindowHandle], splits: &[DwindleSplit]) -> (r: WindowHandle)
    requires
        windows.len() > 0,
    ensures
        r == root_of(windows@, splits@),
{
    let mut index: usize = 0;
    while index < splits.len()
        invariant
            index <= splits.len(),
            root_target(splits@, 0) == root_target(splits@, index as int),
        decreases splits.len() - index,
    {
        let target: WindowHandle = splits[index].target;
        let mut brought_in: bool = false;
        let mut other: usize = 0;
        while other < splits.len()
            invariant
                other <= splits.len(),
                brought_in == exists|i: int| 0 <= i < other && (#[trigger] splits[i]).new_window == target,
            decreases splits.len() - other,
        {
            if splits[other].new_window == target {
                brought_in = true;
            }
            other = other + 1;
        }
        if !brought_in {
            return target;
        }
        index = index + 1;
    }
    windows[0]
}

/// The first tile, from index `from` on, that covers the point.
pub open spec fn tile_under(tiles: Seq<TileAssignment>, point: Point, from: int) -> Option<
    TileAssignment,
>
    decreases tiles.len() - from,
{
    if from >= tiles.len() {
        None
    } else if tiles[from].rect.covers(point.x as int, point.y as int) {
        Some(tiles[from])
    } else {
        tile_under(tiles, point, from + 1)
    }
}

/// The tile that a new window splits: the one under the cursor where that counts and there is one,
/// or else the last.
pub open spec fn split_target(
    tiles: Seq<TileAssignment>,
    use_cursor_target: bool,
    cursor_position: Option<Point>,
) -> TileAssignment {
    let under = match cursor_position {
        Some(point) => if use_cursor_target {
            tile_under(tiles, point, 0)
        } else {
            None
        },
        None => None,
    };
    match under {
        Some(tile) => tile,
        None => if tiles.len() > 0 {
            tiles.last()
        } else {
            TileAssignment { window: WindowHandle(0), rect: Rect::sized(0, 0, 1, 1) }
        },
    }
}

/// The tile that a new window splits.
pub fn new_dwindle_split_target(
    assignments: &[TileAssignment],
    use_cursor_target: bool,
    cursor_position: Option<Point>,
) -> (r: TileAssignment)
    ensures
        r == split_target(assignments@, use_cursor_target, cursor_position),
{
    if use_cursor_target {
        if let Some(point) = cursor_position {
            let mut index: usize = 0;
            while index < assignments.len()
                invariant
                    index <= assignments.len(),
                    use_cursor_target,
                    cursor_position == Some(point),
                    tile_under(assignments@, point, 0) == tile_under(
                        assignments@,
                        point,
                        index as int,
                    ),
                decreases assignments.len() - index,
            {
                if assignments[index].rect.contains(point) {
                    return assignments[index];
                }
                index = index + 1;
            }
        }
    }
    if assignments.len() > 0 {
        assignments[assignments.len() - 1]
    } else {
        TileAssignment { window: WindowHandle(0), rect: Rect::from_size(0, 0, 1, 1) }
    }
}

/// The edge that a new window takes: the one the cursor is drawn to where smart splits are on and
/// the cursor is in the tile, or else the right of a wide tile and the bottom of a high one.
pub open spec fn split_edge(
    target_rect: Rect,
    config: LayoutConfig,
    cursor_position: Option<Point>,
) -> SplitDirection {
    let by_shape = if target_rect.spec_width() >= target_rect.spec_height() {
        SplitDirection::Right
    } else {
        SplitDirection::Down
    };
    match cursor_position {
        Some(point) => if config.smart_split && target_rect.covers(point.x as int, point.y as int) {
            drawn_to(target_rect, point)
        } else {
            by_shape
        },
        None => by_shape,
    }
}

/// The edge that a new window takes.
pub fn dwindle_split_direction(
    target_rect: Rect,
    config: LayoutConfig,
    cursor_position: Option<Point>,
) -> (r: SplitDirection)
    ensures
        r == split_edge(target_rect, config, cursor_position),
{
    if config.smart_split {
        if let Some(point) = cursor_position {
            if target_rect.contains(point) {
                return split_direction_for_point(target_rect, point);
            }
        }
    }
    if target_rect.width() >= target_rect.height() {
        SplitDirection::Right
    } else {
        SplitDirection::Down
    }
}

/// The rank of each tile: where its window stands in the window order, past the end if nowhere.
pub open spec fn window_ranks(tiles: Seq<TileAssignment>, windows: Seq<WindowHandle>) -> Seq<int> {
    Seq::new(
        tiles.len(),
        |i: int|
            match first_position(windows, tiles[i].window) {
                Some(at) => at,
                None => usize::MAX as int,
            },
    )
}

/// Puts tiles into the order of their windows.
pub fn sort_assignments_by_window_order(
    assignments: &mut Vec<TileAssignment>,
    windows: &[WindowHandle],
)
    ensures
        final(assignments)@ == sorted_stably(
            old(assignments)@,
            window_ranks(old(assignments)@, windows@),
        ),
{
    let mut ranks: Vec<u64> = Vec::new();
    let mut index: usize = 0;
    while index < assignments.len()
        invariant
            index <= assignments.len(),
            assignments@ == old(assignments)@,
            ranks.len() == index,
            forall|i: int|
                0 <= i < index ==> ranks[i] as int == #[trigger] window_ranks(
                    assignments@,
                    windows@,
                )[i],
        decreases assignments.len() - index,
    {
        let rank: usize = match position_of(windows, assignments[index].window) {
            Some(at) => at,
            None => usize::MAX,
        };
        ranks.push(rank as u64);
        index = index + 1;
    }
    let order: Vec<usize> = order_by_keys(&ranks);
    let ghost keys = crate::order::key_ints(ranks@);
    let ghost read = crate::order::index_ints(order@);
    proof {
        assert(keys =~= window_ranks(assignments@, windows@));
    }
    let mut sorted: Vec<TileAssignment> = Vec::new();
    let mut place: usize = 0;
    while place < order.len()
        invariant
            place <= order.len(),
            assignments@ == old(assignments)@,
            order.len() == assignments.len(),
            read == crate::order::index_ints(order@),
            crate::order::stably_sorts(read, keys),
            keys.len() == assignments.len(),
            sorted.len() == place,
            forall|i: int| 0 <= i < place ==> #[trigger] sorted[i] == assignments[read[i]],
        decreases order.len() - place,
    {
        proof {
            assert(0 <= read[place as int] < keys.len());
        }
        sorted.push(assignments[order[place]]);
        place = place + 1;
    }
    proof {
        assert(sorted@ =~= sorted_stably(assignments@, keys));
    }
    *assignments = sorted;
}

/// How many of the windows are not in the tree.
pub open spec fn missing_count(tree: DwindleTree, windows: Seq<WindowHandle>) -> nat
    decreases windows.len(),
{
    if windows.len() == 0 {
        0
    } else {
        missing_count(tree, windows.drop_last()) + if tree.holds(windows.last()) {
            0nat
        } else {
            1nat
        }
    }
}

/// The split by which a new window joins the tree.
pub open spec fn joining_split(
    tree: DwindleTree,
    window: WindowHandle,
    outer: Rect,
    config: LayoutConfig,
    smart: bool,
    cursor_position: Option<Point>,
) -> DwindleSplit {
    let target = split_target(tree.tiles(outer, config), smart, cursor_position);
    DwindleSplit {
        target: target.window,
        new_window: window,
        direction: split_edge(
            target.rect,
            config,
            if smart {
                cursor_position
            } else {
                None
            },
        ),
    }
}

/// The tree after the windows, one by one, have joined it where they are missing.
pub open spec fn grown(
    tree: DwindleTree,
    windows: Seq<WindowHandle>,
    outer: Rect,
    config: LayoutConfig,
    smart: bool,
    cursor_position: Option<Point>,
) -> DwindleTree
    decreases windows.len(),
{
    if windows.len() == 0 {
        tree
    } else {
        let before = grown(tree, windows.drop_last(), outer, config, smart, cursor_position);
        if before.holds(windows.last()) {
            before
        } else {
            before.with_split(
                joining_split(before, windows.last(), outer, config, smart, cursor_position),
            )
        }
    }
}

/// The tree that the remembered splits give for the windows that are there.
pub open spec fn remembered_tree(
    windows: Seq<WindowHandle>,
    splits: Seq<DwindleSplit>,
) -> DwindleTree {
    match DwindleTree::Leaf(root_of(windows, splits)).with_splits(splits).pruned(windows) {
        Some(tree) => tree,
        None => DwindleTree::Leaf(windows[0]),
    }
}

/// The tree of the layout: the remembered one, with the missing windows joined. The cursor counts
/// only where smart splits are on and exactly one window is missing.
pub open spec fn dwindle_tree(
    outer: Rect,
    windows: Seq<WindowHandle>,
    config: LayoutConfig,
    cursor_position: Option<Point>,
    splits: Seq<DwindleSplit>,
) -> DwindleTree {
    let start = remembered_tree(windows, splits);
    let smart = config.smart_split && missing_count(start, windows) == 1;
    grown(start, windows, outer, config, smart, cursor_position)
}

/// The dwindle layout.
pub open spec fn dwindled(
    work_area: Rect,
    windows: Seq<WindowHandle>,
    config: LayoutConfig,
    cursor_position: Option<Point>,
    splits: Seq<DwindleSplit>,
) -> Seq<TileAssignment> {
    let config = config.spec_normalized();
    let outer = work_area.shrunk(config.gap as int);
    if work_area.covers_nothing() || windows.len() == 0 {
        Seq::empty()
    } else if windows.len() == 1 {
        seq![bordered(windows[0], outer, config)]
    } else {
        let tiles = dwindle_tree(outer, windows, config, cursor_position, splits).tiles(
            outer,
            config,
        );
        sorted_stably(tiles, window_ranks(tiles, windows)).map_values(
            |tile: TileAssignment| bordered(tile.window, tile.rect, config),
        )
    }
}

/// The splits that are remembered after the dwindle layout.
pub open spec fn dwindle_memory(
    work_area: Rect,
    windows: Seq<WindowHandle>,
    config: LayoutConfig,
    cursor_position: Option<Point>,
    splits: Seq<DwindleSplit>,
) -> Seq<DwindleSplit> {
    let config = config.spec_normalized();
    let outer = work_area.shrunk(config.gap as int);
    if work_area.covers_nothing() || windows.len() <= 1 {
        Seq::empty()
    } else {
        dwindle_tree(outer, windows, config, cursor_position, splits).history()
    }
}

/// The windows of the tiles are the leaves.
pub proof fn lemma_tiles_are_leaves(tree: DwindleTree, rect: Rect, config: LayoutConfig)
    ensures
        tree.tiles(rect, config).len() == tree.leaves().len(),
        forall|i: int|
            0 <= i < tree.leaves().len() ==> (#[trigger] tree.tiles(rect, config)[i]).window
                == tree.leaves()[i],
        tree.leaves().len() > 0,
    decreases tree,
{
    match tree {
        DwindleTree::Leaf(_) => {},
        DwindleTree::Split { direction, existing, new } => {
            let parts = cut(rect, direction, config);
            lemma_tiles_are_leaves(*existing, parts.0, config);
            lemma_tiles_are_leaves(*new, parts.1, config);
        },
    }
}

/// A tree holds its leaves and nothing else.
pub proof fn lemma_holds_leaves(tree: DwindleTree, window: WindowHandle)
    ensures
        tree.holds(window) <==> tree.leaves().contains(window),
    decreases tree,
{
    match tree {
        DwindleTree::Leaf(leaf) => {
            if leaf == window {
                assert(tree.leaves()[0] == window);
            }
        },
        DwindleTree::Split { existing, new, .. } => {
            lemma_holds_leaves(*existing, window);
            lemma_holds_leaves(*new, window);
            let first = existing.leaves();
            let second = new.leaves();
            if first.contains(window) {
                let i = first.index_of(window);
                assert((first + second)[i] == window);
            }
            if second.contains(window) {
                let i = second.index_of(window);
                assert((first + second)[first.len() + i] == window);
            }
        },
    }
}

/// Places windows in the dwindle layout and remembers how.
pub fn dwindle_assignments(
    work_area: Rect,
    windows: &[WindowHandle],
    config: LayoutConfig,
    cursor_position: Option<Point>,
    splits: &mut Vec<DwindleSplit>,
) -> (r: Vec<TileAssignment>)
    ensures
        r@ == dwindled(work_area, windows@, config, cursor_position, old(splits)@),
        final(splits)@ == dwindle_memory(
            work_area,
            windows@,
            config,
            cursor_position,
            old(splits)@,
        ),
{
    if work_area.is_empty() || windows.is_empty() {
        splits.clear();
        return Vec::new();
    }
    let config: LayoutConfig = config.normalized();
    let outer_area: Rect = work_area.inset(config.gap);
    if windows.len() == 1 {
        splits.clear();
        let mut single: Vec<TileAssignment> = Vec::new();
        single.push(
            TileAssignment {
                window: windows[0],
                rect: reserve_window_rect(outer_area, config),
            },
        );
        return single;
    }
    let root: WindowHandle = dwindle_root_window(windows, splits);
    let mut tree: DwindleTree = match prune_dwindle_tree(build_dwindle_tree(root, splits), windows) {
        Some(tree) => tree,
        None => DwindleTree::Leaf(windows[0]),
    };
    let ghost start = tree;
    proof {
        assert(start == remembered_tree(windows@, splits@));
    }
    let mut missing: usize = 0;
    let mut index: usize = 0;
    proof {
        assert(windows@.take(0) =~= Seq::empty());
    }
    while index < windows.len()
        invariant
            index <= windows.len(),
            missing <= index,
            missing == missing_count(tree, windows@.take(index as int)),
        decreases windows.len() - index,
    {
        if !dwindle_tree_contains(&tree, windows[index]) {
            missing = missing + 1;
        }
        proof {
            assert(windows@.take(index + 1).drop_last() =~= windows@.take(index as int));
        }
        index = index + 1;
    }
    proof {
        assert(windows@.take(index as int) =~= windows@);
    }
    let smart: bool = config.smart_split && missing == 1;
    let mut next: usize = 0;
    while next < windows.len()
        invariant
            next <= windows.len(),
            tree == grown(
                start,
                windows@.take(next as int),
                outer_area,
                config,
                smart,
                cursor_position,
            ),
        decreases windows.len() - next,
    {
        let window: WindowHandle = windows[next];
        proof {
            assert(windows@.take(next + 1).drop_last() =~= windows@.take(next as int));
        }
        if !dwindle_tree_contains(&tree, window) {
            let mut assignments: Vec<TileAssignment> = Vec::new();
            collect_dwindle_assignments(&tree, outer_area, config, &mut assignments);
            proof {
                assert(assignments@ =~= tree.tiles(outer_area, config));
            }
            let target: TileAssignment = new_dwindle_split_target(
                &assignments,
                smart,
                cursor_position,
            );
            let split_cursor: Option<Point> = if smart {
                cursor_position
            } else {
                None
            };
            let direction: SplitDirection = dwindle_split_direction(
                target.rect,
                config,
                split_cursor,
            );
            insert_dwindle_split(
                &mut tree,
                DwindleSplit { target: target.window, new_window: window, direction },
            );
        }
        next = next + 1;
    }
    proof {
        assert(windows@.take(next as int) =~= windows@);
        assert(tree == dwindle_tree(outer_area, windows@, config, cursor_position, splits@));
    }
    splits.clear();
    serialize_dwindle_tree(&tree, splits);
    proof {
        assert(splits@ =~= tree.history());
    }
    let mut assignments: Vec<TileAssignment> = Vec::new();
    collect_dwindle_assignments(&tree, outer_area, config, &mut assignments);
    proof {
        assert(assignments@ =~= tree.tiles(outer_area, config));
    }
    sort_assignments_by_window_order(&mut assignments, windows);
    let mut placed: Vec<TileAssignment> = Vec::new();
    let mut at: usize = 0;
    while at < assignments.len()
        invariant
            at <= assignments.len(),
            placed.len() == at,
            forall|i: int|
                0 <= i < at ==> #[trigger] placed[i] == bordered(
                    assignments[i].window,
                    assignments[i].rect,
                    config,
                ),
        decreases assignments.len() - at,
    {
        placed.push(
            TileAssignment {
                window: assignments[at].window,
                rect: reserve_window_rect(assignments[at].rect, config),
            },
        );
        at = at + 1;
    }
    proof {
        assert(placed@ =~= dwindled(
            work_area,
            windows@,
            config,
            cursor_position,
            old(splits)@,
        ));
    }
    placed
}

} // verus!
