//! Placing windows that have limits on their size.

use vstd::prelude::*;

use crate::dwindle::DwindleSplit;
use crate::geometry::{Point, Rect, TileAssignment, WindowHandle};
use crate::layout::{LayoutConfig, LayoutKind};
use crate::num::{clamp_i32, clamp_to_i32, max_int, min_int, sat_add};
use crate::size::{Size, WindowSizeConstraints};
use crate::tile::{laid_out, splits_after, tile_windows_with_state};

verus! {

/// A window that is to be placed, with the limits on its size.
#[derive(Debug, Clone, Copy, PartialEq, Eq, Structural)]
pub struct WindowLayoutInfo {
    pub handle: WindowHandle,
    pub size_constraints: WindowSizeConstraints,
}

/// The handles of windows that are to be placed.
pub open spec fn layout_handles(windows: Seq<WindowLayoutInfo>) -> Seq<WindowHandle> {
    windows.map_values(|window: WindowLayoutInfo| window.handle)
}

/// The limits on the size of a window among those that are to be placed.
pub open spec fn limits_for(windows: Seq<WindowLayoutInfo>, window: WindowHandle) -> WindowSizeConstraints
    decreases windows.len(),
{
    if windows.len() == 0 {
        WindowSizeConstraints::spec_none()
    } else if windows.last().handle == window {
        windows.last().size_constraints
    } else {
        limits_for(windows.drop_last(), window)
    }
}

/// The least size of a window among those that are to be placed.
pub open spec fn least_size(windows: Seq<WindowLayoutInfo>, window: WindowHandle) -> Size {
    limits_for(windows, window).min
}

/// The width that the windows of some tiles need.
pub open spec fn needed_width(windows: Seq<WindowLayoutInfo>, tiles: Seq<TileAssignment>) -> int
    decreases tiles.len(),
{
    if tiles.len() == 0 {
        0
    } else {
        max_int(
            needed_width(windows, tiles.drop_last()),
            least_size(windows, tiles.last().window).width as int,
        )
    }
}

/// The width of a master that shares some room with a stack: the one that it has if its limits allow
/// that, else the nearest that they do; less if the stack needs more, but not below what the master
/// itself needs.
pub open spec fn master_width(width: int, room: int, limits: WindowSizeConstraints, needed: int) -> int {
    let wanted = max_int(
        limits.min.width as int,
        match limits.max {
            Some(max) => min_int(width, max.width as int),
            None => width,
        },
    );
    let left = if wanted > room - needed {
        max_int(room - needed, limits.min.width as int)
    } else {
        wanted
    };
    min_int(left, room)
}

/// How far the border between master and stack moves to the right.
pub open spec fn master_shift(windows: Seq<WindowLayoutInfo>, tiles: Seq<TileAssignment>) -> int {
    let master = tiles[0].rect.spec_width();
    let stack = tiles[1].rect.spec_width();
    master_width(
        master,
        master + stack,
        limits_for(windows, tiles[0].window),
        needed_width(windows, tiles.skip(1)),
    ) - master
}

/// A tile whose border to the stack, or to the master, moved to the right.
pub open spec fn moved_border(tile: TileAssignment, is_master: bool, shift: int) -> TileAssignment {
    TileAssignment {
        window: tile.window,
        rect: if is_master {
            Rect { right: clamp_i32(tile.rect.right + shift) as i32, ..tile.rect }
        } else {
            Rect { left: clamp_i32(tile.rect.left + shift) as i32, ..tile.rect }
        },
    }
}

/// The tiles of windows with the border between master and stack where their limits want it.
pub open spec fn balanced(
    windows: Seq<WindowLayoutInfo>,
    tiles: Seq<TileAssignment>,
    config: LayoutConfig,
) -> Seq<TileAssignment> {
    if config.kind is MasterStack && tiles.len() >= 2 {
        Seq::new(tiles.len(), |i: int| moved_border(tiles[i], i == 0, master_shift(windows, tiles)))
    } else {
        tiles
    }
}

/// A rectangle that is at least as large as `least`, with the same near corner.
pub open spec fn enlarged(rect: Rect, least: Size) -> Rect {
    Rect {
        left: rect.left,
        top: rect.top,
        right: if rect.spec_width() < least.width {
            clamp_i32(rect.left + least.width) as i32
        } else {
            rect.right
        },
        bottom: if rect.spec_height() < least.height {
            clamp_i32(rect.top + least.height) as i32
        } else {
            rect.bottom
        },
    }
}

/// The tiles of windows, each at least as large as its window can be.
#[verifier::opaque]
pub open spec fn layout_tiles(
    work_area: Rect,
    windows: Seq<WindowLayoutInfo>,
    config: LayoutConfig,
    cursor_position: Option<Point>,
    splits: Seq<DwindleSplit>,
) -> Seq<TileAssignment> {
    balanced(
        windows,
        laid_out(work_area, layout_handles(windows), config, cursor_position, splits),
        config,
    ).map_values(
        |tile: TileAssignment|
            TileAssignment {
                window: tile.window,
                rect: enlarged(tile.rect, least_size(windows, tile.window)),
            },
    )
}

/// The splits that are remembered after windows were placed.
pub open spec fn layout_splits(
    work_area: Rect,
    windows: Seq<WindowLayoutInfo>,
    config: LayoutConfig,
    cursor_position: Option<Point>,
    splits: Seq<DwindleSplit>,
) -> Seq<DwindleSplit> {
    splits_after(work_area, layout_handles(windows), config, cursor_position, splits)
}

fn find_limits(windows: &[WindowLayoutInfo], window: WindowHandle) -> (r: WindowSizeConstraints)
    ensures
        r == limits_for(windows@, window),
{
    let mut index: usize = windows.len();
    proof {
        assert(windows@.take(index as int) =~= windows@);
    }
    while index > 0
        invariant
            index <= windows.len(),
            limits_for(windows@, window) == limits_for(windows@.take(index as int), window),
        decreases index,
    {
        proof {
            assert(windows@.take(index as int).drop_last() =~= windows@.take(index - 1));
            assert(windows@.take(index as int).last() == windows@[index - 1]);
        }
        index = index - 1;
        if windows[index].handle == window {
            return windows[index].size_constraints;
        }
    }
    WindowSizeConstraints::none()
}

fn find_needed_width(windows: &[WindowLayoutInfo], tiles: &[TileAssignment]) -> (r: i64)
    requires
        tiles.len() >= 1,
    ensures
        r == needed_width(windows@, tiles@.skip(1)),
        0 <= r <= i32::MAX,
{
    let ghost stack = tiles@.skip(1);
    let mut needed: i64 = 0;
    let mut index: usize = 1;
    proof {
        assert(stack.take(0) =~= Seq::empty());
    }
    while index < tiles.len()
        invariant
            1 <= index <= tiles.len(),
            stack == tiles@.skip(1),
            0 <= needed <= i32::MAX,
            needed == needed_width(windows@, stack.take(index - 1)),
        decreases tiles.len() - index,
    {
        proof {
            assert(stack.take(index as int).drop_last() =~= stack.take(index - 1));
            assert(stack.take(index as int).last() == tiles@[index as int]);
        }
        let least: i64 = find_limits(windows, tiles[index].window).min.width as i64;
        if least > needed {
            needed = least;
        }
        index = index + 1;
    }
    proof {
        assert(stack.take(index - 1) =~= stack);
    }
    needed
}

fn balanced_width(width: i64, room: i64, limits: WindowSizeConstraints, needed: i64) -> (r: i64)
    requires
        i32::MIN <= width <= i32::MAX,
        2 * i32::MIN <= room <= 2 * i32::MAX,
        0 <= needed <= i32::MAX,
    ensures
        r == master_width(width as int, room as int, limits, needed as int),
        4 * i32::MIN <= r <= 4 * i32::MAX,
{
    let least: i64 = limits.min.width as i64;
    let below_max: i64 = match limits.max {
        Some(max) => if width <= max.width as i64 {
            width
        } else {
            max.width as i64
        },
        None => width,
    };
    let wanted: i64 = if below_max > least {
        below_max
    } else {
        least
    };
    let spared: i64 = room - needed;
    let left: i64 = if wanted > spared {
        if spared > least {
            spared
        } else {
            least
        }
    } else {
        wanted
    };
    if left < room {
        left
    } else {
        room
    }
}

fn balance(windows: &[WindowLayoutInfo], tiles: Vec<TileAssignment>, config: LayoutConfig) -> (r: Vec<
    TileAssignment,
>)
    ensures
        r@ == balanced(windows@, tiles@, config),
{
    let has_master: bool = match config.kind {
        LayoutKind::MasterStack => true,
        _ => false,
    };
    if !has_master || tiles.len() < 2 {
        return tiles;
    }
    let master: i64 = tiles[0].rect.width() as i64;
    let stack: i64 = tiles[1].rect.width() as i64;
    let shift: i64 = balanced_width(
        master,
        master + stack,
        find_limits(windows, tiles[0].window),
        find_needed_width(windows, &tiles),
    ) - master;
    let mut moved: Vec<TileAssignment> = Vec::new();
    let mut index: usize = 0;
    while index < tiles.len()
        invariant
            index <= tiles.len(),
            moved.len() == index,
            shift == master_shift(windows@, tiles@),
            8 * i32::MIN <= shift <= 8 * i32::MAX,
            forall|i: int|
                0 <= i < index ==> #[trigger] moved@[i] == moved_border(
                    tiles@[i],
                    i == 0,
                    shift as int,
                ),
        decreases tiles.len() - index,
    {
        let tile: TileAssignment = tiles[index];
        let rect: Rect = if index == 0 {
            Rect { right: clamp_to_i32(tile.rect.right as i64 + shift), ..tile.rect }
        } else {
            Rect { left: clamp_to_i32(tile.rect.left as i64 + shift), ..tile.rect }
        };
        moved.push(TileAssignment { window: tile.window, rect });
        index = index + 1;
    }
    proof {
        assert(moved@ =~= balanced(windows@, tiles@, config));
    }
    moved
}

fn enlarge(rect: Rect, least: Size) -> (r: Rect)
    ensures
        r == enlarged(rect, least),
{
    Rect {
        left: rect.left,
        top: rect.top,
        right: if rect.width() < least.width {
            sat_add(rect.left, least.width)
        } else {
            rect.right
        },
        bottom: if rect.height() < least.height {
            sat_add(rect.top, least.height)
        } else {
            rect.bottom
        },
    }
}

fn handles_to_place(windows: &[WindowLayoutInfo]) -> (r: Vec<WindowHandle>)
    ensures
        r@ == layout_handles(windows@),
{
    let mut handles: Vec<WindowHandle> = Vec::new();
    let mut index: usize = 0;
    while index < windows.len()
        invariant
            index <= windows.len(),
            handles.len() == index,
            forall|i: int| 0 <= i < index ==> #[trigger] handles[i] == windows@[i].handle,
        decreases windows.len() - index,
    {
        handles.push(windows[index].handle);
        index = index + 1;
    }
    proof {
        assert(handles@ =~= layout_handles(windows@));
    }
    handles
}

/// Places windows, each in a tile at least as large as it can be, and renews the remembered splits.
pub fn tile_layout_windows_with_state(
    work_area: Rect,
    windows: &[WindowLayoutInfo],
    config: LayoutConfig,
    cursor_position: Option<Point>,
    splits: &mut Vec<DwindleSplit>,
) -> (r: Vec<TileAssignment>)
    requires
        windows.len() <= i32::MAX,
    ensures
        r@ == layout_tiles(work_area, windows@, config, cursor_position, old(splits)@),
        final(splits)@ == layout_splits(work_area, windows@, config, cursor_position, old(splits)@),
{
    let handles: Vec<WindowHandle> = handles_to_place(windows);
    let laid: Vec<TileAssignment> = tile_windows_with_state(
        work_area,
        &handles,
        config,
        cursor_position,
        Some(splits),
    );
    let tiles: Vec<TileAssignment> = balance(windows, laid, config);
    let mut fitted: Vec<TileAssignment> = Vec::new();
    let mut index: usize = 0;
    while index < tiles.len()
        invariant
            index <= tiles.len(),
            fitted.len() == index,
            forall|i: int|
                0 <= i < index ==> #[trigger] fitted[i] == (TileAssignment {
                    window: tiles@[i].window,
                    rect: enlarged(tiles@[i].rect, least_size(windows@, tiles@[i].window)),
                }),
        decreases tiles.len() - index,
    {
        let tile: TileAssignment = tiles[index];
        fitted.push(
            TileAssignment {
                window: tile.window,
                rect: enlarge(tile.rect, find_limits(windows, tile.window).min),
            },
        );
        index = index + 1;
    }
    proof {
        reveal(layout_tiles);
        assert(fitted@ =~= layout_tiles(
            work_area,
            windows@,
            config,
            cursor_position,
            old(splits)@,
        ));
    }
    fitted
}

/// Places windows without a cursor and without remembered splits.
pub fn tile_layout_windows_with_config(
    work_area: Rect,
    windows: &[WindowLayoutInfo],
    config: LayoutConfig,
) -> (r: Vec<TileAssignment>)
    requires
        windows.len() <= i32::MAX,
    ensures
        r@ == layout_tiles(work_area, windows@, config, None, Seq::empty()),
{
    let mut splits: Vec<DwindleSplit> = Vec::new();
    tile_layout_windows_with_state(work_area, windows, config, None, &mut splits)
}

/// Whether every tile lies in the work area.
pub open spec fn tiles_fit(work_area: Rect, tiles: Seq<TileAssignment>) -> bool {
    forall|i: int| 0 <= i < tiles.len() ==> (#[trigger] tiles[i]).rect.within(work_area)
}

/// Whether every tile lies in the work area.
pub fn tile_assignments_fit_work_area(work_area: Rect, assignments: &[TileAssignment]) -> (r: bool)
    ensures
        r == tiles_fit(work_area, assignments@),
{
    let mut index: usize = 0;
    while index < assignments.len()
        invariant
            index <= assignments.len(),
            forall|i: int|
                0 <= i < index ==> (#[trigger] assignments@[i]).rect.within(work_area),
        decreases assignments.len() - index,
    {
        let rect: Rect = assignments[index].rect;
        if rect.left < work_area.left || rect.right > work_area.right || rect.top < work_area.top
            || rect.bottom > work_area.bottom {
            return false;
        }
        index = index + 1;
    }
    true
}

/// A tile is never smaller than its window can be, and a tile that is large enough stays as it is.
pub proof fn tiles_respect_least_sizes(rect: Rect, least: Size)
    requires
        rect.left + least.width <= i32::MAX,
        rect.top + least.height <= i32::MAX,
        0 <= least.width,
        0 <= least.height,
    ensures
        enlarged(rect, least).spec_width() >= least.width,
        enlarged(rect, least).spec_height() >= least.height,
        rect.spec_width() >= least.width && rect.spec_height() >= least.height ==> enlarged(rect, least)
            == rect,
{
}

/// Where the room is enough for what master and stack need, both get it, the master's greatest width
/// is kept, and a width that suits both stays as it is.
pub proof fn master_and_stack_get_what_they_need(
    width: int,
    room: int,
    limits: WindowSizeConstraints,
    needed: int,
)
    requires
        0 <= width <= room,
        0 <= limits.min.width,
        0 <= needed,
        limits.min.width + needed <= room,
        limits.max matches Some(max) ==> max.width >= limits.min.width,
    ensures
        master_width(width, room, limits, needed) >= limits.min.width,
        room - master_width(width, room, limits, needed) >= needed,
        limits.max matches Some(max) ==> master_width(width, room, limits, needed) <= max.width,
        limits.min.width <= width && width <= room - needed && (limits.max matches Some(max) ==> width
            <= max.width) ==> master_width(width, room, limits, needed) == width,
{
}

} // verus!
