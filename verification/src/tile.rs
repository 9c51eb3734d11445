//! Placing windows in the layout that the settings choose.

use vstd::prelude::*;

use crate::dwindle::{dwindle_assignments, dwindle_memory, dwindled, DwindleSplit};
use crate::geometry::{Point, Rect, TileAssignment, WindowHandle};
use crate::layout::{LayoutConfig, LayoutKind};
use crate::stack::{master_stack, master_stack_assignments, stack_assignments, stacked, StackAxis};

verus! {

/// The tiles of the windows in the layout that the settings choose.
pub open spec fn laid_out(
    work_area: Rect,
    windows: Seq<WindowHandle>,
    config: LayoutConfig,
    cursor_position: Option<Point>,
    splits: Seq<DwindleSplit>,
) -> Seq<TileAssignment> {
    match config.kind {
        LayoutKind::MasterStack => master_stack(work_area, windows, config),
        LayoutKind::Dwindle => dwindled(work_area, windows, config, cursor_position, splits),
        LayoutKind::VerticalStack => stacked(work_area, windows, config, StackAxis::Rows),
        LayoutKind::HorizontalStack => stacked(work_area, windows, config, StackAxis::Columns),
    }
}

/// The splits that are remembered after a layout: the dwindle layout renews them, the others leave
/// them alone.
pub open spec fn splits_after(
    work_area: Rect,
    windows: Seq<WindowHandle>,
    config: LayoutConfig,
    cursor_position: Option<Point>,
    splits: Seq<DwindleSplit>,
) -> Seq<DwindleSplit> {
    if config.kind is Dwindle {
        dwindle_memory(work_area, windows, config, cursor_position, splits)
    } else {
        splits
    }
}

/// Places windows in the master-stack layout with the default settings.
pub fn tile_windows(work_area: Rect, windows: &[WindowHandle]) -> (r: Vec<TileAssignment>)
    requires
        windows.len() <= i32::MAX,
    ensures
        r@ == master_stack(work_area, windows@, LayoutConfig::spec_default()),
{
    master_stack_assignments(work_area, windows, LayoutConfig::default())
}

/// Places windows without a cursor and without remembered splits.
pub fn tile_windows_with_config(
    work_area: Rect,
    windows: &[WindowHandle],
    config: LayoutConfig,
) -> (r: Vec<TileAssignment>)
    requires
        config.kind is Dwindle || windows.len() <= i32::MAX,
    ensures
        r@ == laid_out(work_area, windows@, config, None, Seq::empty()),
{
    tile_windows_with_state(work_area, windows, config, None, None)
}

/// Places windows; the dwindle layout reads the remembered splits, if there are any, and renews
/// them.
pub fn tile_windows_with_state(
    work_area: Rect,
    windows: &[WindowHandle],
    config: LayoutConfig,
    cursor_position: Option<Point>,
    dwindle_splits: Option<&mut Vec<DwindleSplit>>,
) -> (r: Vec<TileAssignment>)
    requires
        config.kind is Dwindle || windows.len() <= i32::MAX,
    ensures
        match dwindle_splits {
            Some(splits) => {
                &&& r@ == laid_out(work_area, windows@, config, cursor_position, (*splits)@)
                &&& final(splits)@ == splits_after(
                    work_area,
                    windows@,
                    config,
                    cursor_position,
                    (*splits)@,
                )
            },
            None => r@ == laid_out(work_area, windows@, config, cursor_position, Seq::empty()),
        },
{
    let config: LayoutConfig = config.normalized();
    match config.kind {
        LayoutKind::MasterStack => master_stack_assignments(work_area, windows, config),
        LayoutKind::Dwindle => {
            match dwindle_splits {
                Some(splits) => dwindle_assignments(
                    work_area,
                    windows,
                    config,
                    cursor_position,
                    splits,
                ),
                None => {
                    let mut splits: Vec<DwindleSplit> = Vec::new();
                    dwindle_assignments(work_area, windows, config, cursor_position, &mut splits)
                },
            }
        },
        LayoutKind::VerticalStack => stack_assignments(work_area, windows, config, StackAxis::Rows),
        LayoutKind::HorizontalStack => {
            stack_assignments(work_area, windows, config, StackAxis::Columns)
        },
    }
}

/// Every window gets one tile, in the order of the windows: in the dwindle layout if no window is
/// listed twice, and in the master-stack layout if there is room for a master.
pub proof fn every_window_is_placed(
    work_area: Rect,
    windows: Seq<WindowHandle>,
    config: LayoutConfig,
    cursor_position: Option<Point>,
    splits: Seq<DwindleSplit>,
)
    requires
        !work_area.covers_nothing(),
        windows.len() <= usize::MAX,
        config.kind is Dwindle ==> windows.no_duplicates(),
        config.kind is MasterStack && windows.len() > 1 ==> crate::stack::master_room(
            work_area.shrunk(config.spec_normalized().gap as int),
            config.spec_normalized().gap as int,
        ) > 0,
    ensures
        laid_out(work_area, windows, config, cursor_position, splits).map_values(
            |tile: TileAssignment| tile.window,
        ) == windows,
{
    if config.kind is Dwindle {
        crate::dwindle_laws::dwindle_places_each_window(
            work_area,
            windows,
            config,
            cursor_position,
            splits,
        );
    }
    assert(laid_out(work_area, windows, config, cursor_position, splits).map_values(
        |tile: TileAssignment| tile.window,
    ) =~= windows);
}

/// Windows that are placed again, with what is remembered of their layout and wherever the cursor is,
/// get the tiles that they have, and the same is remembered.
pub proof fn placing_again_changes_nothing(
    work_area: Rect,
    windows: Seq<WindowHandle>,
    config: LayoutConfig,
    cursor_position: Option<Point>,
    later_cursor_position: Option<Point>,
    splits: Seq<DwindleSplit>,
)
    ensures
        ({
            let after = splits_after(work_area, windows, config, cursor_position, splits);
            &&& laid_out(work_area, windows, config, later_cursor_position, after) == laid_out(
                work_area,
                windows,
                config,
                cursor_position,
                splits,
            )
            &&& splits_after(work_area, windows, config, later_cursor_position, after) == after
        }),
{
    crate::dwindle_laws::relayout_keeps_the_layout(
        work_area,
        windows,
        config,
        cursor_position,
        later_cursor_position,
        splits,
    );
}

} // verus!
