//! Applying tiles: which windows are moved, what is learned from where they end up, and what is
//! counted.

use vstd::prelude::*;

use crate::daemon_state::{limit_of, DaemonPerformance, DaemonState, DaemonView};
use crate::geometry::{MonitorInfo, Point, Rect, TileAssignment, WindowHandle};
use crate::handles::{lemma_filter_ends, lemma_filter_step};
use crate::monitors::{close_to, rect_within_tolerance};
use crate::num::{clamp_i32, max_i32, sat_sub};
use crate::size::{Size, WindowSizeConstraints};
use crate::window::WindowInfo;

verus! {

/// How often tiles are computed anew because windows did not take their sizes.
pub const TILE_FEEDBACK_PASSES: usize = 3;

/// How many pixels a window may be larger than its tile.
pub const TILE_FEEDBACK_TOLERANCE_PX: i32 = 0;

/// How many pixels an edge may be off before a window is moved.
pub const LAYOUT_APPLY_TOLERANCE_PX: i32 = 1;

/// How far the application of tiles has come: the pass, whether there was anything to place, and how
/// many windows were moved and left alone.
#[derive(Debug, Clone, Copy, PartialEq, Eq, Structural)]
pub struct RelayoutProgress {
    pub pass: usize,
    pub had_assignments: bool,
    pub applied_count: usize,
    pub skipped_count: usize,
}

/// `a + b`, held within the counts.
pub open spec fn counted(a: int, b: int) -> int {
    if a + b > usize::MAX {
        usize::MAX as int
    } else {
        a + b
    }
}

impl RelayoutProgress {
    /// Nothing applied yet.
    pub fn new() -> (r: RelayoutProgress)
        ensures
            r == (RelayoutProgress {
                pass: 0,
                had_assignments: false,
                applied_count: 0,
                skipped_count: 0,
            }),
    {
        RelayoutProgress { pass: 0, had_assignments: false, applied_count: 0, skipped_count: 0 }
    }
}

impl DaemonView {
    /// The state after a window was seen at a rectangle.
    pub open spec fn with_window_rect(self, window: WindowHandle, rect: Rect) -> DaemonView {
        let seen = if self.windows.contains_key(window.0) {
            DaemonView {
                windows: self.windows.insert(
                    window.0,
                    WindowInfo { rect, ..self.windows[window.0] },
                ),
                ..self
            }
        } else {
            self
        };
        seen.with_last_rect(window, rect)
    }

    /// Whether a tile calls for a move: its window may be moved and is not there yet.
    pub open spec fn is_actionable(self, monitors: Seq<MonitorInfo>) -> spec_fn(TileAssignment) -> bool {
        |tile: TileAssignment|
            {
                &&& self.safe_to_move(tile.window, monitors)
                &&& !close_to(
                    self.windows[tile.window.0].rect,
                    tile.rect,
                    LAYOUT_APPLY_TOLERANCE_PX as int,
                )
            }
    }

    /// The limits learned of a window that is at `actual` and not at its tile.
    pub open spec fn learned_from(self, window: WindowHandle, actual: Rect) -> WindowSizeConstraints {
        (WindowSizeConstraints {
            min: limit_of(self.learned, window).min.spec_max(
                Size { width: actual.spec_width() as i32, height: actual.spec_height() as i32 },
            ),
            max: None,
        }).spec_normalized()
    }

    /// Whether something new is learned of a window: it is larger than its tile, and larger than what
    /// was known.
    pub open spec fn learns(self, tile: TileAssignment, actual: Option<Rect>) -> bool {
        &&& actual matches Some(rect)
        &&& {
            ||| clamp_i32(rect.spec_width() - tile.rect.spec_width()) > TILE_FEEDBACK_TOLERANCE_PX
            ||| clamp_i32(rect.spec_height() - tile.rect.spec_height()) > TILE_FEEDBACK_TOLERANCE_PX
        }
        &&& self.learned_from(tile.window, rect) != limit_of(self.learned, tile.window)
    }

    /// The state after it was seen where a tiled window is, if it could be seen.
    pub open spec fn with_seen(self, tile: TileAssignment, actual: Option<Rect>) -> DaemonView {
        match actual {
            None => self,
            Some(rect) => {
                let seen = self.with_window_rect(tile.window, rect);
                if self.learns(tile, actual) {
                    DaemonView {
                        learned: seen.learned.insert(
                            tile.window.0,
                            self.learned_from(tile.window, rect),
                        ),
                        ..seen
                    }
                } else {
                    seen
                }
            },
        }
    }

    /// The state after it was seen where tiled windows are.
    pub open spec fn with_all_seen(self, tiles: Seq<TileAssignment>, actual: Seq<Option<Rect>>) -> DaemonView
        decreases tiles.len(),
    {
        if tiles.len() == 0 {
            self
        } else {
            self.with_all_seen(tiles.drop_last(), actual).with_seen(
                tiles.last(),
                actual[tiles.len() - 1],
            )
        }
    }

    /// Whether something new is learned of one of the windows.
    pub open spec fn learns_any(self, tiles: Seq<TileAssignment>, actual: Seq<Option<Rect>>) -> bool
        decreases tiles.len(),
    {
        if tiles.len() == 0 {
            false
        } else {
            self.learns_any(tiles.drop_last(), actual) || self.with_all_seen(
                tiles.drop_last(),
                actual,
            ).learns(tiles.last(), actual[tiles.len() - 1])
        }
    }
}

/// One more than a count, held within 64 bits.
fn add_count(a: u64) -> (r: u64)
    ensures
        r == if a == u64::MAX {
            u64::MAX
        } else {
            (a + 1) as u64
        },
{
    if a == u64::MAX {
        u64::MAX
    } else {
        a + 1
    }
}

fn add_size(a: usize, b: usize) -> (r: usize)
    ensures
        r == counted(a as int, b as int),
{
    if a > usize::MAX - b {
        usize::MAX
    } else {
        a + b
    }
}

/// What is counted after tiles were applied: moves make a layout, and tiles without moves a skipped
/// one.
pub open spec fn recorded(perf: DaemonPerformance, progress: RelayoutProgress, elapsed_ms: u64) -> DaemonPerformance {
    if progress.applied_count > 0 {
        DaemonPerformance {
            relayout_count: if perf.relayout_count == u64::MAX {
                u64::MAX
            } else {
                (perf.relayout_count + 1) as u64
            },
            last_relayout_duration_ms: elapsed_ms,
            last_relayout_move_count: progress.applied_count,
            ..perf
        }
    } else if progress.had_assignments {
        DaemonPerformance {
            skipped_relayout_count: if perf.skipped_relayout_count == u64::MAX {
                u64::MAX
            } else {
                (perf.skipped_relayout_count + 1) as u64
            },
            last_relayout_duration_ms: elapsed_ms,
            last_relayout_move_count: 0,
            ..perf
        }
    } else {
        perf
    }
}

impl DaemonState {
    /// Takes note of where a window is.
    pub fn update_window_rect(&mut self, window: WindowHandle, rect: Rect)
        requires
            old(self).wf(),
        ensures
            final(self).wf(),
            final(self)@ == old(self)@.with_window_rect(window, rect),
    {
        if let Some(info) = self.windows.get_mut(window.0) {
            info.rect = rect;
        }
        self.workspaces.update_window_rect(window, rect);
    }

    /// The tiles that call for a move.
    pub fn actionable_tile_assignments(
        &self,
        assignments: &[TileAssignment],
        monitors: &[MonitorInfo],
    ) -> (r: Vec<TileAssignment>)
        requires
            self.wf(),
        ensures
            r@ == assignments@.filter(self@.is_actionable(monitors@)),
            r.len() <= assignments.len(),
    {
        let ghost keep = self@.is_actionable(monitors@);
        let mut kept: Vec<TileAssignment> = Vec::new();
        let mut index: usize = 0;
        proof {
            lemma_filter_ends(assignments@, keep);
        }
        while index < assignments.len()
            invariant
                index <= assignments.len(),
                self.wf(),
                keep == self@.is_actionable(monitors@),
                kept@ == assignments@.take(index as int).filter(keep),
                kept.len() <= index,
            decreases assignments.len() - index,
        {
            let assignment: TileAssignment = assignments[index];
            proof {
                lemma_filter_step(assignments@, index as int, keep);
            }
            if self.is_safe_to_move_window(assignment.window, monitors) {
                let there: bool = match self.windows.get(assignment.window.0) {
                    Some(window) => rect_within_tolerance(
                        window.rect,
                        assignment.rect,
                        LAYOUT_APPLY_TOLERANCE_PX,
                    ),
                    None => false,
                };
                if !there {
                    kept.push(assignment);
                }
            }
            index = index + 1;
        }
        proof {
            lemma_filter_ends(assignments@, keep);
        }
        kept
    }

    /// Takes note of where tiled windows are, and learns the least sizes of those that are larger than
    /// their tiles; says whether anything was learned.
    pub fn learn_constraints_from_actual_rects(
        &mut self,
        assignments: &[TileAssignment],
        actual: &[Option<Rect>],
    ) -> (r: bool)
        requires
            old(self).wf(),
            actual.len() == assignments.len(),
        ensures
            final(self).wf(),
            final(self)@ == old(self)@.with_all_seen(assignments@, actual@),
            r == old(self)@.learns_any(assignments@, actual@),
    {
        let mut changed: bool = false;
        let mut index: usize = 0;
        proof {
            assert(assignments@.take(0) =~= Seq::empty());
        }
        while index < assignments.len()
            invariant
                index <= assignments.len(),
                actual.len() == assignments.len(),
                self.wf(),
                self@ == old(self)@.with_all_seen(assignments@.take(index as int), actual@),
                changed == old(self)@.learns_any(assignments@.take(index as int), actual@),
            decreases assignments.len() - index,
        {
            proof {
                assert(assignments@.take(index + 1).drop_last() =~= assignments@.take(index as int));
                assert(assignments@.take(index + 1).last() == assignments@[index as int]);
            }
            if self.learn_from_actual_rect(assignments[index], actual[index]) {
                changed = true;
            }
            index = index + 1;
        }
        proof {
            assert(assignments@.take(index as int) =~= assignments@);
        }
        changed
    }

    /// Takes note of where a tiled window is; says whether its least size was learned.
    fn learn_from_actual_rect(&mut self, assignment: TileAssignment, actual: Option<Rect>) -> (r: bool)
        requires
            old(self).wf(),
        ensures
            final(self).wf(),
            final(self)@ == old(self)@.with_seen(assignment, actual),
            r == old(self)@.learns(assignment, actual),
    {
        let actual: Rect = match actual {
            Some(rect) => rect,
            None => {
                return false;
            },
        };
        self.update_window_rect(assignment.window, actual);
        let extra_width: i32 = max_i32(sat_sub(actual.width(), assignment.rect.width()), 0);
        let extra_height: i32 = max_i32(sat_sub(actual.height(), assignment.rect.height()), 0);
        if extra_width <= TILE_FEEDBACK_TOLERANCE_PX && extra_height <= TILE_FEEDBACK_TOLERANCE_PX {
            return false;
        }
        let current: WindowSizeConstraints = match self.learned_size_constraints.get(
            assignment.window.0,
        ) {
            Some(constraints) => *constraints,
            None => WindowSizeConstraints::none(),
        };
        let learned: WindowSizeConstraints = WindowSizeConstraints::minimum(
            max_i32(current.min.width, actual.width()),
            max_i32(current.min.height, actual.height()),
        );
        if learned != current {
            self.learned_size_constraints.insert(assignment.window.0, learned);
            true
        } else {
            false
        }
    }

    /// Counts the application of tiles.
    pub fn record_relayout_result(&mut self, progress: RelayoutProgress, elapsed_ms: u64)
        requires
            old(self).wf(),
        ensures
            final(self).wf(),
            final(self)@ == (DaemonView {
                perf: recorded(old(self)@.perf, progress, elapsed_ms),
                ..old(self)@
            }),
    {
        if progress.applied_count == 0 {
            if progress.had_assignments {
                self.perf.skipped_relayout_count = add_count(self.perf.skipped_relayout_count);
                self.perf.last_relayout_duration_ms = elapsed_ms;
                self.perf.last_relayout_move_count = 0;
            }
            return ;
        }
        self.perf.relayout_count = add_count(self.perf.relayout_count);
        self.perf.last_relayout_duration_ms = elapsed_ms;
        self.perf.last_relayout_move_count = progress.applied_count;
    }

    /// The moves that tiles call for in a pass, and what is counted of them; no moves end the
    /// application.
    pub fn next_moves(
        &self,
        progress: RelayoutProgress,
        assignments: &[TileAssignment],
        monitors: &[MonitorInfo],
    ) -> (r: (Vec<TileAssignment>, RelayoutProgress))
        requires
            self.wf(),
        ensures
            progress.pass >= TILE_FEEDBACK_PASSES || assignments.len() == 0 ==> r.0.len() == 0 && r.1
                == progress,
            progress.pass < TILE_FEEDBACK_PASSES && assignments.len() > 0 ==> {
                &&& r.0@ == assignments@.filter(self@.is_actionable(monitors@))
                &&& r.1 == (RelayoutProgress {
                    pass: progress.pass,
                    had_assignments: true,
                    applied_count: counted(progress.applied_count as int, r.0@.len() as int) as usize,
                    skipped_count: counted(
                        progress.skipped_count as int,
                        assignments@.len() - r.0@.len(),
                    ) as usize,
                })
            },
    {
        if progress.pass >= TILE_FEEDBACK_PASSES || assignments.len() == 0 {
            return (Vec::new(), progress);
        }
        let moves: Vec<TileAssignment> = self.actionable_tile_assignments(assignments, monitors);
        let next: RelayoutProgress = RelayoutProgress {
            pass: progress.pass,
            had_assignments: true,
            applied_count: add_size(progress.applied_count, moves.len()),
            skipped_count: add_size(progress.skipped_count, assignments.len() - moves.len()),
        };
        (moves, next)
    }

    /// What follows the moves of a pass, once it was seen where the windows are: new tiles if a least
    /// size was learned and a pass is left, or the end.
    pub fn after_moves(
        &mut self,
        progress: RelayoutProgress,
        moves: &[TileAssignment],
        actual: &[Option<Rect>],
        monitors: &[MonitorInfo],
        cursor_position: Option<Point>,
    ) -> (r: Option<Vec<TileAssignment>>)
        requires
            old(self).wf(),
            old(self).tile_order.len() <= i32::MAX,
            actual.len() == moves.len(),
        ensures
            final(self).wf(),
            final(self).tile_order@ == old(self).tile_order@,
            ({
                let seen = old(self)@.with_all_seen(moves@, actual@);
                if old(self)@.learns_any(moves@, actual@) && progress.pass + 1 < TILE_FEEDBACK_PASSES {
                    &&& r matches Some(tiles)
                    &&& tiles@ == seen.all_tiles(monitors@, cursor_position)
                    &&& final(self)@ == seen.retiled(monitors@, cursor_position)
                } else {
                    r is None && final(self)@ == seen
                }
            }),
    {
        let changed: bool = self.learn_constraints_from_actual_rects(moves, actual);
        proof {
            lemma_seeing_keeps_order(old(self)@, moves@, actual@);
        }
        if !changed || progress.pass >= TILE_FEEDBACK_PASSES - 1 {
            return None;
        }
        Some(self.tile_assignments(monitors, cursor_position))
    }
}

proof fn lemma_seeing_keeps_order(state: DaemonView, tiles: Seq<TileAssignment>, actual: Seq<Option<Rect>>)
    ensures
        state.with_all_seen(tiles, actual).tile_order == state.tile_order,
    decreases tiles.len(),
{
    if tiles.len() > 0 {
        lemma_seeing_keeps_order(state, tiles.drop_last(), actual);
    }
}

/// A tile that its window has taken calls for no move, and nothing is learned from it.
pub proof fn placed_window_is_left_alone(
    state: DaemonView,
    tile: TileAssignment,
    monitors: Seq<MonitorInfo>,
)
    requires
        state.windows.contains_key(tile.window.0),
        state.windows[tile.window.0].rect == tile.rect,
    ensures
        !state.is_actionable(monitors)(tile),
        !state.learns(tile, Some(tile.rect)),
{
}

/// What is learned from a window that is larger than its tile is that it cannot be smaller than it is.
pub proof fn learned_size_is_that_of_the_window(state: DaemonView, tile: TileAssignment, rect: Rect)
    requires
        state.learns(tile, Some(rect)),
    ensures
        ({
            let learned = limit_of(state.with_seen(tile, Some(rect)).learned, tile.window);
            learned.min.width >= rect.spec_width() && learned.min.height >= rect.spec_height()
        }),
{
}

/// Seeing where windows are never lowers what is known of their least sizes.
pub proof fn learning_never_lowers_a_size(
    state: DaemonView,
    tiles: Seq<TileAssignment>,
    actual: Seq<Option<Rect>>,
    window: WindowHandle,
)
    ensures
        ({
            let before = limit_of(state.learned, window).min;
            let after = limit_of(state.with_all_seen(tiles, actual).learned, window).min;
            before.width <= after.width && before.height <= after.height
        }),
    decreases tiles.len(),
{
    if tiles.len() > 0 {
        learning_never_lowers_a_size(state, tiles.drop_last(), actual, window);
    }
}

} // verus!
