//! The windows of one monitor in layout order, with focus and floating windows.

use vstd::prelude::*;

use crate::dwindle::DwindleSplit;
use crate::geometry::{MonitorId, Point, Rect, TileAssignment, WindowHandle};
use crate::handles::{contains_handle, first_position, lemma_position, position_of};
use crate::layout::{LayoutConfig, LayoutDirection, WindowParticipation};
use crate::sorted_map::SortedMap;
use crate::tile::{laid_out, splits_after, tile_windows_with_state};

verus! {

/// The layout of one monitor.
#[derive(Debug, Clone, PartialEq, Eq)]
pub struct MonitorLayoutState {
    monitor: MonitorId,
    config: LayoutConfig,
    windows: Vec<WindowHandle>,
    focused: Option<WindowHandle>,
    participation: SortedMap<WindowParticipation>,
    dwindle_splits: Vec<DwindleSplit>,
}

/// The layout of one monitor as a value: what it is set to, its windows in layout order, the
/// focused one, the ones that float and how, and the remembered splits.
pub ghost struct LayoutView {
    pub monitor: MonitorId,
    pub config: LayoutConfig,
    pub windows: Seq<WindowHandle>,
    pub focused: Option<WindowHandle>,
    pub floating: Map<u64, WindowParticipation>,
    pub splits: Seq<DwindleSplit>,
}

impl LayoutView {
    /// How the window takes part in tiling.
    pub open spec fn participation(self, window: WindowHandle) -> WindowParticipation {
        if self.floating.contains_key(window.0) {
            self.floating[window.0]
        } else {
            WindowParticipation::Tiled
        }
    }

    /// The layout with the window set to take part in tiling so.
    pub open spec fn with_participation(
        self,
        window: WindowHandle,
        participation: WindowParticipation,
    ) -> LayoutView {
        LayoutView {
            floating: if participation is Tiled {
                self.floating.remove(window.0)
            } else {
                self.floating.insert(window.0, participation)
            },
            ..self
        }
    }

    /// The windows that are given tiles, in layout order.
    pub open spec fn tiled(self) -> Seq<WindowHandle> {
        self.windows.filter(|window: WindowHandle| self.participation(window) is Tiled)
    }

    /// The layout with the window added at the end; the first window is focused.
    pub open spec fn with_window(self, window: WindowHandle) -> LayoutView {
        LayoutView {
            windows: self.windows.push(window),
            focused: if self.focused is None {
                Some(window)
            } else {
                self.focused
            },
            ..self
        }
    }

    /// The layout without the window; focus goes to the window that takes its place in the order,
    /// or to the last one.
    pub open spec fn without_window(self, window: WindowHandle) -> LayoutView {
        match first_position(self.windows, window) {
            None => self,
            Some(at) => {
                let rest = self.windows.remove(at);
                LayoutView {
                    windows: rest,
                    floating: self.floating.remove(window.0),
                    focused: if self.focused != Some(window) {
                        self.focused
                    } else if rest.len() == 0 {
                        None
                    } else if at < rest.len() {
                        Some(rest[at])
                    } else {
                        Some(rest.last())
                    },
                    ..self
                }
            },
        }
    }

    /// The layout after it has been laid out.
    pub open spec fn after_layout(self, work_area: Rect, cursor_position: Option<Point>) -> LayoutView {
        LayoutView {
            splits: splits_after(
                work_area,
                self.tiled(),
                self.config,
                cursor_position,
                self.splits,
            ),
            ..self
        }
    }

    /// The tiles of the layout.
    pub open spec fn tiles(self, work_area: Rect, cursor_position: Option<Point>) -> Seq<
        TileAssignment,
    > {
        laid_out(work_area, self.tiled(), self.config, cursor_position, self.splits)
    }

    /// The layout brought back to the default settings.
    pub open spec fn after_reset(self) -> LayoutView {
        LayoutView {
            config: LayoutConfig::spec_default(),
            floating: Map::empty(),
            splits: Seq::empty(),
            focused: if self.windows.len() > 0 {
                Some(self.windows[0])
            } else {
                None
            },
            ..self
        }
    }

    /// The window that focus reaches from `current` in the direction.
    pub open spec fn neighbor(
        self,
        current: Option<WindowHandle>,
        direction: LayoutDirection,
    ) -> Option<WindowHandle> {
        let index = match current {
            Some(window) => match first_position(self.windows, window) {
                Some(at) => at,
                None => 0,
            },
            None => 0,
        };
        if self.windows.len() == 0 {
            None
        } else {
            Some(self.windows[beside(index, self.windows.len() as int, direction)])
        }
    }

    /// Whether no window is listed twice, a window is focused exactly when there is one, only
    /// listed windows float, and the settings are in their ranges.
    pub open spec fn wf(self) -> bool {
        &&& self.windows.no_duplicates()
        &&& match self.focused {
            Some(window) => self.windows.contains(window),
            None => self.windows.len() == 0,
        }
        &&& forall|key: u64| #[trigger]
            self.floating.contains_key(key) ==> self.windows.contains(WindowHandle(key))
                && self.floating[key] !is Tiled
        &&& self.config.is_normal()
    }
}

/// The index next to `index` in the direction, wrapping round.
pub open spec fn beside(index: int, len: int, direction: LayoutDirection) -> int {
    if direction.leads_back() {
        if index == 0 {
            len - 1
        } else {
            index - 1
        }
    } else if index + 1 == len {
        0
    } else {
        index + 1
    }
}

/// The index next to `current_index` in the direction, wrapping round.
pub fn adjacent_index(current_index: usize, len: usize, direction: LayoutDirection) -> (r: Option<
    usize,
>)
    requires
        len > 0 ==> current_index < len,
    ensures
        match r {
            Some(index) => len > 0 && index == beside(current_index as int, len as int, direction),
            None => len == 0,
        },
{
    if len == 0 {
        return None;
    }
    if direction.is_backward() {
        Some(
            if current_index == 0 {
                len - 1
            } else {
                current_index - 1
            },
        )
    } else {
        Some(
            if current_index == len - 1 {
                0
            } else {
                current_index + 1
            },
        )
    }
}

impl View for MonitorLayoutState {
    type V = LayoutView;

    closed spec fn view(&self) -> LayoutView {
        LayoutView {
            monitor: self.monitor,
            config: self.config,
            windows: self.windows@,
            focused: self.focused,
            floating: self.participation@,
            splits: self.dwindle_splits@,
        }
    }
}

impl MonitorLayoutState {
    /// Whether the layout is well formed.
    pub closed spec fn wf(&self) -> bool {
        &&& self@.wf()
        &&& self.participation.wf()
    }

    /// A well-formed layout is so as a value.
    pub proof fn lemma_wf(&self)
        requires
            self.wf(),
        ensures
            self@.wf(),
    {
    }

    /// The empty layout of a monitor with the default settings.
    pub fn new(monitor: MonitorId) -> (r: MonitorLayoutState)
        ensures
            r.wf(),
            r@ == (LayoutView {
                monitor,
                config: LayoutConfig::spec_default(),
                windows: Seq::empty(),
                focused: None,
                floating: Map::empty(),
                splits: Seq::empty(),
            }),
    {
        MonitorLayoutState::with_config(monitor, LayoutConfig::default())
    }

    /// The empty layout of a monitor.
    pub fn with_config(monitor: MonitorId, config: LayoutConfig) -> (r: MonitorLayoutState)
        ensures
            r.wf(),
            r@ == (LayoutView {
                monitor,
                config: config.spec_normalized(),
                windows: Seq::empty(),
                focused: None,
                floating: Map::empty(),
                splits: Seq::empty(),
            }),
    {
        MonitorLayoutState {
            monitor,
            config: config.normalized(),
            windows: Vec::new(),
            focused: None,
            participation: SortedMap::new(),
            dwindle_splits: Vec::new(),
        }
    }

    /// The monitor.
    pub fn monitor(&self) -> (r: MonitorId)
        ensures
            r == self@.monitor,
    {
        self.monitor
    }

    /// The settings.
    pub fn config(&self) -> (r: LayoutConfig)
        ensures
            r == self@.config,
    {
        self.config
    }

    /// The focused window.
    pub fn focused(&self) -> (r: Option<WindowHandle>)
        ensures
            r == self@.focused,
    {
        self.focused
    }

    /// The windows in layout order.
    pub fn windows(&self) -> (r: &[WindowHandle])
        ensures
            r@ == self@.windows,
    {
        &self.windows
    }

    /// Whether the window floats.
    pub fn is_floating(&self, window: WindowHandle) -> (r: bool)
        requires
            self.wf(),
        ensures
            r == (self@.participation(window) !is Tiled),
    {
        self.participation(window).is_floating()
    }

    /// How the window takes part in tiling.
    pub fn participation(&self, window: WindowHandle) -> (r: WindowParticipation)
        requires
            self.wf(),
        ensures
            r == self@.participation(window),
    {
        match self.participation.get(window.0) {
            Some(participation) => *participation,
            None => WindowParticipation::Tiled,
        }
    }

    /// Sets how a window takes part in tiling; says whether the window is there.
    pub fn set_participation(
        &mut self,
        window: WindowHandle,
        participation: WindowParticipation,
    ) -> (r: bool)
        requires
            old(self).wf(),
        ensures
            final(self).wf(),
            r == old(self)@.windows.contains(window),
            final(self)@ == if r {
                old(self)@.with_participation(window, participation)
            } else {
                old(self)@
            },
    {
        if !contains_handle(&self.windows, window) {
            return false;
        }
        match participation {
            WindowParticipation::Tiled => {
                self.participation.remove(window.0);
            },
            WindowParticipation::Floating | WindowParticipation::TemporarilyFloating => {
                self.participation.insert(window.0, participation);
            },
        }
        true
    }

    /// Adds a window at the end of the order; says whether it is new.
    pub fn insert_window(&mut self, window: WindowHandle) -> (r: bool)
        requires
            old(self).wf(),
        ensures
            final(self).wf(),
            r == !old(self)@.windows.contains(window),
            final(self)@ == if r {
                old(self)@.with_window(window)
            } else {
                old(self)@
            },
    {
        if contains_handle(&self.windows, window) {
            return false;
        }
        let ghost before = self@;
        self.windows.push(window);
        if self.focused.is_none() {
            self.focused = Some(window);
        }
        proof {
            assert forall|w: WindowHandle| before.windows.contains(w) implies self@.windows.contains(
                w,
            ) by {
                let i = before.windows.index_of(w);
                assert(self@.windows[i] == w);
            }
            assert(self@.windows[before.windows.len() as int] == window);
        }
        true
    }

    /// Takes a window out; says whether it was there.
    pub fn remove_window(&mut self, window: WindowHandle) -> (r: bool)
        requires
            old(self).wf(),
        ensures
            final(self).wf(),
            r == old(self)@.windows.contains(window),
            final(self)@ == old(self)@.without_window(window),
    {
        let ghost before = self@;
        match position_of(&self.windows, window) {
            None => false,
            Some(index) => {
                self.windows.remove(index);
                self.participation.remove(window.0);
                proof {
                    assert(self.windows@ == before.windows.remove(index as int));
                    lemma_remove_keeps_others(before.windows, index as int);
                }
                if self.focused == Some(window) {
                    self.focused = if self.windows.is_empty() {
                        None
                    } else if index < self.windows.len() {
                        Some(self.windows[index])
                    } else {
                        Some(self.windows[self.windows.len() - 1])
                    };
                }
                true
            },
        }
    }

    /// Focuses a window; says whether it is there.
    pub fn focus_window(&mut self, window: WindowHandle) -> (r: bool)
        requires
            old(self).wf(),
        ensures
            final(self).wf(),
            r == old(self)@.windows.contains(window),
            final(self)@ == if r {
                (LayoutView { focused: Some(window), ..old(self)@ })
            } else {
                old(self)@
            },
    {
        if !contains_handle(&self.windows, window) {
            return false;
        }
        self.focused = Some(window);
        true
    }

    /// The window that focus reaches from `current` in the direction.
    pub fn neighbor(&self, current: Option<WindowHandle>, direction: LayoutDirection) -> (r: Option<
        WindowHandle,
    >)
        ensures
            r == self@.neighbor(current, direction),
    {
        if self.windows.is_empty() {
            return None;
        }
        let current_index: usize = match current {
            Some(window) => match position_of(&self.windows, window) {
                Some(index) => index,
                None => 0,
            },
            None => 0,
        };
        match adjacent_index(current_index, self.windows.len(), direction) {
            Some(index) => Some(self.windows[index]),
            None => None,
        }
    }

    /// Moves focus in the direction; gives the window that is focused then.
    pub fn move_focus(&mut self, direction: LayoutDirection) -> (r: Option<WindowHandle>)
        requires
            old(self).wf(),
        ensures
            final(self).wf(),
            r == old(self)@.neighbor(old(self)@.focused, direction),
            final(self)@ == (LayoutView { focused: r, ..old(self)@ }),
    {
        match self.neighbor(self.focused, direction) {
            None => None,
            Some(target) => {
                proof {
                    if let Some(window) = self@.focused {
                        lemma_position(self@.windows, window, 0);
                    }
                }
                self.focused = Some(target);
                Some(target)
            },
        }
    }

    /// Swaps the focused window with its neighbour in the direction; gives the neighbour.
    pub fn swap_focused(&mut self, direction: LayoutDirection) -> (r: Option<WindowHandle>)
        requires
            old(self).wf(),
        ensures
            final(self).wf(),
            r == match old(self)@.focused {
                None => None::<WindowHandle>,
                Some(window) => old(self)@.neighbor(Some(window), direction),
            },
            final(self)@ == match old(self)@.focused {
                None => old(self)@,
                Some(window) => {
                    let from = first_position(old(self)@.windows, window)->0;
                    let to = beside(from, old(self)@.windows.len() as int, direction);
                    LayoutView {
                        windows: old(self)@.windows.update(from, old(self)@.windows[to]).update(
                            to,
                            window,
                        ),
                        ..old(self)@
                    }
                },
            },
    {
        let focused: WindowHandle = match self.focused {
            None => {
                return None;
            },
            Some(window) => window,
        };
        let ghost before = self@;
        let focused_index: usize = match position_of(&self.windows, focused) {
            None => {
                return None;
            },
            Some(index) => index,
        };
        let target_index: usize = match adjacent_index(
            focused_index,
            self.windows.len(),
            direction,
        ) {
            None => {
                return None;
            },
            Some(index) => index,
        };
        let target: WindowHandle = self.windows[target_index];
        self.windows.set(focused_index, target);
        self.windows.set(target_index, focused);
        proof {
            lemma_swap_keeps_windows(before.windows, focused_index as int, target_index as int);
        }
        Some(target)
    }

    /// Turns floating on or off for a window; says whether it floats then, if it is there.
    pub fn toggle_floating(&mut self, window: WindowHandle) -> (r: Option<bool>)
        requires
            old(self).wf(),
        ensures
            final(self).wf(),
            r == if old(self)@.windows.contains(window) {
                Some(old(self)@.participation(window) is Tiled)
            } else {
                None
            },
            final(self)@ == if old(self)@.windows.contains(window) {
                old(self)@.with_participation(
                    window,
                    if old(self)@.participation(window) is Tiled {
                        WindowParticipation::Floating
                    } else {
                        WindowParticipation::Tiled
                    },
                )
            } else {
                old(self)@
            },
    {
        if !contains_handle(&self.windows, window) {
            return None;
        }
        let next: WindowParticipation = match self.participation(window) {
            WindowParticipation::Tiled => WindowParticipation::Floating,
            WindowParticipation::Floating | WindowParticipation::TemporarilyFloating => {
                WindowParticipation::Tiled
            },
        };
        self.set_participation(window, next);
        Some(next.is_floating())
    }

    /// Floats a window for the time of a drag, unless it floats for good; says whether it did.
    pub fn set_temporarily_floating(&mut self, window: WindowHandle) -> (r: bool)
        requires
            old(self).wf(),
        ensures
            final(self).wf(),
            r == (old(self)@.windows.contains(window) && old(self)@.participation(window)
                !is Floating),
            final(self)@ == if r {
                old(self)@.with_participation(window, WindowParticipation::TemporarilyFloating)
            } else {
                old(self)@
            },
    {
        if self.participation(window) == WindowParticipation::Floating {
            return false;
        }
        self.set_participation(window, WindowParticipation::TemporarilyFloating)
    }

    /// Tiles a window again that floated for the time of a drag; says whether it did.
    pub fn clear_temporary_floating(&mut self, window: WindowHandle) -> (r: bool)
        requires
            old(self).wf(),
        ensures
            final(self).wf(),
            r == (old(self)@.participation(window) is TemporarilyFloating),
            final(self)@ == if r {
                old(self)@.with_participation(window, WindowParticipation::Tiled)
            } else {
                old(self)@
            },
    {
        if self.participation(window) != WindowParticipation::TemporarilyFloating {
            return false;
        }
        self.set_participation(window, WindowParticipation::Tiled)
    }

    /// Changes the master ratio, within its range; gives the new ratio.
    pub fn adjust_master_ratio(&mut self, delta_percentage_points: i8) -> (r: u8)
        requires
            old(self).wf(),
        ensures
            final(self).wf(),
            r == LayoutConfig::clamped_ratio(
                old(self)@.config.master_ratio_percent + delta_percentage_points,
            ),
            final(self)@ == (LayoutView {
                config: LayoutConfig { master_ratio_percent: r, ..old(self)@.config },
                ..old(self)@
            }),
    {
        let adjusted: i16 = self.config.master_ratio_percent as i16
            + delta_percentage_points as i16;
        let ratio: u8 = if adjusted < LayoutConfig::MIN_MASTER_RATIO_PERCENT as i16 {
            LayoutConfig::MIN_MASTER_RATIO_PERCENT
        } else if adjusted > LayoutConfig::MAX_MASTER_RATIO_PERCENT as i16 {
            LayoutConfig::MAX_MASTER_RATIO_PERCENT
        } else {
            adjusted as u8
        };
        self.config.master_ratio_percent = ratio;
        ratio
    }

    /// Brings the layout back to the default settings, tiles every window and focuses the first.
    pub fn reset_layout(&mut self)
        requires
            old(self).wf(),
        ensures
            final(self).wf(),
            final(self)@ == old(self)@.after_reset(),
    {
        self.config = LayoutConfig::default();
        self.participation.clear();
        self.dwindle_splits.clear();
        self.focused = if self.windows.is_empty() {
            None
        } else {
            Some(self.windows[0])
        };
    }

    /// Places the tiled windows.
    pub fn assignments(&mut self, work_area: Rect) -> (r: Vec<TileAssignment>)
        requires
            old(self).wf(),
            old(self)@.config.kind is Dwindle || old(self)@.windows.len() <= i32::MAX,
        ensures
            final(self).wf(),
            r@ == old(self)@.tiles(work_area, None),
            final(self)@ == old(self)@.after_layout(work_area, None),
    {
        self.assignments_with_cursor(work_area, None)
    }

    /// Places the tiled windows; a smart split goes by the cursor.
    pub fn assignments_with_cursor(
        &mut self,
        work_area: Rect,
        cursor_position: Option<Point>,
    ) -> (r: Vec<TileAssignment>)
        requires
            old(self).wf(),
            old(self)@.config.kind is Dwindle || old(self)@.windows.len() <= i32::MAX,
        ensures
            final(self).wf(),
            r@ == old(self)@.tiles(work_area, cursor_position),
            final(self)@ == old(self)@.after_layout(work_area, cursor_position),
    {
        let ghost tiles = |window: WindowHandle| self@.participation(window) is Tiled;
        let mut tiled: Vec<WindowHandle> = Vec::new();
        let mut index: usize = 0;
        proof {
            assert(self@.windows.take(0) =~= Seq::empty());
            reveal(Seq::filter);
        }
        while index < self.windows.len()
            invariant
                index <= self.windows.len(),
                self.wf(),
                self == old(self),
                tiles == (|window: WindowHandle| self@.participation(window) is Tiled),
                tiled@ == self@.windows.take(index as int).filter(tiles),
                tiled.len() <= index,
            decreases self.windows.len() - index,
        {
            let window: WindowHandle = self.windows[index];
            proof {
                assert(self@.windows.take(index + 1) =~= self@.windows.take(index as int).push(
                    window,
                ));
                self@.windows.take(index as int).lemma_filter_push(window, tiles);
            }
            if self.participation(window).is_tiled() {
                tiled.push(window);
            }
            index = index + 1;
        }
        proof {
            assert(self@.windows.take(index as int) =~= self@.windows);
        }
        tile_windows_with_state(
            work_area,
            &tiled,
            self.config,
            cursor_position,
            Some(&mut self.dwindle_splits),
        )
    }
}

pub proof fn lemma_remove_keeps_others(windows: Seq<WindowHandle>, at: int)
    requires
        windows.no_duplicates(),
        0 <= at < windows.len(),
    ensures
        windows.remove(at).no_duplicates(),
        forall|w: WindowHandle| #[trigger]
            windows.remove(at).contains(w) <==> windows.contains(w) && w != windows[at],
{
    let rest = windows.remove(at);
    assert forall|w: WindowHandle| #[trigger]
        rest.contains(w) <==> windows.contains(w) && w != windows[at] by {
        if windows.contains(w) && w != windows[at] {
            let i = windows.index_of(w);
            if i < at {
                assert(rest[i] == w);
            } else {
                assert(rest[i - 1] == w);
            }
        }
        if rest.contains(w) {
            let i = rest.index_of(w);
            if i < at {
                assert(windows[i] == w);
            } else {
                assert(windows[i + 1] == w);
            }
        }
    }
}

/// Exchanging two windows keeps the windows of a list.
pub proof fn lemma_swap_keeps_windows(windows: Seq<WindowHandle>, from: int, to: int)
    requires
        windows.no_duplicates(),
        0 <= from < windows.len(),
        0 <= to < windows.len(),
    ensures
        ({
            let swapped = windows.update(from, windows[to]).update(to, windows[from]);
            &&& swapped.no_duplicates()
            &&& forall|w: WindowHandle| #[trigger] swapped.contains(w) <==> windows.contains(w)
        }),
{
    let swapped = windows.update(from, windows[to]).update(to, windows[from]);
    assert forall|w: WindowHandle| #[trigger] swapped.contains(w) <==> windows.contains(w) by {
        if windows.contains(w) {
            let i = windows.index_of(w);
            let j = if i == from {
                to
            } else if i == to {
                from
            } else {
                i
            };
            assert(swapped[j] == w);
        }
    }
}

} // verus!
