//! The layouts of all monitors.

use vstd::prelude::*;

use crate::geometry::{MonitorId, MonitorInfo, TileAssignment, WindowHandle};
use crate::handles::{contains_handle, other_than, without};
use crate::layout::LayoutConfig;
use crate::monitor_layout::{LayoutView, MonitorLayoutState};
use crate::sorted_map::{entry_map, lemma_entry, SortedMap};

verus! {

/// The layouts of all monitors.
#[derive(Debug, Clone, PartialEq, Eq)]
pub struct LayoutEngine {
    default_config: LayoutConfig,
    monitors: SortedMap<MonitorLayoutState>,
}

/// The layouts of all monitors as a value: the settings for new monitors, and each monitor's layout
/// by the monitor's identifier.
pub ghost struct EngineView {
    pub default_config: LayoutConfig,
    pub monitors: Map<u64, LayoutView>,
}

impl EngineView {
    /// Whether the monitor's layout lists the window.
    pub open spec fn lists(self, key: u64, window: WindowHandle) -> bool {
        self.monitors.contains_key(key) && self.monitors[key].windows.contains(window)
    }

    /// Whether the monitor is the one with the lowest identifier that lists the window.
    pub open spec fn lists_first(self, key: u64, window: WindowHandle) -> bool {
        &&& self.lists(key, window)
        &&& forall|other: u64| #[trigger] self.lists(other, window) ==> key <= other
    }

    /// Whether some monitor lists the window.
    pub open spec fn lists_somewhere(self, window: WindowHandle) -> bool {
        exists|key: u64| #[trigger] self.lists(key, window)
    }

    /// The layouts with the window taken out of the first monitor that lists it.
    pub open spec fn without_window(self, window: WindowHandle) -> EngineView {
        if self.lists_somewhere(window) {
            let key = choose|key: u64| self.lists_first(key, window);
            EngineView {
                monitors: self.monitors.insert(key, self.monitors[key].without_window(window)),
                ..self
            }
        } else {
            self
        }
    }

    /// The empty layout that a new monitor gets.
    pub open spec fn fresh(self, monitor: MonitorId) -> LayoutView {
        LayoutView {
            monitor,
            config: self.default_config.spec_normalized(),
            windows: Seq::empty(),
            focused: None,
            floating: Map::empty(),
            splits: Seq::empty(),
        }
    }

    /// The monitor's layout, or the empty one if it has none.
    pub open spec fn layout(self, monitor: MonitorId) -> LayoutView {
        if self.monitors.contains_key(monitor.0) {
            self.monitors[monitor.0]
        } else {
            self.fresh(monitor)
        }
    }

    /// The layouts with the monitor's layout set.
    pub open spec fn with_layout(self, monitor: MonitorId, layout: LayoutView) -> EngineView {
        EngineView { monitors: self.monitors.insert(monitor.0, layout), ..self }
    }

    /// The layouts with the window on the monitor: taken from where it was, and put at the end.
    pub open spec fn with_window(self, monitor: MonitorId, window: WindowHandle) -> EngineView {
        let rest = self.without_window(window);
        let layout = rest.layout(monitor);
        rest.with_layout(
            monitor,
            if layout.windows.contains(window) {
                layout
            } else {
                layout.with_window(window)
            },
        )
    }

    /// The layouts after a window was moved to a monitor: nothing changes if it is there already.
    pub open spec fn moved(self, monitor: MonitorId, window: WindowHandle) -> EngineView {
        if self.lists(monitor.0, window) {
            self
        } else {
            self.with_window(monitor, window)
        }
    }

    /// The windows of a monitor, in their order.
    pub open spec fn windows_on(self, key: u64) -> Seq<WindowHandle> {
        if self.monitors.contains_key(key) {
            self.monitors[key].windows
        } else {
            Seq::empty()
        }
    }

    /// The layouts after the monitors have been laid out, one by one.
    pub open spec fn after_layout(self, monitors: Seq<MonitorInfo>) -> EngineView
        decreases monitors.len(),
    {
        if monitors.len() == 0 {
            self
        } else {
            let before = self.after_layout(monitors.drop_last());
            let last = monitors.last();
            if before.monitors.contains_key(last.id.0) {
                before.with_layout(
                    last.id,
                    before.monitors[last.id.0].after_layout(last.work_area, None),
                )
            } else {
                before
            }
        }
    }

    /// The tiles of the monitors, one monitor after the other.
    pub open spec fn tiles(self, monitors: Seq<MonitorInfo>) -> Seq<TileAssignment>
        decreases monitors.len(),
    {
        if monitors.len() == 0 {
            Seq::empty()
        } else {
            let before = self.after_layout(monitors.drop_last());
            let last = monitors.last();
            if before.monitors.contains_key(last.id.0) {
                self.tiles(monitors.drop_last()) + before.monitors[last.id.0].tiles(
                    last.work_area,
                    None,
                )
            } else {
                self.tiles(monitors.drop_last())
            }
        }
    }

    /// Whether no window is listed by two monitors.
    pub open spec fn windows_are_apart(self) -> bool {
        forall|a: u64, b: u64, window: WindowHandle| #[trigger]
            self.lists(a, window) && #[trigger] self.lists(b, window) ==> a == b
    }
}

/// The views of layouts by key.
pub open spec fn layout_views(states: Map<u64, MonitorLayoutState>) -> Map<u64, LayoutView> {
    states.map_values(|state: MonitorLayoutState| state@)
}

impl View for LayoutEngine {
    type V = EngineView;

    closed spec fn view(&self) -> EngineView {
        EngineView {
            default_config: self.default_config,
            monitors: layout_views(self.monitors@),
        }
    }
}

impl LayoutEngine {
    /// Whether every layout is well formed and filed under its monitor, and the settings for new
    /// monitors are in their ranges.
    pub closed spec fn wf(&self) -> bool {
        &&& self.monitors.wf()
        &&& self.default_config.is_normal()
        &&& forall|key: u64| #[trigger]
            self.monitors@.contains_key(key) ==> self.monitors@[key].wf()
                && self.monitors@[key]@.monitor.0 == key
    }

    /// The layouts of a well-formed engine are so as values.
    pub proof fn lemma_wf(&self)
        requires
            self.wf(),
        ensures
            self@.default_config.is_normal(),
            forall|key: u64| #[trigger]
                self@.monitors.contains_key(key) ==> self@.monitors[key].wf()
                    && self@.monitors[key].monitor.0 == key,
    {
        assert forall|key: u64| #[trigger] self@.monitors.contains_key(key) implies self@.monitors[key].wf()
            && self@.monitors[key].monitor.0 == key by {
            assert(self.monitors@.contains_key(key));
            self.monitors@[key].lemma_wf();
        }
    }

    /// No monitors; new ones get the default settings.
    pub fn new() -> (r: LayoutEngine)
        ensures
            r.wf(),
            r@.default_config == LayoutConfig::spec_default(),
            r@.monitors == Map::<u64, LayoutView>::empty(),
    {
        LayoutEngine::with_default_config(LayoutConfig::default())
    }

    /// No monitors; new ones get these settings.
    pub fn with_default_config(default_config: LayoutConfig) -> (r: LayoutEngine)
        ensures
            r.wf(),
            r@.default_config == default_config.spec_normalized(),
            r@.monitors == Map::<u64, LayoutView>::empty(),
    {
        let r = LayoutEngine {
            default_config: default_config.normalized(),
            monitors: SortedMap::new(),
        };
        proof {
            assert(r@.monitors =~= Map::<u64, LayoutView>::empty());
        }
        r
    }

    /// The layout of the monitor, which gets an empty one if it has none.
    pub fn ensure_monitor(&mut self, monitor: MonitorId) -> (r: &mut MonitorLayoutState)
        requires
            old(self).wf(),
        ensures
            r.wf(),
            r@ == old(self)@.layout(monitor),
            r@.monitor == monitor,
            final(self)@ == old(self)@.with_layout(monitor, final(r)@),
            final(r).wf() && final(r)@.monitor == monitor ==> final(self).wf(),
    {
        if !self.monitors.contains_key(monitor.0) {
            let fresh: MonitorLayoutState = MonitorLayoutState::with_config(
                monitor,
                self.default_config,
            );
            self.monitors.insert(monitor.0, fresh);
            proof {
                assert(self@.monitors =~= old(self)@.monitors.insert(monitor.0, fresh@));
            }
        }
        let ghost middle = self.monitors@;
        proof {
            assert(middle.contains_key(monitor.0));
            assert(middle[monitor.0]@ == old(self)@.layout(monitor));
            assert(middle[monitor.0].wf());
            assert forall|state: MonitorLayoutState|
                #![trigger middle.insert(monitor.0, state)]
                layout_views(middle.insert(monitor.0, state)) == old(self)@.monitors.insert(
                    monitor.0,
                    state@,
                ) by {
                assert(layout_views(middle.insert(monitor.0, state)) =~= old(
                    self,
                )@.monitors.insert(monitor.0, state@));
            }
        }
        self.monitors.get_mut(monitor.0).unwrap()
    }

    /// Takes a monitor out with its layout.
    pub fn remove_monitor(&mut self, monitor: MonitorId) -> (r: Option<MonitorLayoutState>)
        requires
            old(self).wf(),
        ensures
            final(self).wf(),
            final(self)@ == (EngineView {
                monitors: old(self)@.monitors.remove(monitor.0),
                ..old(self)@
            }),
            match r {
                Some(state) => old(self)@.monitors.contains_key(monitor.0) && state@ == old(
                    self,
                )@.monitors[monitor.0] && state.wf(),
                None => !old(self)@.monitors.contains_key(monitor.0),
            },
    {
        let removed: Option<MonitorLayoutState> = self.monitors.remove(monitor.0);
        proof {
            assert(old(self).monitors@.contains_key(monitor.0) <==> old(
                self,
            )@.monitors.contains_key(monitor.0));
            assert(self@.monitors =~= old(self)@.monitors.remove(monitor.0));
        }
        removed
    }

    /// The layout of the monitor.
    pub fn monitor(&self, monitor: MonitorId) -> (r: Option<&MonitorLayoutState>)
        requires
            self.wf(),
        ensures
            match r {
                Some(state) => self@.monitors.contains_key(monitor.0) && state@
                    == self@.monitors[monitor.0] && state.wf(),
                None => !self@.monitors.contains_key(monitor.0),
            },
    {
        proof {
            assert(self.monitors@.contains_key(monitor.0) <==> self@.monitors.contains_key(
                monitor.0,
            ));
        }
        self.monitors.get(monitor.0)
    }

    /// The layout of the monitor, to be changed in place.
    pub fn monitor_mut(&mut self, monitor: MonitorId) -> (r: Option<&mut MonitorLayoutState>)
        requires
            old(self).wf(),
        ensures
            match r {
                Some(state) => {
                    &&& old(self)@.monitors.contains_key(monitor.0)
                    &&& state.wf()
                    &&& state@ == old(self)@.monitors[monitor.0]
                    &&& final(self)@ == old(self)@.with_layout(monitor, final(state)@)
                    &&& final(state).wf() && final(state)@.monitor == monitor ==> final(self).wf()
                },
                None => !old(self)@.monitors.contains_key(monitor.0) && *final(self) == *old(self),
            },
    {
        let ghost before = self.monitors@;
        proof {
            assert(before.contains_key(monitor.0) <==> old(self)@.monitors.contains_key(monitor.0));
            assert forall|state: MonitorLayoutState|
                #![trigger before.insert(monitor.0, state)]
                layout_views(before.insert(monitor.0, state)) == old(self)@.monitors.insert(
                    monitor.0,
                    state@,
                ) by {
                assert(layout_views(before.insert(monitor.0, state)) =~= old(
                    self,
                )@.monitors.insert(monitor.0, state@));
            }
        }
        self.monitors.get_mut(monitor.0)
    }

    /// Takes a window out of the first monitor that lists it; says whether one did.
    pub fn remove_window(&mut self, window: WindowHandle) -> (r: bool)
        requires
            old(self).wf(),
        ensures
            final(self).wf(),
            r == old(self)@.lists_somewhere(window),
            final(self)@ == old(self)@.without_window(window),
    {
        let ghost before = self@;
        let mut index: usize = 0;
        proof {
            self.monitors.lemma_view();
        }
        while index < self.monitors.len()
            invariant
                index <= self.monitors.entries().len(),
                self.wf(),
                *self == *old(self),
                before == self@,
                self.monitors@ == entry_map(self.monitors.entries()),
                forall|i: int|
                    0 <= i < index ==> !(#[trigger] self.monitors.entries()[i]).1@.windows.contains(
                        window,
                    ),
            decreases self.monitors.entries().len() - index,
        {
            let key: u64 = self.monitors.key_at(index);
            proof {
                lemma_entry(self.monitors.entries(), index as int);
            }
            let found: bool = contains_handle(self.monitors.value_at(index).windows(), window);
            if found {
                proof {
                    assert(before.lists(key, window));
                    assert forall|other: u64| #[trigger] before.lists(other, window) implies key
                        <= other by {
                        let at = crate::sorted_map::key_index(self.monitors.entries(), other);
                        assert(self.monitors@.contains_key(other));
                        assert(crate::sorted_map::has_key(self.monitors.entries(), other));
                        lemma_entry(self.monitors.entries(), at);
                        if at > index {
                            assert(self.monitors.entries()[index as int].0
                                < self.monitors.entries()[at].0);
                        }
                    }
                    assert(before.lists_first(key, window));
                    let chosen = choose|key: u64| before.lists_first(key, window);
                    assert(before.lists_first(chosen, window));
                    assert(chosen == key);
                }
                if let Some(state) = self.monitor_mut(MonitorId(key)) {
                    proof {
                        assert(state@.monitor == MonitorId(key));
                    }
                    state.remove_window(window);
                }
                return true;
            }
            index = index + 1;
        }
        proof {
            if before.lists_somewhere(window) {
                let key = choose|key: u64| #[trigger] before.lists(key, window);
                assert(self.monitors@.contains_key(key));
                assert(crate::sorted_map::has_key(self.monitors.entries(), key));
                let at = crate::sorted_map::key_index(self.monitors.entries(), key);
                lemma_entry(self.monitors.entries(), at);
                assert(self.monitors.entries()[at].1@.windows.contains(window));
            }
        }
        false
    }

    /// Puts a window on a monitor, and takes it from where it was; says whether it was not there
    /// already.
    pub fn insert_window(&mut self, monitor: MonitorId, window: WindowHandle) -> (r: bool)
        requires
            old(self).wf(),
        ensures
            final(self).wf(),
            final(self)@ == old(self)@.moved(monitor, window),
            r == !old(self)@.lists(monitor.0, window),
    {
        proof {
            assert(self.monitors@.contains_key(monitor.0) <==> self@.monitors.contains_key(
                monitor.0,
            ));
        }
        if let Some(state) = self.monitors.get(monitor.0) {
            if contains_handle(state.windows(), window) {
                return false;
            }
        }
        let ghost before = self@;
        self.remove_window(window);
        proof {
            lemma_still_not_listed(before, monitor.0, window);
        }
        self.ensure_monitor(monitor).insert_window(window)
    }

    /// Moves a window to a monitor; says whether it was not there already.
    pub fn move_window_to_monitor(&mut self, monitor: MonitorId, window: WindowHandle) -> (r: bool)
        requires
            old(self).wf(),
        ensures
            final(self).wf(),
            final(self)@ == old(self)@.moved(monitor, window),
            r == !old(self)@.lists(monitor.0, window),
    {
        self.insert_window(monitor, window)
    }

    /// Brings a monitor's layout back to the default settings; says whether the monitor is known.
    pub fn reset_monitor(&mut self, monitor: MonitorId) -> (r: bool)
        requires
            old(self).wf(),
        ensures
            final(self).wf(),
            r == old(self)@.monitors.contains_key(monitor.0),
            final(self)@ == if r {
                old(self)@.with_layout(monitor, old(self)@.monitors[monitor.0].after_reset())
            } else {
                old(self)@
            },
    {
        proof {
            self.lemma_wf();
        }
        match self.monitor_mut(monitor) {
            None => false,
            Some(state) => {
                state.reset_layout();
                true
            },
        }
    }

    /// Places the tiled windows of the monitors, one monitor after the other.
    pub fn assignments(&mut self, monitors: &[MonitorInfo]) -> (r: Vec<TileAssignment>)
        requires
            old(self).wf(),
            forall|key: u64| #[trigger]
                old(self)@.monitors.contains_key(key) ==> old(self)@.monitors[key].windows.len()
                    <= i32::MAX,
        ensures
            final(self).wf(),
            r@ == old(self)@.tiles(monitors@),
            final(self)@ == old(self)@.after_layout(monitors@),
    {
        let mut placed: Vec<TileAssignment> = Vec::new();
        let mut index: usize = 0;
        proof {
            assert(monitors@.take(0) =~= Seq::empty());
        }
        while index < monitors.len()
            invariant
                index <= monitors.len(),
                self.wf(),
                self@ == old(self)@.after_layout(monitors@.take(index as int)),
                placed@ == old(self)@.tiles(monitors@.take(index as int)),
                forall|key: u64| #[trigger]
                    self@.monitors.contains_key(key) ==> self@.monitors[key].windows.len()
                        <= i32::MAX,
            decreases monitors.len() - index,
        {
            let monitor: MonitorInfo = monitors[index];
            proof {
                assert(monitors@.take(index + 1).drop_last() =~= monitors@.take(index as int));
                self.lemma_wf();
            }
            let ghost before = self@;
            let ghost placed_before = placed@;
            if let Some(state) = self.monitor_mut(monitor.id) {
                let mut tiles: Vec<TileAssignment> = state.assignments(monitor.work_area);
                placed.append(&mut tiles);
            }
            proof {
                if before.monitors.contains_key(monitor.id.0) {
                    assert(placed@ =~= placed_before + before.monitors[monitor.id.0].tiles(
                        monitor.work_area,
                        None,
                    ));
                }
            }
            index = index + 1;
        }
        proof {
            assert(monitors@.take(index as int) =~= monitors@);
        }
        placed
    }
}

impl Default for LayoutEngine {
    fn default() -> (r: Self)
        ensures
            r.wf(),
            r@.default_config == LayoutConfig::spec_default(),
            r@.monitors == Map::<u64, LayoutView>::empty(),
    {
        LayoutEngine::new()
    }
}

proof fn lemma_still_not_listed(engine: EngineView, key: u64, window: WindowHandle)
    requires
        !engine.lists(key, window),
    ensures
        !engine.without_window(window).lists(key, window),
{
    if engine.lists_somewhere(window) {
        lemma_first_exists(engine, window);
        let first = choose|key: u64| engine.lists_first(key, window);
        assert(first != key);
    }
}

/// A window that is listed somewhere is listed by a first monitor.
proof fn lemma_first_exists(engine: EngineView, window: WindowHandle)
    requires
        engine.lists_somewhere(window),
    ensures
        exists|key: u64| engine.lists_first(key, window),
{
    let some = choose|key: u64| #[trigger] engine.lists(key, window);
    lemma_first_below(engine, window, some);
}

proof fn lemma_first_below(engine: EngineView, window: WindowHandle, key: u64)
    requires
        engine.lists(key, window),
    ensures
        exists|first: u64| engine.lists_first(first, window),
    decreases key,
{
    if exists|other: u64| #[trigger] engine.lists(other, window) && other < key {
        let other = choose|other: u64| #[trigger] engine.lists(other, window) && other < key;
        lemma_first_below(engine, window, other);
    } else {
        assert(engine.lists_first(key, window));
    }
}

/// Where no window is on two monitors, a window that is put on a monitor is on that monitor and on
/// no other, and still no window is on two.
pub proof fn inserted_window_is_on_one_monitor(
    engine: EngineView,
    monitor: MonitorId,
    window: WindowHandle,
)
    requires
        engine.windows_are_apart(),
        forall|key: u64| #[trigger]
            engine.monitors.contains_key(key) ==> engine.monitors[key].wf(),
        !engine.lists(monitor.0, window),
    ensures
        ({
            let after = engine.with_window(monitor, window);
            &&& after.lists(monitor.0, window)
            &&& forall|key: u64| #[trigger] after.lists(key, window) ==> key == monitor.0
            &&& after.windows_are_apart()
        }),
{
    let rest = engine.without_window(window);
    let after = engine.with_window(monitor, window);
    assert forall|key: u64, w: WindowHandle| #[trigger]
        rest.lists(key, w) <==> engine.lists(key, w) && w != window by {
        if engine.lists_somewhere(window) {
            lemma_first_exists(engine, window);
            let first = choose|key: u64| engine.lists_first(key, window);
            let layout = engine.monitors[first];
            crate::handles::lemma_position_exists(layout.windows, window);
            crate::handles::lemma_position(layout.windows, window, 0);
            let at = crate::handles::first_position(layout.windows, window)->0;
            crate::monitor_layout::lemma_remove_keeps_others(layout.windows, at);
            if key == first {
                assert(layout.windows.remove(at).contains(w) <==> layout.windows.contains(w) && w
                    != window);
            } else if engine.lists(key, window) {
                assert(engine.lists(first, window));
            }
        } else {
            assert(!engine.lists(key, window));
        }
    }
    let layout = rest.layout(monitor);
    assert(!layout.windows.contains(window)) by {
        assert(rest.lists(monitor.0, window) <==> engine.lists(monitor.0, window) && window
            != window);
    }
    let added = layout.windows.push(window);
    assert(added[layout.windows.len() as int] == window);
    assert forall|w: WindowHandle| #[trigger]
        added.contains(w) <==> layout.windows.contains(w) || w == window by {
        if layout.windows.contains(w) {
            let i = layout.windows.index_of(w);
            assert(added[i] == w);
        }
    }
    assert forall|key: u64, w: WindowHandle| #[trigger]
        after.lists(key, w) <==> (rest.lists(key, w) || (key == monitor.0 && w == window)) by {
        assert(rest.lists(key, w) <==> engine.lists(key, w) && w != window);
    }
    assert forall|a: u64, b: u64, w: WindowHandle| #[trigger]
        after.lists(a, w) && #[trigger] after.lists(b, w) implies a == b by {
        if w == window {
            assert(rest.lists(a, w) <==> engine.lists(a, w) && w != window);
            assert(rest.lists(b, w) <==> engine.lists(b, w) && w != window);
        } else {
            assert(engine.lists(a, w) && engine.lists(b, w));
        }
    }
}

/// An engine without monitors has no window on two.
pub proof fn windows_of_no_monitor_are_apart(engine: EngineView)
    requires
        engine.monitors == Map::<u64, LayoutView>::empty(),
    ensures
        engine.windows_are_apart(),
{
}

/// A list keeps its other windows in their order when one is taken out.
proof fn lemma_others_stay(windows: Seq<WindowHandle>, at: int)
    requires
        0 <= at < windows.len(),
    ensures
        without(windows.remove(at), windows[at]) == without(windows, windows[at]),
{
    let keep = other_than(windows[at]);
    let front = windows.take(at);
    let back = windows.skip(at + 1);
    let one = seq![windows[at]];
    assert(windows =~= front + (one + back));
    assert(windows.remove(at) =~= front + back);
    Seq::filter_distributes_over_add(front, one + back, keep);
    Seq::filter_distributes_over_add(one, back, keep);
    Seq::filter_distributes_over_add(front, back, keep);
    crate::handles::lemma_without(one, windows[at]);
    assert(one.contains(one[0]));
    assert(one.filter(keep) =~= Seq::empty());
    assert(one.filter(keep) + back.filter(keep) =~= back.filter(keep));
}

/// Where no window is on two monitors, a window that is removed is on no monitor, still no window is on
/// two, and every other window stays on its monitor, in the same order.
pub proof fn removing_leaves_the_other_windows(engine: EngineView, window: WindowHandle)
    requires
        engine.windows_are_apart(),
        forall|key: u64| #[trigger]
            engine.monitors.contains_key(key) ==> engine.monitors[key].wf(),
    ensures
        ({
            let after = engine.without_window(window);
            &&& !after.lists_somewhere(window)
            &&& after.windows_are_apart()
            &&& forall|key: u64|
                without(#[trigger] after.windows_on(key), window) == without(
                    engine.windows_on(key),
                    window,
                )
        }),
{
    let after = engine.without_window(window);
    if engine.lists_somewhere(window) {
        lemma_first_exists(engine, window);
        let first = choose|key: u64| engine.lists_first(key, window);
        let layout = engine.monitors[first];
        crate::handles::lemma_position_exists(layout.windows, window);
        crate::handles::lemma_position(layout.windows, window, 0);
        let at = crate::handles::first_position(layout.windows, window)->0;
        crate::monitor_layout::lemma_remove_keeps_others(layout.windows, at);
        lemma_others_stay(layout.windows, at);
        assert forall|key: u64, w: WindowHandle| #[trigger]
            after.lists(key, w) <==> engine.lists(key, w) && w != window by {
            if key == first {
                assert(layout.windows.remove(at).contains(w) <==> layout.windows.contains(w) && w
                    != window);
            } else if engine.lists(key, window) {
                assert(engine.lists(first, window));
            }
        }
        assert forall|a: u64, b: u64, w: WindowHandle| #[trigger]
            after.lists(a, w) && #[trigger] after.lists(b, w) implies a == b by {
            assert(engine.lists(a, w) && engine.lists(b, w));
        }
        assert forall|key: u64| without(#[trigger] after.windows_on(key), window) == without(
            engine.windows_on(key),
            window,
        ) by {
            if key == first {
                assert(after.windows_on(key) == layout.windows.remove(at));
            }
        }
    }
}

/// Where no window is on two monitors, a window that is moved to a monitor is there and on no other,
/// last if it was not there before; still no window is on two, and every other window stays on its
/// monitor, in the same order.
pub proof fn moving_leaves_the_other_windows(
    engine: EngineView,
    monitor: MonitorId,
    window: WindowHandle,
)
    requires
        engine.windows_are_apart(),
        forall|key: u64| #[trigger]
            engine.monitors.contains_key(key) ==> engine.monitors[key].wf(),
    ensures
        ({
            let after = engine.moved(monitor, window);
            &&& forall|key: u64| #[trigger] after.lists(key, window) <==> key == monitor.0
            &&& !engine.lists(monitor.0, window) ==> after.windows_on(monitor.0).last() == window
            &&& engine.lists(monitor.0, window) ==> after == engine
            &&& after.windows_are_apart()
            &&& forall|key: u64|
                without(#[trigger] after.windows_on(key), window) == without(
                    engine.windows_on(key),
                    window,
                )
        }),
{
    let after = engine.moved(monitor, window);
    if engine.lists(monitor.0, window) {
        assert forall|key: u64| #[trigger] after.lists(key, window) <==> key == monitor.0 by {
            assert(engine.lists(monitor.0, window));
        }
    } else {
        let rest = engine.without_window(window);
        inserted_window_is_on_one_monitor(engine, monitor, window);
        removing_leaves_the_other_windows(engine, window);
        let layout = rest.layout(monitor);
        assert(!rest.lists(monitor.0, window));
        assert(!layout.windows.contains(window));
        layout.windows.lemma_filter_push(window, other_than(window));
        assert forall|key: u64| without(#[trigger] after.windows_on(key), window) == without(
            engine.windows_on(key),
            window,
        ) by {
            assert(without(rest.windows_on(key), window) == without(engine.windows_on(key), window));
            if key == monitor.0 {
                assert(after.windows_on(key) == layout.windows.push(window));
                assert(rest.windows_on(key) =~= layout.windows);
            } else {
                assert(after.windows_on(key) == rest.windows_on(key));
            }
        }
    }
}

} // verus!
