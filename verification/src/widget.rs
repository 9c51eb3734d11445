//! What a widget shows of the daemon, and where it stands.

use vstd::prelude::*;

use crate::cli::{main_monitor, primary_monitor};
use crate::geometry::{MonitorInfo, Point, Rect, WindowHandle};
use crate::handles::{
    first_kept, lemma_filter_ends, lemma_filter_step, lemma_first_kept_step,
};
use crate::ipc::{DaemonStateSnapshot, MonitorStateSnapshot, WindowStateSnapshot};
use crate::num::{clamp_i32, max_int, sat_sub};
use crate::numeral::{decimal, format_handle, handle_text, numeral};
use crate::plugin::PluginWidgetBlock;
use crate::report::{participation_label, participation_name};
use crate::shell::{quote_windows_arg, quoted};
use crate::text::same_text;
use crate::window::WindowInfo;

verus! {

/// The command line tool as it stands in a command line: its path, or else its name.
pub open spec fn tool_name(path: Option<Seq<char>>) -> Seq<char> {
    match path {
        Some(path) => quoted(path),
        None => "winland"@,
    }
}

/// The command line tool as it stands in a command line.
pub fn cli_executable(path: Option<&str>) -> (r: String)
    ensures
        r@ == tool_name(
            match path {
                Some(path) => Some(path@),
                None => None,
            },
        ),
{
    match path {
        Some(path) => quote_windows_arg(path),
        None => "winland".to_owned(),
    }
}

/// The command line that has the daemon run a command.
pub open spec fn daemon_line(cli: Seq<char>, command: Seq<char>) -> Seq<char> {
    cli + " command "@ + command
}

/// The command line that has the daemon run a command.
pub fn cli_daemon_command(cli: &str, command: &str) -> (r: String)
    ensures
        r@ == daemon_line(cli@, command@),
{
    let mut text: String = cli.to_owned();
    text.push_str(" command ");
    text.push_str(command);
    text
}

/// A workspace in a widget.
#[derive(Debug, Clone, PartialEq, Eq)]
pub struct WorkspaceWidgetRow {
    pub id: u16,
    pub name: String,
    pub command: String,
    pub active: bool,
    pub window_count: usize,
}

/// A window in a widget.
#[derive(Debug, Clone, PartialEq, Eq)]
pub struct WindowWidgetRow {
    pub handle: u64,
    pub handle_text: String,
    pub command: String,
    pub title: String,
    pub workspace_id: u16,
    pub focused: bool,
    pub visible: bool,
    pub is_minimized: bool,
    pub participation: String,
}

/// What a widget is told.
#[derive(Debug, Clone, PartialEq, Eq)]
pub enum WidgetUpdate {
    DaemonState(DaemonStateSnapshot),
    Time(String),
    PluginBlock(PluginWidgetBlock),
}

/// What a widget shows; `cli` is the command line tool that its commands go through.
#[derive(Debug, Clone, PartialEq, Eq)]
pub struct WidgetData {
    pub workspace_count: u16,
    pub active_workspace: u16,
    pub workspaces: Vec<WorkspaceWidgetRow>,
    pub windows: Vec<WindowWidgetRow>,
    pub plugin_blocks: Vec<PluginWidgetBlock>,
    pub time_text: String,
    pub cli: String,
}

/// The monitors that have the focus.
pub open spec fn is_focused_monitor() -> spec_fn(MonitorStateSnapshot) -> bool {
    |monitor: MonitorStateSnapshot| monitor.focused
}

/// The workspace that a widget shows: the one on the monitor that has the focus, or else the active one.
pub open spec fn shown_workspace(snapshot: DaemonStateSnapshot) -> int {
    max_int(
        match first_kept(snapshot.monitors@, is_focused_monitor()) {
            Some(monitor) => monitor.workspace_id as int,
            None => snapshot.active_workspace as int,
        },
        1,
    )
}

/// The workspace that a widget shows.
pub fn taskbar_active_workspace(snapshot: &DaemonStateSnapshot) -> (r: u16)
    ensures
        r == shown_workspace(*snapshot),
{
    let ghost keep = is_focused_monitor();
    let mut found: Option<MonitorStateSnapshot> = None;
    let mut index: usize = 0;
    while index < snapshot.monitors.len()
        invariant
            index <= snapshot.monitors.len(),
            keep == is_focused_monitor(),
            found == first_kept(snapshot.monitors@.take(index as int), keep),
        decreases snapshot.monitors.len() - index,
    {
        proof {
            lemma_first_kept_step(snapshot.monitors@, index as int, keep);
        }
        if found.is_none() && snapshot.monitors[index].focused {
            found = Some(snapshot.monitors[index]);
        }
        index = index + 1;
    }
    proof {
        assert(snapshot.monitors@.take(index as int) =~= snapshot.monitors@);
    }
    let workspace: u16 = match found {
        Some(monitor) => monitor.workspace_id,
        None => snapshot.active_workspace,
    };
    if workspace < 1 {
        1
    } else {
        workspace
    }
}

/// The highest workspace that monitors show, or a given one.
pub open spec fn highest_shown(monitors: Seq<MonitorStateSnapshot>, least: int) -> int
    decreases monitors.len(),
{
    if monitors.len() == 0 {
        least
    } else {
        max_int(highest_shown(monitors.drop_last(), least), monitors.last().workspace_id as int)
    }
}

/// The highest workspace that windows are on, or a given one.
pub open spec fn highest_used(windows: Seq<WindowStateSnapshot>, least: int) -> int
    decreases windows.len(),
{
    if windows.len() == 0 {
        least
    } else {
        let before = highest_used(windows.drop_last(), least);
        match windows.last().workspace_id {
            Some(workspace) => max_int(before, workspace as int),
            None => before,
        }
    }
}

/// The highest workspace that is in use.
pub open spec fn highest_workspace(snapshot: DaemonStateSnapshot) -> int {
    highest_used(
        snapshot.windows@,
        highest_shown(snapshot.monitors@, snapshot.active_workspace as int),
    )
}

fn find_highest_workspace(snapshot: &DaemonStateSnapshot) -> (r: u16)
    ensures
        r == highest_workspace(*snapshot),
{
    let mut highest: u16 = snapshot.active_workspace;
    let mut index: usize = 0;
    while index < snapshot.monitors.len()
        invariant
            index <= snapshot.monitors.len(),
            highest == highest_shown(
                snapshot.monitors@.take(index as int),
                snapshot.active_workspace as int,
            ),
        decreases snapshot.monitors.len() - index,
    {
        proof {
            assert(snapshot.monitors@.take(index + 1).drop_last() =~= snapshot.monitors@.take(
                index as int,
            ));
            assert(snapshot.monitors@.take(index + 1).last() == snapshot.monitors@[index as int]);
        }
        if snapshot.monitors[index].workspace_id > highest {
            highest = snapshot.monitors[index].workspace_id;
        }
        index = index + 1;
    }
    proof {
        assert(snapshot.monitors@.take(index as int) =~= snapshot.monitors@);
    }
    let ghost shown = highest as int;
    let mut place: usize = 0;
    while place < snapshot.windows.len()
        invariant
            place <= snapshot.windows.len(),
            highest == highest_used(snapshot.windows@.take(place as int), shown),
        decreases snapshot.windows.len() - place,
    {
        proof {
            assert(snapshot.windows@.take(place + 1).drop_last() =~= snapshot.windows@.take(
                place as int,
            ));
            assert(snapshot.windows@.take(place + 1).last() == snapshot.windows@[place as int]);
        }
        if let Some(workspace) = snapshot.windows[place].workspace_id {
            if workspace > highest {
                highest = workspace;
            }
        }
        place = place + 1;
    }
    proof {
        assert(snapshot.windows@.take(place as int) =~= snapshot.windows@);
    }
    highest
}

/// Whether a workspace is active: it is the active one, or a monitor with the focus shows it.
pub open spec fn is_active_workspace(snapshot: DaemonStateSnapshot, id: u16) -> bool {
    snapshot.active_workspace == id || exists|i: int|
        0 <= i < snapshot.monitors@.len() && (#[trigger] snapshot.monitors@[i]).focused
            && snapshot.monitors@[i].workspace_id == id
}

/// The windows of a workspace.
pub open spec fn is_on_workspace(id: u16) -> spec_fn(WindowStateSnapshot) -> bool {
    |window: WindowStateSnapshot| window.workspace_id == Some(id)
}

/// Whether this is the row of a workspace.
pub open spec fn is_workspace_row(
    row: WorkspaceWidgetRow,
    id: u16,
    snapshot: Option<DaemonStateSnapshot>,
    cli: Seq<char>,
) -> bool {
    &&& row.id == id
    &&& row.name@ == numeral(id as nat, 10)
    &&& row.command@ == daemon_line(cli, "switch-workspace "@ + numeral(id as nat, 10))
    &&& row.active == (snapshot matches Some(state) && is_active_workspace(state, id))
    &&& row.window_count == (match snapshot {
        Some(state) => state.windows@.filter(is_on_workspace(id)).len(),
        None => 0,
    })
}

/// Whether these are the rows of the workspaces, one for each.
pub open spec fn are_workspace_rows(
    rows: Seq<WorkspaceWidgetRow>,
    count: u16,
    snapshot: Option<DaemonStateSnapshot>,
    cli: Seq<char>,
) -> bool {
    &&& rows.len() == count
    &&& forall|i: int|
        0 <= i < rows.len() ==> is_workspace_row(#[trigger] rows[i], (i + 1) as u16, snapshot, cli)
}

/// Whether this is the row of a window.
pub open spec fn is_window_row(row: WindowWidgetRow, window: WindowStateSnapshot, cli: Seq<char>) -> bool {
    &&& row.handle == window.handle
    &&& row.handle_text@ == handle_text(window.handle)
    &&& row.command@ == daemon_line(cli, "focus-window "@ + handle_text(window.handle))
    &&& row.title@ == window.title@
    &&& row.workspace_id == (match window.workspace_id {
        Some(workspace) => workspace,
        None => 0,
    })
    &&& row.focused == window.focused
    &&& row.visible == window.visible_on_active_workspace
    &&& row.is_minimized == window.is_minimized
    &&& row.participation@ == participation_name(window.participation)
}

/// Whether these are the rows of windows, one for each.
pub open spec fn are_window_rows(
    rows: Seq<WindowWidgetRow>,
    windows: Seq<WindowStateSnapshot>,
    cli: Seq<char>,
) -> bool {
    &&& rows.len() == windows.len()
    &&& forall|i: int| 0 <= i < rows.len() ==> is_window_row(#[trigger] rows[i], windows[i], cli)
}

impl WindowWidgetRow {
    /// The row of a window.
    pub fn from_snapshot(window: &WindowStateSnapshot, cli: &str) -> (r: WindowWidgetRow)
        ensures
            is_window_row(r, *window, cli@),
    {
        let mut command: String = "focus-window ".to_owned();
        command.push_str(&format_handle(window.handle));
        WindowWidgetRow {
            handle: window.handle,
            handle_text: format_handle(window.handle),
            command: cli_daemon_command(cli, &command),
            title: window.title.clone(),
            workspace_id: match window.workspace_id {
                Some(workspace) => workspace,
                None => 0,
            },
            focused: window.focused,
            visible: window.visible_on_active_workspace,
            is_minimized: window.is_minimized,
            participation: participation_label(window.participation).to_owned(),
        }
    }
}

fn workspace_is_active(snapshot: &DaemonStateSnapshot, id: u16) -> (r: bool)
    ensures
        r == is_active_workspace(*snapshot, id),
{
    if snapshot.active_workspace == id {
        return true;
    }
    let mut index: usize = 0;
    while index < snapshot.monitors.len()
        invariant
            index <= snapshot.monitors.len(),
            snapshot.active_workspace != id,
            forall|i: int|
                0 <= i < index ==> !((#[trigger] snapshot.monitors@[i]).focused
                    && snapshot.monitors@[i].workspace_id == id),
        decreases snapshot.monitors.len() - index,
    {
        if snapshot.monitors[index].focused && snapshot.monitors[index].workspace_id == id {
            return true;
        }
        index = index + 1;
    }
    false
}

fn workspace_window_count(snapshot: &DaemonStateSnapshot, id: u16) -> (r: usize)
    ensures
        r == snapshot.windows@.filter(is_on_workspace(id)).len(),
{
    let ghost keep = is_on_workspace(id);
    let mut count: usize = 0;
    let mut index: usize = 0;
    proof {
        lemma_filter_ends(snapshot.windows@, keep);
    }
    while index < snapshot.windows.len()
        invariant
            index <= snapshot.windows.len(),
            keep == is_on_workspace(id),
            count == snapshot.windows@.take(index as int).filter(keep).len(),
            count <= index,
        decreases snapshot.windows.len() - index,
    {
        proof {
            lemma_filter_step(snapshot.windows@, index as int, keep);
        }
        if let Some(workspace) = snapshot.windows[index].workspace_id {
            if workspace == id {
                count = count + 1;
            }
        }
        index = index + 1;
    }
    proof {
        lemma_filter_ends(snapshot.windows@, keep);
    }
    count
}

fn workspace_row(id: u16, snapshot: Option<&DaemonStateSnapshot>, cli: &str) -> (r: WorkspaceWidgetRow)
    ensures
        is_workspace_row(
            r,
            id,
            match snapshot {
                Some(state) => Some(*state),
                None => None,
            },
            cli@,
        ),
{
    let name: String = decimal(id as u64);
    let mut command: String = "switch-workspace ".to_owned();
    command.push_str(&name);
    let (active, window_count): (bool, usize) = match snapshot {
        Some(state) => (workspace_is_active(state, id), workspace_window_count(state, id)),
        None => (false, 0),
    };
    WorkspaceWidgetRow {
        id,
        name,
        command: cli_daemon_command(cli, &command),
        active,
        window_count,
    }
}

/// Where the block of a program stands among blocks, at a place or later.
pub open spec fn block_place(blocks: Seq<PluginWidgetBlock>, source: Seq<char>, from: int) -> Option<int>
    decreases blocks.len() - from,
{
    if from >= blocks.len() {
        None
    } else if blocks[from].source@ == source {
        Some(from)
    } else {
        block_place(blocks, source, from + 1)
    }
}

/// Blocks with one set: it takes the place of the one from the same program, or comes last.
pub open spec fn with_block(blocks: Seq<PluginWidgetBlock>, block: PluginWidgetBlock) -> Seq<
    PluginWidgetBlock,
> {
    match block_place(blocks, block.source@, 0) {
        Some(place) => blocks.update(place, block),
        None => blocks.push(block),
    }
}

proof fn lemma_block_place(blocks: Seq<PluginWidgetBlock>, source: Seq<char>, from: int)
    requires
        0 <= from <= blocks.len(),
    ensures
        match block_place(blocks, source, from) {
            Some(place) => from <= place < blocks.len() && blocks[place].source@ == source,
            None => forall|i: int|
                from <= i < blocks.len() ==> (#[trigger] blocks[i]).source@ != source,
        },
    decreases blocks.len() - from,
{
    if from < blocks.len() && blocks[from].source@ != source {
        lemma_block_place(blocks, source, from + 1);
    }
}

/// Whether each program has one block at most.
pub open spec fn one_block_each(blocks: Seq<PluginWidgetBlock>) -> bool {
    forall|i: int, j: int|
        0 <= i < j < blocks.len() ==> (#[trigger] blocks[i]).source@ != (#[trigger] blocks[j]).source@
}

/// Each program keeps having one block at most.
pub proof fn blocks_stay_one_each(blocks: Seq<PluginWidgetBlock>, block: PluginWidgetBlock)
    requires
        one_block_each(blocks),
    ensures
        one_block_each(with_block(blocks, block)),
{
    lemma_block_place(blocks, block.source@, 0);
}

impl WidgetData {
    /// A widget that was not told anything yet.
    pub fn new(workspace_count: u16, cli: &str, time_text: String) -> (r: WidgetData)
        ensures
            r.workspace_count == max_int(workspace_count as int, 1),
            r.active_workspace == 1,
            are_workspace_rows(r.workspaces@, r.workspace_count, None, cli@),
            r.windows@.len() == 0,
            r.plugin_blocks@.len() == 0,
            r.time_text == time_text,
            r.cli@ == cli@,
    {
        let mut data: WidgetData = WidgetData {
            workspace_count: if workspace_count < 1 {
                1
            } else {
                workspace_count
            },
            active_workspace: 1,
            workspaces: Vec::new(),
            windows: Vec::new(),
            plugin_blocks: Vec::new(),
            time_text,
            cli: cli.to_owned(),
        };
        data.rebuild_workspaces(None);
        data
    }

    /// Makes the rows of the workspaces anew.
    pub fn rebuild_workspaces(&mut self, snapshot: Option<&DaemonStateSnapshot>)
        ensures
            are_workspace_rows(
                final(self).workspaces@,
                old(self).workspace_count,
                match snapshot {
                    Some(state) => Some(*state),
                    None => None,
                },
                old(self).cli@,
            ),
            final(self).workspace_count == old(self).workspace_count,
            final(self).active_workspace == old(self).active_workspace,
            final(self).windows == old(self).windows,
            final(self).plugin_blocks == old(self).plugin_blocks,
            final(self).time_text == old(self).time_text,
            final(self).cli == old(self).cli,
    {
        let ghost state = match snapshot {
            Some(state) => Some(*state),
            None => None,
        };
        let mut rows: Vec<WorkspaceWidgetRow> = Vec::new();
        let mut done: u16 = 0;
        while done < self.workspace_count
            invariant
                done <= self.workspace_count,
                *self == *old(self),
                rows.len() == done,
                state == (match snapshot {
                    Some(state) => Some(*state),
                    None => None,
                }),
                forall|i: int|
                    0 <= i < done ==> is_workspace_row(
                        #[trigger] rows@[i],
                        (i + 1) as u16,
                        state,
                        self.cli@,
                    ),
            decreases self.workspace_count - done,
        {
            done = done + 1;
            rows.push(workspace_row(done, snapshot, &self.cli));
        }
        self.workspaces = rows;
    }

    /// Takes in the state of the daemon.
    pub fn apply_daemon_state(&mut self, snapshot: &DaemonStateSnapshot)
        ensures
            final(self).workspace_count == max_int(
                max_int(old(self).workspace_count as int, highest_workspace(*snapshot)),
                1,
            ),
            final(self).active_workspace == shown_workspace(*snapshot),
            are_workspace_rows(
                final(self).workspaces@,
                final(self).workspace_count,
                Some(*snapshot),
                old(self).cli@,
            ),
            are_window_rows(
                final(self).windows@,
                snapshot.windows@.filter(is_on_workspace(shown_workspace(*snapshot) as u16)),
                old(self).cli@,
            ),
            final(self).plugin_blocks == old(self).plugin_blocks,
            final(self).time_text == old(self).time_text,
            final(self).cli == old(self).cli,
    {
        let highest: u16 = find_highest_workspace(snapshot);
        if highest > self.workspace_count {
            self.workspace_count = highest;
        }
        if self.workspace_count < 1 {
            self.workspace_count = 1;
        }
        self.active_workspace = taskbar_active_workspace(snapshot);
        self.rebuild_workspaces(Some(snapshot));
        let active: u16 = self.active_workspace;
        let ghost keep = is_on_workspace(active);
        let mut rows: Vec<WindowWidgetRow> = Vec::new();
        let mut index: usize = 0;
        proof {
            lemma_filter_ends(snapshot.windows@, keep);
        }
        while index < snapshot.windows.len()
            invariant
                index <= snapshot.windows.len(),
                keep == is_on_workspace(active),
                are_window_rows(
                    rows@,
                    snapshot.windows@.take(index as int).filter(keep),
                    self.cli@,
                ),
            decreases snapshot.windows.len() - index,
        {
            proof {
                lemma_filter_step(snapshot.windows@, index as int, keep);
            }
            if let Some(workspace) = snapshot.windows[index].workspace_id {
                if workspace == active {
                    rows.push(WindowWidgetRow::from_snapshot(&snapshot.windows[index], &self.cli));
                }
            }
            index = index + 1;
        }
        proof {
            lemma_filter_ends(snapshot.windows@, keep);
        }
        self.windows = rows;
    }

    /// Takes in the block of a program.
    pub fn set_plugin_block(&mut self, block: PluginWidgetBlock)
        ensures
            final(self).plugin_blocks@ == with_block(old(self).plugin_blocks@, block),
            final(self).workspace_count == old(self).workspace_count,
            final(self).active_workspace == old(self).active_workspace,
            final(self).workspaces == old(self).workspaces,
            final(self).windows == old(self).windows,
            final(self).time_text == old(self).time_text,
            final(self).cli == old(self).cli,
    {
        let mut index: usize = 0;
        while index < self.plugin_blocks.len()
            invariant
                index <= self.plugin_blocks.len(),
                *self == *old(self),
                block_place(self.plugin_blocks@, block.source@, 0) == block_place(
                    self.plugin_blocks@,
                    block.source@,
                    index as int,
                ),
            decreases self.plugin_blocks.len() - index,
        {
            if same_text(&self.plugin_blocks[index].source, &block.source) {
                self.plugin_blocks.set(index, block);
                return ;
            }
            index = index + 1;
        }
        self.plugin_blocks.push(block);
    }

    /// Takes in what the widget is told.
    pub fn apply(&mut self, update: WidgetUpdate)
        ensures
            match update {
                WidgetUpdate::DaemonState(snapshot) => {
                    &&& final(self).workspace_count == max_int(
                        max_int(old(self).workspace_count as int, highest_workspace(snapshot)),
                        1,
                    )
                    &&& final(self).active_workspace == shown_workspace(snapshot)
                    &&& are_workspace_rows(
                        final(self).workspaces@,
                        final(self).workspace_count,
                        Some(snapshot),
                        old(self).cli@,
                    )
                    &&& are_window_rows(
                        final(self).windows@,
                        snapshot.windows@.filter(
                            is_on_workspace(shown_workspace(snapshot) as u16),
                        ),
                        old(self).cli@,
                    )
                    &&& final(self).plugin_blocks == old(self).plugin_blocks
                    &&& final(self).time_text == old(self).time_text
                },
                WidgetUpdate::Time(text) => *final(self) == (WidgetData {
                    time_text: text,
                    ..*old(self)
                }),
                WidgetUpdate::PluginBlock(block) => {
                    &&& final(self).plugin_blocks@ == with_block(old(self).plugin_blocks@, block)
                    &&& final(self).workspace_count == old(self).workspace_count
                    &&& final(self).active_workspace == old(self).active_workspace
                    &&& final(self).workspaces == old(self).workspaces
                    &&& final(self).windows == old(self).windows
                    &&& final(self).time_text == old(self).time_text
                },
            },
            final(self).cli == old(self).cli,
    {
        match update {
            WidgetUpdate::DaemonState(snapshot) => self.apply_daemon_state(&snapshot),
            WidgetUpdate::Time(text) => {
                self.time_text = text;
            },
            WidgetUpdate::PluginBlock(block) => self.set_plugin_block(block),
        }
    }
}

/// The workspaces that are active.
pub open spec fn is_active_row() -> spec_fn(WorkspaceWidgetRow) -> bool {
    |row: WorkspaceWidgetRow| row.active
}

/// The windows that have the focus.
pub open spec fn is_focused_row() -> spec_fn(WindowWidgetRow) -> bool {
    |row: WindowWidgetRow| row.focused
}

/// What a widget shows in one line.
pub open spec fn summary(data: WidgetData) -> Seq<char> {
    "Workspace "@ + (match first_kept(data.workspaces@, is_active_row()) {
        Some(row) => row.name@,
        None => "-"@,
    }) + " | "@ + (match first_kept(data.windows@, is_focused_row()) {
        Some(row) => row.title@,
        None => "no focused window"@,
    }) + " | "@ + data.time_text@
}

/// What a widget shows in one line.
pub fn widget_summary_label(data: &WidgetData) -> (r: String)
    ensures
        r@ == summary(*data),
{
    let ghost active = is_active_row();
    let ghost focused = is_focused_row();
    let mut workspace: Option<usize> = None;
    let mut index: usize = 0;
    while index < data.workspaces.len()
        invariant
            index <= data.workspaces.len(),
            active == is_active_row(),
            match workspace {
                Some(at) => at < data.workspaces@.len() && first_kept(
                    data.workspaces@.take(index as int),
                    active,
                ) == Some(data.workspaces@[at as int]),
                None => first_kept(data.workspaces@.take(index as int), active) is None,
            },
        decreases data.workspaces.len() - index,
    {
        proof {
            lemma_first_kept_step(data.workspaces@, index as int, active);
        }
        if workspace.is_none() && data.workspaces[index].active {
            workspace = Some(index);
        }
        index = index + 1;
    }
    let mut window: Option<usize> = None;
    let mut place: usize = 0;
    while place < data.windows.len()
        invariant
            place <= data.windows.len(),
            focused == is_focused_row(),
            match window {
                Some(at) => at < data.windows@.len() && first_kept(
                    data.windows@.take(place as int),
                    focused,
                ) == Some(data.windows@[at as int]),
                None => first_kept(data.windows@.take(place as int), focused) is None,
            },
        decreases data.windows.len() - place,
    {
        proof {
            lemma_first_kept_step(data.windows@, place as int, focused);
        }
        if window.is_none() && data.windows[place].focused {
            window = Some(place);
        }
        place = place + 1;
    }
    proof {
        assert(data.workspaces@.take(index as int) =~= data.workspaces@);
        assert(data.windows@.take(place as int) =~= data.windows@);
    }
    let mut text: String = "Workspace ".to_owned();
    match workspace {
        Some(at) => text.push_str(&data.workspaces[at].name),
        None => text.push_str("-"),
    }
    text.push_str(" | ");
    match window {
        Some(at) => text.push_str(&data.windows[at].title),
        None => text.push_str("no focused window"),
    }
    text.push_str(" | ");
    text.push_str(&data.time_text);
    text
}

/// The monitors that a widget is shown on: all, or the main one; none if there is no monitor to show it
/// on.
pub open spec fn widget_monitors(monitors: Seq<MonitorInfo>, all: bool) -> Option<Seq<MonitorInfo>> {
    if all {
        Some(monitors)
    } else {
        match main_monitor(monitors) {
            Some(monitor) => Some(seq![monitor]),
            None => None,
        }
    }
}

/// The monitors that a widget is shown on.
pub fn widget_target_monitors(monitors: &[MonitorInfo], all_monitors: bool) -> (r: Option<Vec<MonitorInfo>>)
    ensures
        (match r {
            Some(list) => Some(list@),
            None => None,
        }) == widget_monitors(monitors@, all_monitors),
{
    let mut list: Vec<MonitorInfo> = Vec::new();
    if all_monitors {
        list.extend_from_slice(monitors);
        proof {
            assert(list@ =~= monitors@);
        }
        return Some(list);
    }
    match primary_monitor(monitors) {
        Some(monitor) => {
            list.push(monitor);
            proof {
                assert(list@ =~= seq![monitor]);
            }
            Some(list)
        },
        None => None,
    }
}

/// How high a widget is on a monitor: no higher than the monitor, and no more than a number can say.
pub open spec fn widget_height(monitor: MonitorInfo, height: u32) -> int {
    let wanted = if height > i32::MAX {
        i32::MAX as int
    } else {
        height as int
    };
    let room = max_int(monitor.rect.spec_height(), 1);
    if wanted < room {
        wanted
    } else {
        room
    }
}

/// Where a widget stands: at the bottom of the monitor.
pub fn bottom_widget_rect(monitor: &MonitorInfo, height: u32) -> (r: Rect)
    ensures
        r == (Rect {
            left: monitor.rect.left,
            top: clamp_i32(monitor.rect.bottom - widget_height(*monitor, height)) as i32,
            right: monitor.rect.right,
            bottom: monitor.rect.bottom,
        }),
{
    let wanted: i32 = if height > 0x7fff_ffff {
        i32::MAX
    } else {
        height as i32
    };
    let full: i32 = monitor.rect.height();
    let room: i32 = if full < 1 {
        1
    } else {
        full
    };
    let height: i32 = if wanted < room {
        wanted
    } else {
        room
    };
    Rect {
        left: monitor.rect.left,
        top: sat_sub(monitor.rect.bottom, height),
        right: monitor.rect.right,
        bottom: monitor.rect.bottom,
    }
}

/// A widget stays on its monitor.
pub proof fn widget_stays_on_its_monitor(monitor: MonitorInfo, height: u32)
    requires
        !monitor.rect.covers_nothing(),
    ensures
        ({
            let top = clamp_i32(monitor.rect.bottom - widget_height(monitor, height));
            monitor.rect.top <= top <= monitor.rect.bottom && (height >= 1 ==> top
                < monitor.rect.bottom)
        }),
{
}

/// How much a rectangle differs from where a widget is meant to be: the squared distance of their
/// middles, and their sizes, which weigh more.
pub open spec fn difference(actual: Rect, target: Rect) -> int {
    let dx = clamp_i32(actual.middle().x - target.middle().x);
    let dy = clamp_i32(actual.middle().y - target.middle().y);
    let dw = clamp_i32(actual.spec_width() - target.spec_width());
    let dh = clamp_i32(actual.spec_height() - target.spec_height());
    let all = dx * dx + dy * dy + 1024 * (if dw < 0 {
        -dw
    } else {
        dw
    }) + 1024 * (if dh < 0 {
        -dh
    } else {
        dh
    });
    if all > i64::MAX {
        i64::MAX as int
    } else {
        all
    }
}

/// Whether the sizes of two rectangles can be told apart.
pub open spec fn sizes_compare(actual: Rect, target: Rect) -> bool {
    clamp_i32(actual.spec_width() - target.spec_width()) > i32::MIN && clamp_i32(
        actual.spec_height() - target.spec_height(),
    ) > i32::MIN
}

fn magnitude(value: i32) -> (r: i64)
    ensures
        r == if value < 0 {
            -value
        } else {
            value as int
        },
        0 <= r <= 0x8000_0000,
{
    if value < 0 {
        -(value as i64)
    } else {
        value as i64
    }
}

/// How much a rectangle differs from where a widget is meant to be.
pub fn rect_distance_score(actual: Rect, target: Rect) -> (r: i64)
    requires
        sizes_compare(actual, target),
    ensures
        r == difference(actual, target),
{
    let from: Point = actual.center();
    let to: Point = target.center();
    let dx: i32 = sat_sub(from.x, to.x);
    let dy: i32 = sat_sub(from.y, to.y);
    let dw: i64 = magnitude(sat_sub(actual.width(), target.width()));
    let dh: i64 = magnitude(sat_sub(actual.height(), target.height()));
    proof {
        assert(0 <= dx * dx <= 0x8000_0000 * 0x8000_0000) by (nonlinear_arith)
            requires
                -0x8000_0000 <= dx <= 0x7fff_ffff,
        ;
        assert(0 <= dy * dy <= 0x8000_0000 * 0x8000_0000) by (nonlinear_arith)
            requires
                -0x8000_0000 <= dy <= 0x7fff_ffff,
        ;
    }
    let all: i128 = dx as i128 * dx as i128 + dy as i128 * dy as i128 + 1024 * dw as i128 + 1024
        * dh as i128;
    if all > i64::MAX as i128 {
        i64::MAX
    } else {
        all as i64
    }
}

/// The window of a process that differs least from where a widget is meant to be, the first among
/// equals.
pub open spec fn most_alike(windows: Seq<WindowInfo>, process: u32, target: Rect) -> Option<WindowInfo>
    decreases windows.len(),
{
    if windows.len() == 0 {
        None
    } else {
        let before = most_alike(windows.drop_last(), process, target);
        let last = windows.last();
        if last.process_id != process {
            before
        } else {
            match before {
                None => Some(last),
                Some(best) => if difference(last.rect, target) < difference(best.rect, target) {
                    Some(last)
                } else {
                    Some(best)
                },
            }
        }
    }
}

/// The window of a process that differs least from where a widget is meant to be.
pub fn widget_window_for_process(windows: &[WindowInfo], process_id: u32, target: Rect) -> (r: Option<
    WindowHandle,
>)
    requires
        forall|i: int|
            0 <= i < windows@.len() && (#[trigger] windows@[i]).process_id == process_id
                ==> sizes_compare(windows@[i].rect, target),
    ensures
        r == (match most_alike(windows@, process_id, target) {
            Some(window) => Some(window.handle),
            None => None,
        }),
{
    let mut best: Option<usize> = None;
    let mut index: usize = 0;
    while index < windows.len()
        invariant
            index <= windows.len(),
            forall|i: int|
                0 <= i < windows@.len() && (#[trigger] windows@[i]).process_id == process_id
                    ==> sizes_compare(windows@[i].rect, target),
            match best {
                Some(at) => at < index && windows@[at as int].process_id == process_id && most_alike(
                    windows@.take(index as int),
                    process_id,
                    target,
                ) == Some(windows@[at as int]),
                None => most_alike(windows@.take(index as int), process_id, target) is None,
            },
        decreases windows.len() - index,
    {
        proof {
            assert(windows@.take(index + 1).drop_last() =~= windows@.take(index as int));
            assert(windows@.take(index + 1).last() == windows@[index as int]);
        }
        if windows[index].process_id == process_id {
            let score: i64 = rect_distance_score(windows[index].rect, target);
            best =
            match best {
                None => Some(index),
                Some(at) => if score < rect_distance_score(windows[at].rect, target) {
                    Some(index)
                } else {
                    Some(at)
                },
            };
        }
        index = index + 1;
    }
    proof {
        assert(windows@.take(index as int) =~= windows@);
    }
    match best {
        Some(at) => Some(windows[at].handle),
        None => None,
    }
}

} // verus!
