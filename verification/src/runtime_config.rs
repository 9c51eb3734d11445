//! The settings that the daemon goes by while it runs.

use vstd::prelude::*;

use crate::border::BorderColor;
use crate::geometry::MonitorInfo;
use crate::layout::{LayoutConfig, LayoutKind};
use crate::numeral::{handle_text, layout_names_are_distinct, parse_number, parsed};
use crate::rules::WindowRule;
use crate::sorted_map::SortedMap;
use crate::text::{chars_of, same_text};
use crate::workspace::WorkspaceId;

verus! {

/// Which window is floated first when the tiles do not fit.
#[derive(Debug, Clone, Copy, PartialEq, Eq, Structural)]
pub enum OverflowFocusPolicy {
    KeepFocused,
    FloatFocused,
}

/// What becomes of a window that was floated because the tiles did not fit.
#[derive(Debug, Clone, Copy, PartialEq, Eq, Structural)]
pub enum OverflowFloatPersistence {
    StayFloating,
    RetileOnDragEnd,
}

/// How borders are drawn.
#[derive(Debug, Clone, Copy, PartialEq, Eq, Structural)]
pub struct RuntimeBorderConfig {
    pub enabled: bool,
    pub width: i32,
    pub active_color: BorderColor,
    pub inactive_color: BorderColor,
    pub floating_color: BorderColor,
    pub show_inactive: bool,
    pub disable_when_fullscreen: bool,
}

/// Which windows are games: whether any are, whether fullscreen windows are, how closely a window has to
/// fill a monitor to be fullscreen, and the executables that always or never are.
#[derive(Debug, Clone, PartialEq, Eq)]
pub struct GameModePolicy {
    pub enabled: bool,
    pub pause_on_fullscreen: bool,
    pub fullscreen_tolerance_px: i32,
    pub game_exes: Vec<String>,
    pub ignored_exes: Vec<String>,
}

/// What is done while a game has the focus.
#[derive(Debug, Clone, PartialEq, Eq)]
pub struct RuntimeGameModeConfig {
    pub policy: GameModePolicy,
    pub pause_all_layouts_when_game_focused: bool,
    pub pause_focused_monitor_only: bool,
    pub disable_borders: bool,
    pub disable_animations: bool,
    pub disable_keyboard_hooks: bool,
}

/// The settings of the daemon.
#[derive(Debug, Clone, PartialEq, Eq)]
pub struct RuntimeConfig {
    pub layout: LayoutConfig,
    pub layout_per_monitor: Vec<(String, LayoutConfig)>,
    pub layout_per_workspace: SortedMap<LayoutConfig>,
    pub workspace_count: u16,
    pub window_rules: Vec<WindowRule>,
    pub startup_retile: bool,
    pub dynamic_retile: bool,
    pub drag_to_float: bool,
    pub retile_on_drag_end: bool,
    pub overflow_focus_policy: OverflowFocusPolicy,
    pub overflow_float_persistence: OverflowFloatPersistence,
    pub borders: RuntimeBorderConfig,
    pub game_mode: RuntimeGameModeConfig,
}

/// The layout that is set under a name, the first one.
pub open spec fn layout_named(layouts: Seq<(String, LayoutConfig)>, name: Seq<char>) -> Option<
    LayoutConfig,
>
    decreases layouts.len(),
{
    if layouts.len() == 0 {
        None
    } else {
        match layout_named(layouts.drop_last(), name) {
            Some(layout) => Some(layout),
            None => if layouts.last().0@ == name {
                Some(layouts.last().1)
            } else {
                None
            },
        }
    }
}

/// The layout that is set under a name.
fn find_layout(layouts: &[(String, LayoutConfig)], name: &str) -> (r: Option<LayoutConfig>)
    ensures
        r == layout_named(layouts@, name@),
{
    let mut found: Option<LayoutConfig> = None;
    let mut index: usize = 0;
    while index < layouts.len()
        invariant
            index <= layouts.len(),
            found == layout_named(layouts@.take(index as int), name@),
        decreases layouts.len() - index,
    {
        proof {
            assert(layouts@.take(index + 1).drop_last() =~= layouts@.take(index as int));
            assert(layouts@.take(index + 1).last() == layouts@[index as int]);
        }
        if found.is_none() && same_text(&layouts[index].0, name) {
            found = Some(layouts[index].1);
        }
        index = index + 1;
    }
    proof {
        assert(layouts@.take(index as int) =~= layouts@);
    }
    found
}

/// The layout of a workspace on a monitor: the one set for the monitor, or for the primary monitor if
/// it is that, or for the workspace, or the general one.
pub open spec fn layout_on(
    default_layout: LayoutConfig,
    per_monitor: Seq<(String, LayoutConfig)>,
    per_workspace: Map<u64, LayoutConfig>,
    monitor: MonitorInfo,
    workspace: WorkspaceId,
) -> LayoutConfig {
    let named = layout_named(per_monitor, handle_text(monitor.id.0));
    let primary = layout_named(per_monitor, "primary"@);
    (if named is Some {
        named.unwrap()
    } else if monitor.is_primary && primary is Some {
        primary.unwrap()
    } else if per_workspace.contains_key(workspace.0 as u64) {
        per_workspace[workspace.0 as u64]
    } else {
        default_layout
    }).spec_normalized()
}

/// The layout of a workspace on a monitor.
pub fn layout_config_for_monitor(
    default_layout: LayoutConfig,
    per_monitor: &[(String, LayoutConfig)],
    per_workspace: &SortedMap<LayoutConfig>,
    monitor: &MonitorInfo,
    workspace: WorkspaceId,
) -> (r: LayoutConfig)
    requires
        per_workspace.wf(),
    ensures
        r == layout_on(default_layout, per_monitor@, per_workspace@, *monitor, workspace),
{
    let mut layout: LayoutConfig = match per_workspace.get(workspace.0 as u64) {
        Some(layout) => *layout,
        None => default_layout,
    };
    if monitor.is_primary {
        if let Some(primary_layout) = find_layout(per_monitor, "primary") {
            layout = primary_layout;
        }
    }
    if let Some(named_layout) = find_layout(per_monitor, &monitor.id.to_text()) {
        layout = named_layout;
    }
    layout.normalized()
}

impl RuntimeConfig {
    /// Whether the settings are in order.
    pub open spec fn wf(&self) -> bool {
        self.layout_per_workspace.wf()
    }

    /// The layout of a workspace on a monitor.
    pub open spec fn spec_layout(self, monitor: MonitorInfo, workspace: WorkspaceId) -> LayoutConfig {
        layout_on(
            self.layout,
            self.layout_per_monitor@,
            self.layout_per_workspace@,
            monitor,
            workspace,
        )
    }

    /// The layout of a workspace on a monitor.
    pub fn layout_for_monitor(&self, monitor: &MonitorInfo, workspace: WorkspaceId) -> (r: LayoutConfig)
        requires
            self.wf(),
        ensures
            r == self.spec_layout(*monitor, workspace),
    {
        layout_config_for_monitor(
            self.layout,
            &self.layout_per_monitor,
            &self.layout_per_workspace,
            monitor,
            workspace,
        )
    }
}

/// What a monitor or a workspace sets of the layout; what is not set is taken from the general one.
#[derive(Debug, Clone, PartialEq, Eq)]
pub struct LayoutOverride {
    pub layout: Option<String>,
    pub gap: Option<u16>,
    pub border: Option<u16>,
    pub master_ratio_percent: Option<u8>,
    pub smart_split: Option<bool>,
    pub preserve_split: Option<bool>,
}

/// The layout that a name stands for, or else the other one.
pub open spec fn named_or(name: Option<String>, base: LayoutKind) -> LayoutKind {
    if name is Some && (exists|kind: LayoutKind| #[trigger] kind.spec_name() == name.unwrap()@) {
        choose|kind: LayoutKind| #[trigger] kind.spec_name() == name.unwrap()@
    } else {
        base
    }
}

/// The layout with what an override sets.
pub open spec fn overridden_layout(base: LayoutConfig, set: LayoutOverride) -> LayoutConfig {
    LayoutConfig {
        kind: named_or(set.layout, base.kind),
        gap: match set.gap {
            Some(gap) => gap as i32,
            None => base.gap,
        },
        border: match set.border {
            Some(border) => border as i32,
            None => base.border,
        },
        master_ratio_percent: match set.master_ratio_percent {
            Some(ratio) => ratio,
            None => base.master_ratio_percent,
        },
        smart_split: match set.smart_split {
            Some(smart) => smart,
            None => base.smart_split,
        },
        preserve_split: match set.preserve_split {
            Some(preserve) => preserve,
            None => base.preserve_split,
        },
    }.spec_normalized()
}

/// The layout with what an override sets.
pub fn merge_layout_override(base: LayoutConfig, override_config: &LayoutOverride) -> (r: LayoutConfig)
    ensures
        r == overridden_layout(base, *override_config),
{
    let kind: LayoutKind = match &override_config.layout {
        Some(name) => match LayoutKind::from_name(name) {
            Some(kind) => kind,
            None => base.kind,
        },
        None => base.kind,
    };
    let merged: LayoutConfig = LayoutConfig {
        kind,
        gap: match override_config.gap {
            Some(gap) => gap as i32,
            None => base.gap,
        },
        border: match override_config.border {
            Some(border) => border as i32,
            None => base.border,
        },
        master_ratio_percent: match override_config.master_ratio_percent {
            Some(ratio) => ratio,
            None => base.master_ratio_percent,
        },
        smart_split: match override_config.smart_split {
            Some(smart) => smart,
            None => base.smart_split,
        },
        preserve_split: match override_config.preserve_split {
            Some(preserve) => preserve,
            None => base.preserve_split,
        },
    };
    proof {
        if override_config.layout is Some {
            let name = override_config.layout.unwrap();
            if exists|other: LayoutKind| #[trigger] other.spec_name() == name@ {
                let chosen = choose|other: LayoutKind| #[trigger] other.spec_name() == name@;
                layout_names_are_distinct(chosen, kind);
            }
        }
    }
    merged.normalized()
}

/// Why a text is no colour: it is not `#` and six bytes, or the six are not hexadecimal.
#[derive(Debug, Clone, Copy, PartialEq, Eq, Structural)]
pub enum BorderColorError {
    Syntax,
    Digits,
}

/// How many bytes a character takes in a text.
pub open spec fn byte_width(c: char) -> nat {
    if c as u32 <= 0x7f {
        1
    } else if c as u32 <= 0x7ff {
        2
    } else if c as u32 <= 0xffff {
        3
    } else {
        4
    }
}

/// How many bytes characters take in a text.
pub open spec fn byte_length(chars: Seq<char>) -> nat
    decreases chars.len(),
{
    if chars.len() == 0 {
        0
    } else {
        byte_length(chars.drop_last()) + byte_width(chars.last())
    }
}

/// The colour that a text stands for.
pub open spec fn parsed_color(text: Seq<char>) -> Result<BorderColor, BorderColorError> {
    if text.len() == 0 || text[0] != '#' || byte_length(text.skip(1)) != 6 {
        Err(BorderColorError::Syntax)
    } else if text.len() != 7 {
        Err(BorderColorError::Digits)
    } else {
        match (
            parsed(text.subrange(1, 3), 16, 255),
            parsed(text.subrange(3, 5), 16, 255),
            parsed(text.subrange(5, 7), 16, 255),
        ) {
            (Some(red), Some(green), Some(blue)) => Ok(
                BorderColor { red: red as u8, green: green as u8, blue: blue as u8 },
            ),
            _ => Err(BorderColorError::Digits),
        }
    }
}

/// Reads a colour of the form `#RRGGBB`.
pub fn parse_border_color(input: &str) -> (r: Result<BorderColor, BorderColorError>)
    ensures
        r == parsed_color(input@),
{
    let chars: Vec<char> = chars_of(input);
    if chars.len() == 0 || chars[0] != '#' {
        return Err(BorderColorError::Syntax);
    }
    let ghost rest = chars@.skip(1);
    let mut bytes: usize = 0;
    let mut index: usize = 1;
    proof {
        assert(rest.take(0) =~= Seq::empty());
    }
    while index < chars.len() && bytes <= 6
        invariant
            1 <= index <= chars.len(),
            rest == chars@.skip(1),
            bytes <= 10,
            bytes == byte_length(rest.take(index - 1)),
        decreases chars.len() - index,
    {
        let code: u32 = chars[index] as u32;
        proof {
            assert(rest.take(index as int).drop_last() =~= rest.take(index - 1));
            assert(rest.take(index as int).last() == chars@[index as int]);
        }
        bytes = bytes + (if code <= 0x7f {
            1
        } else if code <= 0x7ff {
            2
        } else if code <= 0xffff {
            3
        } else {
            4
        });
        index = index + 1;
    }
    proof {
        lemma_byte_length_grows(rest, index - 1);
        assert(index == chars.len() ==> rest.take(index - 1) =~= rest);
    }
    if bytes != 6 || index < chars.len() {
        return Err(BorderColorError::Syntax);
    }
    if chars.len() != 7 {
        return Err(BorderColorError::Digits);
    }
    let red: Option<u64> = parse_pair(&chars, 1);
    let green: Option<u64> = parse_pair(&chars, 3);
    let blue: Option<u64> = parse_pair(&chars, 5);
    match (red, green, blue) {
        (Some(red), Some(green), Some(blue)) => Ok(
            BorderColor::new(red as u8, green as u8, blue as u8),
        ),
        _ => Err(BorderColorError::Digits),
    }
}

/// Reads two hexadecimal digits.
fn parse_pair(chars: &[char], at: usize) -> (r: Option<u64>)
    requires
        at + 2 <= chars.len(),
        at <= 7,
    ensures
        match r {
            Some(value) => parsed(chars@.subrange(at as int, at + 2), 16, 255) == Some(value as nat)
                && value <= 255,
            None => parsed(chars@.subrange(at as int, at + 2), 16, 255) is None,
        },
{
    let mut pair: Vec<char> = Vec::new();
    pair.push(chars[at]);
    pair.push(chars[at + 1]);
    proof {
        assert(pair@ =~= chars@.subrange(at as int, at + 2));
    }
    parse_number(&pair, 16, 255)
}

proof fn lemma_byte_length_grows(chars: Seq<char>, at: int)
    requires
        0 <= at <= chars.len(),
    ensures
        byte_length(chars.take(at)) + (chars.len() - at) <= byte_length(chars),
    decreases chars.len() - at,
{
    if at == chars.len() {
        assert(chars.take(at) =~= chars);
    } else {
        lemma_byte_length_grows(chars, at + 1);
        assert(chars.take(at + 1).drop_last() =~= chars.take(at));
    }
}

/// The layouts of the monitors that set one.
pub fn layout_per_monitor_from_config(
    base: LayoutConfig,
    overrides: &[(String, LayoutOverride)],
) -> (r: Vec<(String, LayoutConfig)>)
    ensures
        r.len() == overrides.len(),
        forall|i: int| 0 <= i < r.len() ==> (#[trigger] r@[i]).0@ == overrides@[i].0@,
        forall|i: int|
            0 <= i < r.len() ==> (#[trigger] r@[i]).1 == overridden_layout(base, overrides@[i].1),
{
    let mut layouts: Vec<(String, LayoutConfig)> = Vec::new();
    let mut index: usize = 0;
    while index < overrides.len()
        invariant
            index <= overrides.len(),
            layouts.len() == index,
            forall|i: int| 0 <= i < index ==> (#[trigger] layouts@[i]).0@ == overrides@[i].0@,
            forall|i: int|
                0 <= i < index ==> (#[trigger] layouts@[i]).1 == overridden_layout(
                    base,
                    overrides@[i].1,
                ),
        decreases overrides.len() - index,
    {
        layouts.push(
            (overrides[index].0.clone(), merge_layout_override(base, &overrides[index].1)),
        );
        index = index + 1;
    }
    layouts
}

/// The layouts of the workspaces that set one, by number; a name that is no number is passed over, and
/// of two names for one number the later counts.
pub open spec fn workspace_layouts(
    base: LayoutConfig,
    overrides: Seq<(String, LayoutOverride)>,
) -> Map<u64, LayoutConfig>
    decreases overrides.len(),
{
    if overrides.len() == 0 {
        Map::empty()
    } else {
        let before = workspace_layouts(base, overrides.drop_last());
        let last = overrides.last();
        match parsed(last.0@, 10, 0xffff) {
            Some(number) => before.insert(number as u64, overridden_layout(base, last.1)),
            None => before,
        }
    }
}

/// The layouts of the workspaces that set one.
pub fn layout_per_workspace_from_config(
    base: LayoutConfig,
    overrides: &[(String, LayoutOverride)],
) -> (r: SortedMap<LayoutConfig>)
    ensures
        r.wf(),
        r@ == workspace_layouts(base, overrides@),
{
    let mut layouts: SortedMap<LayoutConfig> = SortedMap::new();
    let mut index: usize = 0;
    while index < overrides.len()
        invariant
            index <= overrides.len(),
            layouts.wf(),
            layouts@ == workspace_layouts(base, overrides@.take(index as int)),
        decreases overrides.len() - index,
    {
        proof {
            assert(overrides@.take(index + 1).drop_last() =~= overrides@.take(index as int));
            assert(overrides@.take(index + 1).last() == overrides@[index as int]);
        }
        match parse_number(&chars_of(&overrides[index].0), 10, 0xffff) {
            Some(number) => {
                layouts.insert(number, merge_layout_override(base, &overrides[index].1));
            },
            None => {},
        }
        index = index + 1;
    }
    proof {
        assert(overrides@.take(index as int) =~= overrides@);
    }
    layouts
}

} // verus!
