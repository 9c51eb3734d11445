//! The commands that hotkeys give, and how they are written in the settings.

use vstd::prelude::*;

use crate::geometry::MonitorId;
use crate::hotkey::{
    HotkeyBinding, HotkeyId, HotkeyLowLevelEvent, HotkeyModifierSet, HotkeyRegistrationFailure, VirtualKey,
};
use crate::numeral::{hexadecimal, numeral, parse_number, parsed, signed_decimal, signed_numeral};
use crate::text::{
    chars_of, has_prefix, is_text, split_words, starts_with_part, text_of, trim_chars, trimmed,
    word_views, words,
};
use crate::workspace::WorkspaceId;

verus! {

/// A direction in which the focus goes.
#[derive(Debug, Clone, Copy, PartialEq, Eq, Structural)]
pub enum FocusDirection {
    Left,
    Down,
    Up,
    Right,
}

/// Forward or backward in a circle.
#[derive(Debug, Clone, Copy, PartialEq, Eq, Structural)]
pub enum CycleDirection {
    Next,
    Prev,
}

/// Which monitor is meant.
#[derive(Debug, Clone, Copy, PartialEq, Eq, Structural)]
pub enum MonitorSelector {
    Next,
    Prev,
    Index(usize),
    Id(MonitorId),
}

/// A command to the daemon.
#[derive(Debug, Clone, PartialEq, Eq)]
pub enum DaemonCommand {
    Focus(FocusDirection),
    FocusMonitor(MonitorSelector),
    Swap(FocusDirection),
    Retile,
    ToggleFloat,
    SwitchWorkspace(WorkspaceId),
    SwitchWorkspaceRelative(CycleDirection),
    MoveFocusedToWorkspace(WorkspaceId),
    MoveFocusedToWorkspaceAndFollow(WorkspaceId),
    MoveFocusedToMonitor(MonitorSelector),
    SendWorkspaceToMonitor { workspace: WorkspaceId, monitor: MonitorSelector },
    Reload,
    Quit,
    Launch(String),
}

impl DaemonCommand {
    /// Whether the command only reloads the settings, ends the daemon or starts a program.
    pub open spec fn leaves_windows_alone(self) -> bool {
        self is Reload || self is Quit || self is Launch
    }

    /// Whether the command needs to know the monitors.
    pub fn needs_monitors(&self) -> (r: bool)
        ensures
            r == !self.leaves_windows_alone(),
    {
        self.needs_layout() || (match self {
            DaemonCommand::Focus(_) | DaemonCommand::FocusMonitor(_) => true,
            _ => false,
        })
    }

    /// Whether the command may change the layout.
    pub fn needs_layout(&self) -> (r: bool)
        ensures
            r == (!self.leaves_windows_alone() && !(self is Focus)),
    {
        match self {
            DaemonCommand::FocusMonitor(_)
            | DaemonCommand::Swap(_)
            | DaemonCommand::Retile
            | DaemonCommand::ToggleFloat
            | DaemonCommand::SwitchWorkspace(_)
            | DaemonCommand::SwitchWorkspaceRelative(_)
            | DaemonCommand::MoveFocusedToWorkspace(_)
            | DaemonCommand::MoveFocusedToWorkspaceAndFollow(_)
            | DaemonCommand::MoveFocusedToMonitor(_)
            | DaemonCommand::SendWorkspaceToMonitor { .. } => true,
            _ => false,
        }
    }

    /// Whether the command is ignored while a game pauses the layouts.
    pub fn is_suppressed_by_game_mode(&self) -> (r: bool)
        ensures
            r == !self.leaves_windows_alone(),
    {
        match self {
            DaemonCommand::Focus(_)
            | DaemonCommand::FocusMonitor(_)
            | DaemonCommand::Swap(_)
            | DaemonCommand::Retile
            | DaemonCommand::ToggleFloat
            | DaemonCommand::SwitchWorkspace(_)
            | DaemonCommand::SwitchWorkspaceRelative(_)
            | DaemonCommand::MoveFocusedToWorkspace(_)
            | DaemonCommand::MoveFocusedToWorkspaceAndFollow(_)
            | DaemonCommand::MoveFocusedToMonitor(_)
            | DaemonCommand::SendWorkspaceToMonitor { .. } => true,
            _ => false,
        }
    }
}

/// The workspace that a word names: a number from one on.
pub open spec fn workspace_named(word: Seq<char>) -> Option<u16> {
    match parsed(word, 10, 0xffff) {
        Some(number) => if number > 0 {
            Some(number as u16)
        } else {
            None
        },
        None => None,
    }
}

/// The monitor that a word names: the next or previous one, an identifier in hexadecimal, or a place
/// in the order of the monitors from one on.
pub open spec fn monitor_named_by(word: Seq<char>) -> Option<MonitorSelector> {
    if word == "next"@ {
        Some(MonitorSelector::Next)
    } else if word == "prev"@ || word == "previous"@ {
        Some(MonitorSelector::Prev)
    } else if has_prefix(word, "0x"@) || has_prefix(word, "0X"@) {
        match parsed(word.skip(2), 16, 0xffff_ffff_ffff_ffff) {
            Some(id) => Some(MonitorSelector::Id(MonitorId(id as u64))),
            None => None,
        }
    } else {
        match parsed(word, 10, usize::MAX as nat) {
            Some(index) => if index > 0 {
                Some(MonitorSelector::Index(index as usize))
            } else {
                None
            },
            None => None,
        }
    }
}

/// The command that words make.
pub open spec fn command_of_words(words: Seq<Seq<char>>) -> Option<DaemonCommand> {
    if words.len() == 2 {
        if words[0] == "switch-workspace"@ {
            if words[1] == "next"@ {
                Some(DaemonCommand::SwitchWorkspaceRelative(CycleDirection::Next))
            } else if words[1] == "prev"@ || words[1] == "previous"@ {
                Some(DaemonCommand::SwitchWorkspaceRelative(CycleDirection::Prev))
            } else {
                match workspace_named(words[1]) {
                    Some(number) => Some(DaemonCommand::SwitchWorkspace(WorkspaceId(number))),
                    None => None,
                }
            }
        } else if words[0] == "move-window-to-workspace"@ {
            match workspace_named(words[1]) {
                Some(number) => Some(DaemonCommand::MoveFocusedToWorkspace(WorkspaceId(number))),
                None => None,
            }
        } else if words[0] == "move-window-to-workspace-and-follow"@ {
            match workspace_named(words[1]) {
                Some(number) => Some(
                    DaemonCommand::MoveFocusedToWorkspaceAndFollow(WorkspaceId(number)),
                ),
                None => None,
            }
        } else if words[0] == "focus-monitor"@ {
            match monitor_named_by(words[1]) {
                Some(monitor) => Some(DaemonCommand::FocusMonitor(monitor)),
                None => None,
            }
        } else if words[0] == "move-window-to-monitor"@ {
            match monitor_named_by(words[1]) {
                Some(monitor) => Some(DaemonCommand::MoveFocusedToMonitor(monitor)),
                None => None,
            }
        } else {
            None
        }
    } else if words.len() == 3 && words[0] == "send-workspace-to-monitor"@ {
        match (workspace_named(words[1]), monitor_named_by(words[2])) {
            (Some(number), Some(monitor)) => Some(
                DaemonCommand::SendWorkspaceToMonitor { workspace: WorkspaceId(number), monitor },
            ),
            _ => None,
        }
    } else {
        None
    }
}

/// The command that one word names.
pub open spec fn plain_command(name: Seq<char>) -> Option<DaemonCommand> {
    if name == "focus-left"@ {
        Some(DaemonCommand::Focus(FocusDirection::Left))
    } else if name == "focus-down"@ {
        Some(DaemonCommand::Focus(FocusDirection::Down))
    } else if name == "focus-up"@ {
        Some(DaemonCommand::Focus(FocusDirection::Up))
    } else if name == "focus-right"@ {
        Some(DaemonCommand::Focus(FocusDirection::Right))
    } else if name == "swap-left"@ {
        Some(DaemonCommand::Swap(FocusDirection::Left))
    } else if name == "swap-down"@ {
        Some(DaemonCommand::Swap(FocusDirection::Down))
    } else if name == "swap-up"@ {
        Some(DaemonCommand::Swap(FocusDirection::Up))
    } else if name == "swap-right"@ {
        Some(DaemonCommand::Swap(FocusDirection::Right))
    } else if name == "retile"@ {
        Some(DaemonCommand::Retile)
    } else if name == "toggle-float"@ {
        Some(DaemonCommand::ToggleFloat)
    } else if name == "reload"@ {
        Some(DaemonCommand::Reload)
    } else if name == "quit"@ {
        Some(DaemonCommand::Quit)
    } else {
        None
    }
}

/// The number behind a prefix.
pub open spec fn number_after(text: Seq<char>, prefix: Seq<char>) -> Option<nat> {
    if has_prefix(text, prefix) {
        parsed(text.skip(prefix.len() as int), 10, 0xffff)
    } else {
        None
    }
}

/// The command that a text stands for.
pub open spec fn command_named(text: Seq<char>) -> Option<DaemonCommand> {
    let name = trimmed(text);
    if number_after(name, "switch-workspace-"@) is Some {
        Some(
            DaemonCommand::SwitchWorkspace(
                WorkspaceId(number_after(name, "switch-workspace-"@).unwrap() as u16),
            ),
        )
    } else if number_after(name, "move-to-workspace-"@) is Some {
        Some(
            DaemonCommand::MoveFocusedToWorkspace(
                WorkspaceId(number_after(name, "move-to-workspace-"@).unwrap() as u16),
            ),
        )
    } else if command_of_words(words(name, 0)) is Some {
        command_of_words(words(name, 0))
    } else {
        plain_command(name)
    }
}

/// The characters of a list from an index on.
fn chars_from(chars: &[char], start: usize) -> (r: Vec<char>)
    requires
        start <= chars.len(),
    ensures
        r@ == chars@.skip(start as int),
{
    let mut rest: Vec<char> = Vec::new();
    let mut index: usize = start;
    while index < chars.len()
        invariant
            start <= index <= chars.len(),
            rest@ == chars@.subrange(start as int, index as int),
        decreases chars.len() - index,
    {
        rest.push(chars[index]);
        proof {
            assert(chars@.subrange(start as int, index + 1) =~= chars@.subrange(
                start as int,
                index as int,
            ).push(chars@[index as int]));
        }
        index = index + 1;
    }
    proof {
        assert(rest@ =~= chars@.skip(start as int));
    }
    rest
}

fn parse_number_after(name: &[char], prefix: &str) -> (r: Option<u16>)
    ensures
        match r {
            Some(number) => number_after(name@, prefix@) == Some(number as nat),
            None => number_after(name@, prefix@) is None,
        },
{
    let prefix_chars: Vec<char> = chars_of(prefix);
    if !starts_with_part(name, &prefix_chars) {
        return None;
    }
    match parse_number(&chars_from(name, prefix_chars.len()), 10, 0xffff) {
        Some(number) => Some(number as u16),
        None => None,
    }
}

/// The workspace that a word names.
pub fn parse_workspace(input: &[char]) -> (r: Option<u16>)
    ensures
        r == workspace_named(input@),
{
    match parse_number(input, 10, 0xffff) {
        Some(number) => if number > 0 {
            Some(number as u16)
        } else {
            None
        },
        None => None,
    }
}

/// The monitor that a word names.
pub fn parse_monitor_selector(input: &[char]) -> (r: Option<MonitorSelector>)
    ensures
        r == monitor_named_by(input@),
{
    if is_text(input, "next") {
        return Some(MonitorSelector::Next);
    }
    if is_text(input, "prev") || is_text(input, "previous") {
        return Some(MonitorSelector::Prev);
    }
    proof {
        reveal_strlit("0x");
        reveal_strlit("0X");
    }
    if starts_with_part(input, &chars_of("0x")) || starts_with_part(input, &chars_of("0X")) {
        match parse_number(&chars_from(input, 2), 16, 0xffff_ffff_ffff_ffff) {
            Some(id) => Some(MonitorSelector::Id(MonitorId(id))),
            None => None,
        }
    } else {
        match parse_number(input, 10, usize::MAX as u64) {
            Some(index) => if index > 0 {
                Some(MonitorSelector::Index(index as usize))
            } else {
                None
            },
            None => None,
        }
    }
}

/// The command that words make.
pub fn daemon_command_from_words(command: &[char]) -> (r: Option<DaemonCommand>)
    ensures
        r == command_of_words(words(command@, 0)),
{
    let found: Vec<Vec<char>> = split_words(command);
    proof {
        assert(word_views(found@).len() == found@.len());
        assert(forall|i: int|
            0 <= i < found@.len() ==> #[trigger] word_views(found@)[i] == found@[i]@);
    }
    if found.len() == 2 {
        if is_text(&found[0], "switch-workspace") {
            if is_text(&found[1], "next") {
                Some(DaemonCommand::SwitchWorkspaceRelative(CycleDirection::Next))
            } else if is_text(&found[1], "prev") || is_text(&found[1], "previous") {
                Some(DaemonCommand::SwitchWorkspaceRelative(CycleDirection::Prev))
            } else {
                match parse_workspace(&found[1]) {
                    Some(number) => Some(DaemonCommand::SwitchWorkspace(WorkspaceId(number))),
                    None => None,
                }
            }
        } else if is_text(&found[0], "move-window-to-workspace") {
            match parse_workspace(&found[1]) {
                Some(number) => Some(DaemonCommand::MoveFocusedToWorkspace(WorkspaceId(number))),
                None => None,
            }
        } else if is_text(&found[0], "move-window-to-workspace-and-follow") {
            match parse_workspace(&found[1]) {
                Some(number) => Some(
                    DaemonCommand::MoveFocusedToWorkspaceAndFollow(WorkspaceId(number)),
                ),
                None => None,
            }
        } else if is_text(&found[0], "focus-monitor") {
            match parse_monitor_selector(&found[1]) {
                Some(monitor) => Some(DaemonCommand::FocusMonitor(monitor)),
                None => None,
            }
        } else if is_text(&found[0], "move-window-to-monitor") {
            match parse_monitor_selector(&found[1]) {
                Some(monitor) => Some(DaemonCommand::MoveFocusedToMonitor(monitor)),
                None => None,
            }
        } else {
            None
        }
    } else if found.len() == 3 && is_text(&found[0], "send-workspace-to-monitor") {
        match (parse_workspace(&found[1]), parse_monitor_selector(&found[2])) {
            (Some(number), Some(monitor)) => Some(
                DaemonCommand::SendWorkspaceToMonitor { workspace: WorkspaceId(number), monitor },
            ),
            _ => None,
        }
    } else {
        None
    }
}

fn plain_command_from_name(name: &[char]) -> (r: Option<DaemonCommand>)
    ensures
        r == plain_command(name@),
{
    if is_text(name, "focus-left") {
        Some(DaemonCommand::Focus(FocusDirection::Left))
    } else if is_text(name, "focus-down") {
        Some(DaemonCommand::Focus(FocusDirection::Down))
    } else if is_text(name, "focus-up") {
        Some(DaemonCommand::Focus(FocusDirection::Up))
    } else if is_text(name, "focus-right") {
        Some(DaemonCommand::Focus(FocusDirection::Right))
    } else if is_text(name, "swap-left") {
        Some(DaemonCommand::Swap(FocusDirection::Left))
    } else if is_text(name, "swap-down") {
        Some(DaemonCommand::Swap(FocusDirection::Down))
    } else if is_text(name, "swap-up") {
        Some(DaemonCommand::Swap(FocusDirection::Up))
    } else if is_text(name, "swap-right") {
        Some(DaemonCommand::Swap(FocusDirection::Right))
    } else if is_text(name, "retile") {
        Some(DaemonCommand::Retile)
    } else if is_text(name, "toggle-float") {
        Some(DaemonCommand::ToggleFloat)
    } else if is_text(name, "reload") {
        Some(DaemonCommand::Reload)
    } else if is_text(name, "quit") {
        Some(DaemonCommand::Quit)
    } else {
        None
    }
}

/// The command that a text stands for.
pub fn daemon_command_from_name(command: &str) -> (r: Option<DaemonCommand>)
    ensures
        r == command_named(command@),
{
    let name: Vec<char> = trim_chars(&chars_of(command));
    if let Some(number) = parse_number_after(&name, "switch-workspace-") {
        return Some(DaemonCommand::SwitchWorkspace(WorkspaceId(number)));
    }
    if let Some(number) = parse_number_after(&name, "move-to-workspace-") {
        return Some(DaemonCommand::MoveFocusedToWorkspace(WorkspaceId(number)));
    }
    if let Some(command) = daemon_command_from_words(&name) {
        return Some(command);
    }
    plain_command_from_name(&name)
}

/// A hotkey in the settings: the keys, and the command or the program that they start.
#[derive(Debug, Clone, PartialEq, Eq)]
pub struct HotkeyBindingConfig {
    pub keys: String,
    pub command: Option<String>,
    pub launch: Option<String>,
    pub override_app: bool,
}

/// Why a hotkey of the settings cannot be used.
#[derive(Debug, Clone, Copy, PartialEq, Eq, Structural)]
pub enum HotkeyBindingError {
    UnknownCommand,
    EmptyLaunch,
    NothingSet,
}

/// What a hotkey of the settings does and how it is described, or why it cannot be used.
pub open spec fn is_binding_result(
    binding: HotkeyBindingConfig,
    result: Result<(DaemonCommand, String), HotkeyBindingError>,
) -> bool {
    if binding.command is Some {
        match command_named(trimmed(binding.command.unwrap()@)) {
            Some(command) => result matches Ok(found) && found.0 == command && found.1@ == trimmed(
                binding.command.unwrap()@,
            ),
            None => result == Err::<(DaemonCommand, String), _>(HotkeyBindingError::UnknownCommand),
        }
    } else if binding.launch is Some {
        let line = trimmed(binding.launch.unwrap()@);
        if line.len() == 0 {
            result == Err::<(DaemonCommand, String), _>(HotkeyBindingError::EmptyLaunch)
        } else {
            result matches Ok(found) && (found.0 matches DaemonCommand::Launch(text) && text@ == line)
                && found.1@ == "launch "@ + line
        }
    } else {
        result == Err::<(DaemonCommand, String), _>(HotkeyBindingError::NothingSet)
    }
}

/// What a hotkey of the settings does, and how it is described.
pub fn daemon_command_from_binding(binding: &HotkeyBindingConfig) -> (r: Result<
    (DaemonCommand, String),
    HotkeyBindingError,
>)
    ensures
        is_binding_result(*binding, r),
{
    if let Some(command) = &binding.command {
        let name: String = text_of(&trim_chars(&chars_of(command)));
        return match daemon_command_from_name(&name) {
            Some(found) => Ok((found, name)),
            None => Err(HotkeyBindingError::UnknownCommand),
        };
    }
    if let Some(command_line) = &binding.launch {
        let line: Vec<char> = trim_chars(&chars_of(command_line));
        if line.len() == 0 {
            return Err(HotkeyBindingError::EmptyLaunch);
        }
        let mut description: String = String::new();
        description.push_str("launch ");
        description.push_str(&text_of(&line));
        proof {
            assert(description@ =~= "launch "@ + line@);
        }
        return Ok((DaemonCommand::Launch(text_of(&line)), description));
    }
    Err(HotkeyBindingError::NothingSet)
}

/// A modifier key in the settings.
#[derive(Debug, Clone, Copy, PartialEq, Eq, Structural)]
pub enum HotkeyModifier {
    Alt,
    Control,
    Shift,
    Super,
}

/// A key in the settings.
#[derive(Debug, Clone, Copy, PartialEq, Eq, Structural)]
pub enum HotkeyKey {
    Character(char),
    ArrowLeft,
    ArrowDown,
    ArrowUp,
    ArrowRight,
    Escape,
    Space,
}

/// A key with the modifiers that are held with it.
#[derive(Debug, Clone, PartialEq, Eq)]
pub struct HotkeyChord {
    pub modifiers: Vec<HotkeyModifier>,
    pub key: HotkeyKey,
}

/// The modifiers as a set.
pub open spec fn modifier_set(modifiers: Seq<HotkeyModifier>) -> HotkeyModifierSet {
    HotkeyModifierSet {
        alt: modifiers.contains(HotkeyModifier::Alt),
        control: modifiers.contains(HotkeyModifier::Control),
        shift: modifiers.contains(HotkeyModifier::Shift),
        super_key: modifiers.contains(HotkeyModifier::Super),
        no_repeat: true,
    }
}

/// The modifiers as a set.
pub fn hotkey_modifier_set_from_modifiers(modifiers: &[HotkeyModifier]) -> (r: HotkeyModifierSet)
    ensures
        r == modifier_set(modifiers@),
{
    let mut set: HotkeyModifierSet = HotkeyModifierSet::new();
    let mut index: usize = 0;
    while index < modifiers.len()
        invariant
            index <= modifiers.len(),
            set == modifier_set(modifiers@.take(index as int)),
        decreases modifiers.len() - index,
    {
        proof {
            assert(modifiers@.take(index + 1) =~= modifiers@.take(index as int).push(
                modifiers@[index as int],
            ));
            crate::handles::lemma_contains_push(
                modifiers@.take(index as int),
                modifiers@[index as int],
            );
        }
        set =
        match modifiers[index] {
            HotkeyModifier::Alt => set.alt(),
            HotkeyModifier::Control => set.control(),
            HotkeyModifier::Shift => set.shift(),
            HotkeyModifier::Super => set.super_key(),
        };
        index = index + 1;
    }
    proof {
        assert(modifiers@.take(index as int) =~= modifiers@);
    }
    set
}

/// The code of a key of the settings.
pub open spec fn key_code(key: HotkeyKey) -> VirtualKey {
    match key {
        HotkeyKey::Character(c) => VirtualKey((c as u32 as u8) as u32),
        HotkeyKey::ArrowLeft => VirtualKey(0x25),
        HotkeyKey::ArrowDown => VirtualKey(0x28),
        HotkeyKey::ArrowUp => VirtualKey(0x26),
        HotkeyKey::ArrowRight => VirtualKey(0x27),
        HotkeyKey::Escape => VirtualKey(0x1B),
        HotkeyKey::Space => VirtualKey(0x20),
    }
}

/// The code of a key of the settings.
pub fn virtual_key_from_config(key: &HotkeyKey) -> (r: VirtualKey)
    ensures
        r == key_code(*key),
{
    match key {
        HotkeyKey::Character(c) => {
            let code: u32 = *c as u32;
            #[verifier::truncate]
            let byte: u8 = code as u8;
            VirtualKey::ascii_uppercase(byte)
        },
        HotkeyKey::ArrowLeft => VirtualKey::arrow_left(),
        HotkeyKey::ArrowDown => VirtualKey::arrow_down(),
        HotkeyKey::ArrowUp => VirtualKey::arrow_up(),
        HotkeyKey::ArrowRight => VirtualKey::arrow_right(),
        HotkeyKey::Escape => VirtualKey::escape(),
        HotkeyKey::Space => VirtualKey::space(),
    }
}

/// The commands that hotkeys give; the hotkey with number `n` gives the command at place `n - 1`.
#[derive(Debug, Clone, PartialEq, Eq)]
pub struct HotkeyCommandMap {
    pub commands: Vec<DaemonCommand>,
}

impl HotkeyCommandMap {
    /// The command that a hotkey gives.
    pub fn command(&self, id: HotkeyId) -> (r: Option<&DaemonCommand>)
        ensures
            match r {
                Some(command) => 1 <= id.0 <= self.commands@.len() && *command
                    == self.commands@[id.0 - 1],
                None => !(1 <= id.0 <= self.commands@.len()),
            },
    {
        if id.0 < 1 {
            return None;
        }
        let place: u32 = (id.0 - 1) as u32;
        if (place as u64) < self.commands.len() as u64 {
            Some(&self.commands[place as usize])
        } else {
            None
        }
    }
}

/// The name of a key.
pub open spec fn key_name(key: VirtualKey) -> Seq<char> {
    if key.0 == 0x25 {
        "Left"@
    } else if key.0 == 0x28 {
        "Down"@
    } else if key.0 == 0x26 {
        "Up"@
    } else if key.0 == 0x27 {
        "Right"@
    } else if key.0 == 0x1B {
        "Escape"@
    } else if key.0 == 0x20 {
        "Space"@
    } else if 48 <= key.0 <= 57 || 65 <= key.0 <= 90 {
        seq![key.0 as char]
    } else {
        "VK_"@ + numeral(key.0 as nat, 16)
    }
}

/// The name of a key.
pub fn virtual_key_label(key: VirtualKey) -> (r: String)
    ensures
        r@ == key_name(key),
{
    let mut text: String = String::new();
    if key.0 == VirtualKey::ARROW_LEFT {
        text.push_str("Left");
    } else if key.0 == VirtualKey::ARROW_DOWN {
        text.push_str("Down");
    } else if key.0 == VirtualKey::ARROW_UP {
        text.push_str("Up");
    } else if key.0 == VirtualKey::ARROW_RIGHT {
        text.push_str("Right");
    } else if key.0 == VirtualKey::ESCAPE {
        text.push_str("Escape");
    } else if key.0 == 0x20 {
        text.push_str("Space");
    } else if (48 <= key.0 && key.0 <= 57) || (65 <= key.0 && key.0 <= 90) {
        text.push((key.0 as u8) as char);
    } else {
        text.push_str("VK_");
        text.push_str(&hexadecimal(key.0 as u64));
    }
    proof {
        assert(text@ =~= key_name(key));
    }
    text
}

/// The names of held modifiers, each with a plus sign.
pub open spec fn modifier_names(modifiers: HotkeyModifierSet) -> Seq<char> {
    (if modifiers.super_key {
        "Win+"@
    } else {
        Seq::empty()
    }) + (if modifiers.control {
        "Ctrl+"@
    } else {
        Seq::empty()
    }) + (if modifiers.alt {
        "Alt+"@
    } else {
        Seq::empty()
    }) + (if modifiers.shift {
        "Shift+"@
    } else {
        Seq::empty()
    })
}

/// The name of a key with its modifiers.
pub open spec fn chord_name(modifiers: HotkeyModifierSet, key: VirtualKey) -> Seq<char> {
    modifier_names(modifiers) + key_name(key)
}

fn chord_label(modifiers: HotkeyModifierSet, key: VirtualKey) -> (r: String)
    ensures
        r@ == chord_name(modifiers, key),
{
    let mut text: String = String::new();
    if modifiers.super_key {
        text.push_str("Win+");
    }
    if modifiers.control {
        text.push_str("Ctrl+");
    }
    if modifiers.alt {
        text.push_str("Alt+");
    }
    if modifiers.shift {
        text.push_str("Shift+");
    }
    text.push_str(&virtual_key_label(key));
    proof {
        assert(text@ =~= chord_name(modifiers, key));
    }
    text
}

/// The keys of a binding, as text.
pub fn hotkey_label(binding: &HotkeyBinding) -> (r: String)
    ensures
        r@ == chord_name(binding.modifiers, binding.virtual_key),
{
    chord_label(binding.modifiers, binding.virtual_key)
}

/// The keys of an event, as text.
pub fn hotkey_low_level_label(event: &HotkeyLowLevelEvent) -> (r: String)
    ensures
        r@ == chord_name(event.modifiers, event.virtual_key),
{
    chord_label(event.modifiers, event.virtual_key)
}

/// A hotkey that could not be registered, as text.
pub open spec fn failure_text(failure: HotkeyRegistrationFailure) -> Seq<char> {
    failure.description@ + " (id "@ + signed_numeral(failure.id.0 as int) + "): "@ + failure.error@
}

/// Hotkeys that could not be registered, as text.
pub open spec fn failures_text(failures: Seq<HotkeyRegistrationFailure>) -> Seq<char>
    decreases failures.len(),
{
    if failures.len() == 0 {
        Seq::empty()
    } else if failures.len() == 1 {
        failure_text(failures[0])
    } else {
        failures_text(failures.drop_last()) + "; "@ + failure_text(failures.last())
    }
}

/// Hotkeys that could not be registered, as text.
pub fn format_hotkey_registration_failures(failures: &[HotkeyRegistrationFailure]) -> (r: String)
    ensures
        r@ == failures_text(failures@),
{
    let mut text: String = String::new();
    let mut index: usize = 0;
    while index < failures.len()
        invariant
            index <= failures.len(),
            text@ == failures_text(failures@.take(index as int)),
        decreases failures.len() - index,
    {
        proof {
            assert(failures@.take(index + 1).drop_last() =~= failures@.take(index as int));
            assert(failures@.take(index + 1).last() == failures@[index as int]);
        }
        let ghost before = text@;
        if index > 0 {
            text.push_str("; ");
        }
        let failure: &HotkeyRegistrationFailure = &failures[index];
        text.push_str(&failure.description);
        text.push_str(" (id ");
        text.push_str(&signed_decimal(failure.id.0 as i64));
        text.push_str("): ");
        text.push_str(&failure.error);
        proof {
            if index == 0 {
                assert(failures@.take(1)[0] == failures@[0]);
                assert(text@ =~= failure_text(failures@[0]));
            } else {
                assert(text@ =~= before + "; "@ + failure_text(failures@[index as int]));
            }
        }
        index = index + 1;
    }
    proof {
        assert(failures@.take(index as int) =~= failures@);
    }
    text
}

} // verus!
