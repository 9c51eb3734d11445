//! Hotkeys: what is bound to which keys, and what happens to a key that was intercepted.

use std::time::{Duration, Instant};

use vstd::prelude::*;

use crate::path_name::{file_name, process_name};
use crate::rules::TextMatcher;

verus! {

/// The number by which a hotkey is known.
#[derive(Debug, Clone, Copy, PartialEq, Eq, Hash, PartialOrd, Ord, Structural)]
pub struct HotkeyId(pub i32);

impl From<i32> for HotkeyId {
    fn from(value: i32) -> (r: Self) {
        HotkeyId(value)
    }
}

impl vstd::std_specs::convert::FromSpecImpl<i32> for HotkeyId {
    open spec fn obeys_from_spec() -> bool {
        true
    }

    open spec fn from_spec(value: i32) -> Self {
        HotkeyId(value)
    }
}

/// The modifier keys of a hotkey.
#[derive(Debug, Clone, Copy, PartialEq, Eq, Structural)]
pub struct HotkeyModifierSet {
    pub alt: bool,
    pub control: bool,
    pub shift: bool,
    pub super_key: bool,
    pub no_repeat: bool,
}

impl HotkeyModifierSet {
    /// No modifier keys, and no repetition while the key is held.
    pub open spec fn none() -> HotkeyModifierSet {
        HotkeyModifierSet {
            alt: false,
            control: false,
            shift: false,
            super_key: false,
            no_repeat: true,
        }
    }

    /// No modifier keys, and no repetition while the key is held.
    pub fn new() -> (r: HotkeyModifierSet)
        ensures
            r == HotkeyModifierSet::none(),
    {
        HotkeyModifierSet {
            alt: false,
            control: false,
            shift: false,
            super_key: false,
            no_repeat: true,
        }
    }

    /// The same with the Alt key.
    pub fn alt(self) -> (r: HotkeyModifierSet)
        ensures
            r == (HotkeyModifierSet { alt: true, ..self }),
    {
        HotkeyModifierSet { alt: true, ..self }
    }

    /// The same with the Control key.
    pub fn control(self) -> (r: HotkeyModifierSet)
        ensures
            r == (HotkeyModifierSet { control: true, ..self }),
    {
        HotkeyModifierSet { control: true, ..self }
    }

    /// The same with the Shift key.
    pub fn shift(self) -> (r: HotkeyModifierSet)
        ensures
            r == (HotkeyModifierSet { shift: true, ..self }),
    {
        HotkeyModifierSet { shift: true, ..self }
    }

    /// The same with the Windows key.
    pub fn super_key(self) -> (r: HotkeyModifierSet)
        ensures
            r == (HotkeyModifierSet { super_key: true, ..self }),
    {
        HotkeyModifierSet { super_key: true, ..self }
    }

    /// Whether the same modifier keys are in both, repetition aside.
    pub open spec fn same_keys(self, other: HotkeyModifierSet) -> bool {
        self.alt == other.alt && self.control == other.control && self.shift == other.shift
            && self.super_key == other.super_key
    }

    /// The flags that registration takes: one for Alt, two for Control, four for Shift, eight for
    /// the Windows key, and 0x4000 against repetition.
    pub open spec fn flags(self) -> int {
        (if self.alt { 1int } else { 0 }) + (if self.control { 2int } else { 0 }) + (if self.shift {
            4int
        } else {
            0
        }) + (if self.super_key { 8int } else { 0 }) + (if self.no_repeat { 0x4000int } else { 0 })
    }
}

impl Default for HotkeyModifierSet {
    fn default() -> (r: Self)
        ensures
            r == HotkeyModifierSet::none(),
    {
        HotkeyModifierSet::new()
    }
}

/// The flags that registration takes for the modifier keys.
pub fn hotkey_modifiers(modifiers: HotkeyModifierSet) -> (r: u32)
    ensures
        r == modifiers.flags(),
{
    let mut value: u32 = 0;
    if modifiers.alt {
        value = value + 1;
    }
    if modifiers.control {
        value = value + 2;
    }
    if modifiers.shift {
        value = value + 4;
    }
    if modifiers.super_key {
        value = value + 8;
    }
    if modifiers.no_repeat {
        value = value + 0x4000;
    }
    value
}

/// Whether the same modifier keys are in both, repetition aside.
pub fn modifiers_match(actual: HotkeyModifierSet, expected: HotkeyModifierSet) -> (r: bool)
    ensures
        r == actual.same_keys(expected),
{
    actual.alt == expected.alt && actual.control == expected.control && actual.shift
        == expected.shift && actual.super_key == expected.super_key
}

/// The modifier keys that are held, from the states of the keys.
pub fn held_modifiers(alt: bool, control: bool, shift: bool, left_super: bool, right_super: bool) -> (r:
    HotkeyModifierSet)
    ensures
        r == (HotkeyModifierSet {
            alt,
            control,
            shift,
            super_key: left_super || right_super,
            no_repeat: false,
        }),
{
    HotkeyModifierSet {
        alt,
        control,
        shift,
        super_key: left_super || right_super,
        no_repeat: false,
    }
}

/// Whether a keyboard message says that a key went down.
pub fn is_key_down_message(message: u32) -> (r: bool)
    ensures
        r == (message == 0x100 || message == 0x104),
{
    message == 0x100 || message == 0x104
}

/// A key by its virtual-key code.
#[derive(Debug, Clone, Copy, PartialEq, Eq, Structural)]
pub struct VirtualKey(pub u32);

impl VirtualKey {
    pub const ARROW_LEFT: u32 = 0x25;

    pub const ARROW_UP: u32 = 0x26;

    pub const ARROW_RIGHT: u32 = 0x27;

    pub const ARROW_DOWN: u32 = 0x28;

    pub const ESCAPE: u32 = 0x1B;

    pub const SPACE: u32 = 0x20;

    /// The left arrow key.
    pub fn arrow_left() -> (r: VirtualKey)
        ensures
            r == VirtualKey(0x25),
    {
        VirtualKey(VirtualKey::ARROW_LEFT)
    }

    /// The up arrow key.
    pub fn arrow_up() -> (r: VirtualKey)
        ensures
            r == VirtualKey(0x26),
    {
        VirtualKey(VirtualKey::ARROW_UP)
    }

    /// The right arrow key.
    pub fn arrow_right() -> (r: VirtualKey)
        ensures
            r == VirtualKey(0x27),
    {
        VirtualKey(VirtualKey::ARROW_RIGHT)
    }

    /// The down arrow key.
    pub fn arrow_down() -> (r: VirtualKey)
        ensures
            r == VirtualKey(0x28),
    {
        VirtualKey(VirtualKey::ARROW_DOWN)
    }

    /// The Escape key.
    pub fn escape() -> (r: VirtualKey)
        ensures
            r == VirtualKey(0x1B),
    {
        VirtualKey(VirtualKey::ESCAPE)
    }

    /// The space key.
    pub fn space() -> (r: VirtualKey)
        ensures
            r == VirtualKey(0x20),
    {
        VirtualKey(VirtualKey::SPACE)
    }

    /// The key of a capital letter or a digit.
    pub fn ascii_uppercase(byte: u8) -> (r: VirtualKey)
        ensures
            r == VirtualKey(byte as u32),
    {
        VirtualKey(byte as u32)
    }
}

/// A hotkey that was pressed.
#[derive(Debug, Clone, Copy, PartialEq, Eq, Structural)]
pub struct HotkeyEvent {
    pub id: HotkeyId,
}

/// Keys that a hotkey is bound to.
#[derive(Debug, Clone, PartialEq, Eq)]
pub struct HotkeyBinding {
    pub id: HotkeyId,
    pub modifiers: HotkeyModifierSet,
    pub virtual_key: VirtualKey,
    pub description: String,
    pub suppress_app: bool,
}

impl HotkeyBinding {
    /// A binding that leaves the key to the application too.
    pub fn new(
        id: HotkeyId,
        modifiers: HotkeyModifierSet,
        virtual_key: VirtualKey,
        description: &str,
    ) -> (r: HotkeyBinding)
        ensures
            r.id == id,
            r.modifiers == modifiers,
            r.virtual_key == virtual_key,
            r.description@ == description@,
            r.suppress_app == false,
    {
        HotkeyBinding {
            id,
            modifiers,
            virtual_key,
            description: description.to_owned(),
            suppress_app: false,
        }
    }

    /// The same, with the key kept from the application or not.
    pub fn with_suppression(self, suppress_app: bool) -> (r: HotkeyBinding)
        ensures
            r == (HotkeyBinding { suppress_app, ..self }),
    {
        HotkeyBinding { suppress_app, ..self }
    }
}

/// A hotkey that could not be registered.
#[derive(Debug, Clone, PartialEq, Eq)]
pub struct HotkeyRegistrationFailure {
    pub id: HotkeyId,
    pub description: String,
    pub error: String,
}

/// A key that went down, with the modifier keys held.
#[derive(Debug, Clone, Copy, PartialEq, Eq, Structural)]
pub struct HotkeyLowLevelEvent {
    pub modifiers: HotkeyModifierSet,
    pub virtual_key: VirtualKey,
}

impl HotkeyLowLevelEvent {
    /// Whether the keys are these.
    pub open spec fn has_keys(self, modifiers: HotkeyModifierSet, virtual_key: VirtualKey) -> bool {
        self.virtual_key == virtual_key && self.modifiers.same_keys(modifiers)
    }

    /// Whether the keys are the same.
    pub fn matches(&self, other: &HotkeyLowLevelEvent) -> (r: bool)
        ensures
            r == self.has_keys(other.modifiers, other.virtual_key),
    {
        self.virtual_key == other.virtual_key && modifiers_match(self.modifiers, other.modifiers)
    }

    /// Whether the keys are the binding's.
    pub fn matches_binding(&self, binding: &HotkeyBinding) -> (r: bool)
        ensures
            r == self.has_keys(binding.modifiers, binding.virtual_key),
    {
        self.virtual_key == binding.virtual_key && modifiers_match(
            self.modifiers,
            binding.modifiers,
        )
    }
}

/// The focused window as far as hotkeys depend on it.
#[derive(Debug, Clone, PartialEq, Eq)]
pub struct HotkeyWindowContext {
    pub class_name: String,
    pub executable_path: Option<String>,
    pub is_fullscreen: bool,
}

/// The windows that get every key themselves.
#[derive(Debug, Clone)]
pub struct HotkeyBypassRules {
    pub fullscreen: bool,
    pub class_names: Vec<TextMatcher>,
    pub executable_paths: Vec<TextMatcher>,
    pub process_names: Vec<TextMatcher>,
}

impl Default for HotkeyBypassRules {
    fn default() -> (r: Self)
        ensures
            r.fullscreen == false,
            r.class_names@.len() == 0,
            r.executable_paths@.len() == 0,
            r.process_names@.len() == 0,
    {
        HotkeyBypassRules {
            fullscreen: false,
            class_names: Vec::new(),
            executable_paths: Vec::new(),
            process_names: Vec::new(),
        }
    }
}

/// Whether one of the matchers accepts the text.
pub open spec fn any_accepts(matchers: Seq<TextMatcher>, text: Seq<char>) -> bool {
    exists|i: int| 0 <= i < matchers.len() && (#[trigger] matchers[i]).accepts(text)
}

/// Whether one of the matchers accepts the text.
pub fn any_matches(matchers: &[TextMatcher], text: &str) -> (r: bool)
    ensures
        r == any_accepts(matchers@, text@),
{
    let mut index: usize = 0;
    while index < matchers.len()
        invariant
            index <= matchers.len(),
            forall|i: int| 0 <= i < index ==> !(#[trigger] matchers@[i]).accepts(text@),
        decreases matchers.len() - index,
    {
        if matchers[index].matches(text) {
            return true;
        }
        index = index + 1;
    }
    false
}

impl HotkeyBypassRules {
    /// Whether the window gets every key itself.
    pub open spec fn spares(self, focused: HotkeyWindowContext) -> bool {
        ||| self.fullscreen && focused.is_fullscreen
        ||| any_accepts(self.class_names@, focused.class_name@)
        ||| match focused.executable_path {
            Some(path) => any_accepts(self.executable_paths@, path@) || match file_name(path@) {
                Some(name) => any_accepts(self.process_names@, name),
                None => false,
            },
            None => false,
        }
    }

    /// Whether the rules ask for a window's executable.
    pub fn needs_process_metadata(&self) -> (r: bool)
        ensures
            r == (self.executable_paths@.len() > 0 || self.process_names@.len() > 0),
    {
        !self.executable_paths.is_empty() || !self.process_names.is_empty()
    }

    /// Whether the window gets every key itself.
    pub fn matches(&self, focused: &HotkeyWindowContext) -> (r: bool)
        ensures
            r == self.spares(*focused),
    {
        if self.fullscreen && focused.is_fullscreen {
            return true;
        }
        if any_matches(&self.class_names, &focused.class_name) {
            return true;
        }
        if let Some(path) = &focused.executable_path {
            if any_matches(&self.executable_paths, path) {
                return true;
            }
            if let Some(name) = process_name(path) {
                if any_matches(&self.process_names, &name) {
                    return true;
                }
            }
        }
        false
    }
}

/// How intercepted keys are treated.
#[derive(Debug, Clone)]
pub struct HotkeyOverrideOptions {
    pub panic_hotkey: HotkeyLowLevelEvent,
    pub bypass: HotkeyBypassRules,
    pub latency_budget_micros: u64,
}

/// How windows are dragged with a modifier key.
#[derive(Debug, Clone)]
pub struct ModifierDragOptions {
    pub modifiers: HotkeyModifierSet,
    pub bypass: HotkeyBypassRules,
}

/// What happens to an intercepted key.
#[derive(Debug, Clone, PartialEq, Eq)]
pub enum HotkeyInterceptionDecision {
    Dispatch { id: HotkeyId, suppress: bool },
    PassThrough { reason: &'static str },
}

/// The first binding, from index `from` on, that has the event's keys.
pub open spec fn bound_from(event: HotkeyLowLevelEvent, bindings: Seq<HotkeyBinding>, from: int) -> Option<
    HotkeyBinding,
>
    decreases bindings.len() - from,
{
    if from >= bindings.len() {
        None
    } else if event.has_keys(bindings[from].modifiers, bindings[from].virtual_key) {
        Some(bindings[from])
    } else {
        bound_from(event, bindings, from + 1)
    }
}

/// Whether the focused window gets every key itself.
pub open spec fn focus_is_spared(
    options: HotkeyOverrideOptions,
    focused: Option<&HotkeyWindowContext>,
) -> bool {
    match focused {
        Some(window) => options.bypass.spares(*window),
        None => false,
    }
}

/// Whether the decision is right: the panic hotkey passes, then every key for a spared window, then
/// every key that is not bound; a bound key is dispatched for the first binding that has it.
pub open spec fn is_interception(
    event: HotkeyLowLevelEvent,
    bindings: Seq<HotkeyBinding>,
    options: HotkeyOverrideOptions,
    focused: Option<&HotkeyWindowContext>,
    decision: HotkeyInterceptionDecision,
) -> bool {
    if event.has_keys(options.panic_hotkey.modifiers, options.panic_hotkey.virtual_key) {
        decision matches HotkeyInterceptionDecision::PassThrough { reason } && reason@
            == "panic hotkey"@
    } else if focus_is_spared(options, focused) {
        decision matches HotkeyInterceptionDecision::PassThrough { reason } && reason@
            == "game-safe bypass"@
    } else {
        match bound_from(event, bindings, 0) {
            Some(binding) => decision == (HotkeyInterceptionDecision::Dispatch {
                id: binding.id,
                suppress: binding.suppress_app,
            }),
            None => decision matches HotkeyInterceptionDecision::PassThrough { reason } && reason@
                == "unbound key"@,
        }
    }
}

/// Decides what happens to an intercepted key.
pub fn classify_intercepted_hotkey(
    event: &HotkeyLowLevelEvent,
    bindings: &[HotkeyBinding],
    options: &HotkeyOverrideOptions,
    focused: Option<&HotkeyWindowContext>,
) -> (r: HotkeyInterceptionDecision)
    ensures
        is_interception(*event, bindings@, *options, focused, r),
{
    if event.matches(&options.panic_hotkey) {
        return HotkeyInterceptionDecision::PassThrough { reason: "panic hotkey" };
    }
    if let Some(window) = focused {
        if options.bypass.matches(window) {
            return HotkeyInterceptionDecision::PassThrough { reason: "game-safe bypass" };
        }
    }
    let mut index: usize = 0;
    while index < bindings.len()
        invariant
            index <= bindings.len(),
            bound_from(*event, bindings@, 0) == bound_from(*event, bindings@, index as int),
            !event.has_keys(options.panic_hotkey.modifiers, options.panic_hotkey.virtual_key),
            !focus_is_spared(*options, focused),
        decreases bindings.len() - index,
    {
        if event.matches_binding(&bindings[index]) {
            return HotkeyInterceptionDecision::Dispatch {
                id: bindings[index].id,
                suppress: bindings[index].suppress_app,
            };
        }
        index = index + 1;
    }
    HotkeyInterceptionDecision::PassThrough { reason: "unbound key" }
}

/// A message of the keyboard, and whether messages are let pass for now.
#[derive(Debug, Clone, Copy, PartialEq, Eq, Structural)]
pub struct KeyInput {
    pub code: i32,
    pub message: u32,
    pub paused: bool,
}

/// What becomes of a message of the keyboard: the hotkey that it gives, and whether it is kept from the
/// application.
#[derive(Debug, Clone, Copy, PartialEq, Eq, Structural)]
pub struct KeyOutcome {
    pub dispatch: Option<HotkeyId>,
    pub swallow: bool,
}

/// Whether a message is looked at: it reports a key that went down, and messages are not let pass.
pub open spec fn is_looked_at(input: KeyInput) -> bool {
    input.code == 0 && (input.message == 0x100 || input.message == 0x104) && !input.paused
}

/// What becomes of a message, given the decision about the key.
pub open spec fn key_outcome(input: KeyInput, decision: HotkeyInterceptionDecision) -> KeyOutcome {
    match decision {
        HotkeyInterceptionDecision::Dispatch { id, suppress } if is_looked_at(input) => KeyOutcome {
            dispatch: Some(id),
            swallow: suppress,
        },
        _ => KeyOutcome { dispatch: None, swallow: false },
    }
}

/// Decides what becomes of a message of the keyboard.
pub fn handle_key_message(
    input: KeyInput,
    event: &HotkeyLowLevelEvent,
    bindings: &[HotkeyBinding],
    options: &HotkeyOverrideOptions,
    focused: Option<&HotkeyWindowContext>,
) -> (r: KeyOutcome)
    ensures
        exists|decision: HotkeyInterceptionDecision|
            is_interception(*event, bindings@, *options, focused, decision) && r == #[trigger]
                key_outcome(input, decision),
{
    let decision: HotkeyInterceptionDecision = classify_intercepted_hotkey(
        event,
        bindings,
        options,
        focused,
    );
    let ghost decided = decision;
    let looked_at: bool = input.code == 0 && is_key_down_message(input.message) && !input.paused;
    let outcome: KeyOutcome = match decision {
        HotkeyInterceptionDecision::Dispatch { id, suppress } => if looked_at {
            KeyOutcome { dispatch: Some(id), swallow: suppress }
        } else {
            KeyOutcome { dispatch: None, swallow: false }
        },
        HotkeyInterceptionDecision::PassThrough { .. } => KeyOutcome {
            dispatch: None,
            swallow: false,
        },
    };
    proof {
        assert(outcome == key_outcome(input, decided));
    }
    outcome
}

/// Only a key that gives a hotkey is kept from the application, and none while messages are let pass.
pub proof fn swallowed_key_gives_a_hotkey(input: KeyInput, decision: HotkeyInterceptionDecision)
    requires
        key_outcome(input, decision).swallow,
    ensures
        key_outcome(input, decision).dispatch is Some,
        !input.paused,
        decision is Dispatch,
{
}

/// The panic hotkey is never dispatched, whatever is bound to it.
pub proof fn panic_hotkey_is_never_dispatched(
    event: HotkeyLowLevelEvent,
    bindings: Seq<HotkeyBinding>,
    options: HotkeyOverrideOptions,
    focused: Option<&HotkeyWindowContext>,
    decision: HotkeyInterceptionDecision,
)
    requires
        is_interception(event, bindings, options, focused, decision),
        event.has_keys(options.panic_hotkey.modifiers, options.panic_hotkey.virtual_key),
    ensures
        decision !is Dispatch,
{
}

/// A window that gets every key itself loses none to a hotkey.
pub proof fn spared_window_gets_every_key(
    event: HotkeyLowLevelEvent,
    bindings: Seq<HotkeyBinding>,
    options: HotkeyOverrideOptions,
    focused: HotkeyWindowContext,
    decision: HotkeyInterceptionDecision,
)
    requires
        is_interception(event, bindings, options, Some(&focused), decision),
        options.bypass.spares(focused),
    ensures
        decision !is Dispatch,
{
}

/// A point in time, as the system's monotonic clock tells it.
#[verifier::external_type_specification]
#[verifier::external_body]
pub struct ExInstant(Instant);

/// `Instant::now` reads the clock; nothing is claimed of what it reads.
pub assume_specification[ Instant::now ]() -> (r: Instant)
;

/// `Instant::elapsed` reads how long ago an instant was; nothing is claimed of what it reads.
pub assume_specification[ Instant::elapsed ](instant: &Instant) -> (r: Duration)
;

/// `Duration::as_nanos` gives a span in nanoseconds; nothing is claimed of how many.
pub assume_specification[ Duration::as_nanos ](duration: &Duration) -> (r: u128)
;

/// How long decisions took, in nanoseconds.
#[derive(Debug, Clone, Copy, PartialEq, Eq, Structural)]
pub struct HotkeyDecisionBenchmark {
    pub iterations: usize,
    pub total: u128,
    pub average: u128,
    pub max: u128,
}

/// The longest of times; zero if there are none.
pub fn longest_of(times: &[u128]) -> (r: u128)
    ensures
        forall|i: int| 0 <= i < times@.len() ==> #[trigger] times@[i] <= r,
        times@.len() > 0 ==> times@.contains(r),
        times@.len() == 0 ==> r == 0,
{
    let mut longest: u128 = 0;
    let mut index: usize = 0;
    while index < times.len()
        invariant
            index <= times.len(),
            forall|i: int| 0 <= i < index ==> #[trigger] times@[i] <= longest,
            index > 0 ==> times@.contains(longest),
            index == 0 ==> longest == 0,
        decreases times.len() - index,
    {
        if index == 0 || times[index] > longest {
            longest = times[index];
        }
        index = index + 1;
    }
    longest
}

impl HotkeyDecisionBenchmark {
    /// The summary of what was measured: how long each decision took, and how long all of them took
    /// together. The longest time is kept, and the average is the total over the number of decisions,
    /// rounded down.
    pub fn summarize(times: &[u128], total: u128) -> (r: HotkeyDecisionBenchmark)
        requires
            1 <= times.len(),
        ensures
            r.iterations == times.len(),
            r.total == total,
            r.average == total / times.len() as u128,
            r.average <= r.total,
            times@.contains(r.max),
            forall|i: int| 0 <= i < times@.len() ==> #[trigger] times@[i] <= r.max,
    {
        let iterations: usize = times.len();
        proof {
            assert(total / (iterations as u128) <= total) by (nonlinear_arith)
                requires
                    iterations >= 1,
            ;
        }
        HotkeyDecisionBenchmark {
            iterations,
            total,
            average: total / iterations as u128,
            max: longest_of(times),
        }
    }
}

/// Measures how long decisions take, and summarizes the times. The times depend on the machine: what is
/// stated here holds of whatever was measured, and `HotkeyDecisionBenchmark::summarize` says what becomes
/// of the times.
pub fn benchmark_hotkey_decision_path(
    event: &HotkeyLowLevelEvent,
    bindings: &[HotkeyBinding],
    options: &HotkeyOverrideOptions,
    focused: Option<&HotkeyWindowContext>,
    iterations: usize,
) -> (r: HotkeyDecisionBenchmark)
    requires
        iterations <= u32::MAX,
    ensures
        r.iterations == if iterations < 1 {
            1
        } else {
            iterations
        },
        r.average == r.total / r.iterations as u128,
        r.average <= r.total,
{
    let iterations: usize = if iterations < 1 {
        1
    } else {
        iterations
    };
    let mut times: Vec<u128> = Vec::new();
    let started_all: Instant = Instant::now();
    while times.len() < iterations
        invariant
            times.len() <= iterations,
        decreases iterations - times.len(),
    {
        let started: Instant = Instant::now();
        let _ = classify_intercepted_hotkey(event, bindings, options, focused);
        times.push(started.elapsed().as_nanos());
    }
    let total: u128 = started_all.elapsed().as_nanos();
    HotkeyDecisionBenchmark::summarize(&times, total)
}

} // verus!
