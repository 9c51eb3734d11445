//! Rules that say how windows are treated.

use vstd::prelude::*;

use crate::path_name::{file_name, process_name};
use crate::text::{
    chars_of, contains_part, ends_with_part, has_part, has_prefix, has_suffix, lowercase, same_chars,
    starts_with_part,
};
use crate::window::WindowInfo;
use crate::workspace::WorkspaceId;

verus! {

/// A condition on a text, without regard to case.
#[derive(Debug, Clone, PartialEq, Eq)]
pub enum TextMatcher {
    Exact(String),
    Contains(String),
    Prefix(String),
    Suffix(String),
}

impl TextMatcher {
    /// The text that the condition speaks of.
    pub open spec fn pattern(self) -> Seq<char> {
        match self {
            TextMatcher::Exact(expected) => expected@,
            TextMatcher::Contains(needle) => needle@,
            TextMatcher::Prefix(prefix) => prefix@,
            TextMatcher::Suffix(suffix) => suffix@,
        }
    }

    /// Whether the condition holds between a value and a pattern as they stand.
    pub open spec fn relates(self, value: Seq<char>, pattern: Seq<char>) -> bool {
        match self {
            TextMatcher::Exact(_) => value == pattern,
            TextMatcher::Contains(_) => has_part(value, pattern),
            TextMatcher::Prefix(_) => has_prefix(value, pattern),
            TextMatcher::Suffix(_) => has_suffix(value, pattern),
        }
    }

    /// Whether the text meets the condition.
    pub open spec fn accepts(self, value: Seq<char>) -> bool {
        self.relates(lowercase(value), lowercase(self.pattern()))
    }

    /// Whether the condition holds between a value and a pattern as they stand.
    pub fn matches_lowered(&self, value: &str, pattern: &str) -> (r: bool)
        ensures
            r == self.relates(value@, pattern@),
    {
        let value_chars: Vec<char> = chars_of(value);
        let pattern_chars: Vec<char> = chars_of(pattern);
        match self {
            TextMatcher::Exact(_) => same_chars(&value_chars, &pattern_chars),
            TextMatcher::Contains(_) => contains_part(&value_chars, &pattern_chars),
            TextMatcher::Prefix(_) => starts_with_part(&value_chars, &pattern_chars),
            TextMatcher::Suffix(_) => ends_with_part(&value_chars, &pattern_chars),
        }
    }

    /// Whether the text meets the condition.
    pub fn matches(&self, value: &str) -> (r: bool)
        ensures
            r == self.accepts(value@),
    {
        let lowered: String = value.to_lowercase();
        let pattern: String = match self {
            TextMatcher::Exact(expected) => expected.to_lowercase(),
            TextMatcher::Contains(needle) => needle.to_lowercase(),
            TextMatcher::Prefix(prefix) => prefix.to_lowercase(),
            TextMatcher::Suffix(suffix) => suffix.to_lowercase(),
        };
        self.matches_lowered(&lowered, &pattern)
    }
}

/// The conditions of a rule; what is not set does not count.
#[derive(Debug, Clone, PartialEq, Eq)]
pub struct WindowRuleMatch {
    pub class_name: Option<TextMatcher>,
    pub title: Option<TextMatcher>,
    pub executable_path: Option<TextMatcher>,
    pub process_name: Option<TextMatcher>,
}

impl Default for WindowRuleMatch {
    fn default() -> (r: Self)
        ensures
            r.sets_nothing(),
    {
        WindowRuleMatch { class_name: None, title: None, executable_path: None, process_name: None }
    }
}

impl WindowRuleMatch {
    /// Whether no condition is set.
    pub open spec fn sets_nothing(self) -> bool {
        self.class_name is None && self.title is None && self.executable_path is None
            && self.process_name is None
    }

    /// Whether the window meets every condition that is set. A window whose executable is not known
    /// meets no condition on it.
    pub open spec fn accepts(self, window: WindowInfo) -> bool {
        &&& self.class_name matches Some(matcher) ==> matcher.accepts(window.class_name@)
        &&& self.title matches Some(matcher) ==> matcher.accepts(window.title@)
        &&& self.executable_path matches Some(matcher) ==> match window.executable_path {
            Some(path) => matcher.accepts(path@),
            None => false,
        }
        &&& self.process_name matches Some(matcher) ==> match window.executable_path {
            Some(path) => match file_name(path@) {
                Some(name) => matcher.accepts(name),
                None => false,
            },
            None => false,
        }
    }

    /// Whether the window meets every condition that is set.
    pub fn matches(&self, window: &WindowInfo) -> (r: bool)
        ensures
            r == self.accepts(*window),
    {
        if let Some(matcher) = &self.class_name {
            if !matcher.matches(&window.class_name) {
                return false;
            }
        }
        if let Some(matcher) = &self.title {
            if !matcher.matches(&window.title) {
                return false;
            }
        }
        if let Some(matcher) = &self.executable_path {
            match &window.executable_path {
                Some(path) => {
                    if !matcher.matches(path) {
                        return false;
                    }
                },
                None => {
                    return false;
                },
            }
        }
        if let Some(matcher) = &self.process_name {
            match &window.executable_path {
                Some(path) => {
                    match process_name(path) {
                        Some(name) => {
                            if !matcher.matches(&name) {
                                return false;
                            }
                        },
                        None => {
                            return false;
                        },
                    }
                },
                None => {
                    return false;
                },
            }
        }
        true
    }

    /// Whether no condition is set.
    pub fn is_empty(&self) -> (r: bool)
        ensures
            r == self.sets_nothing(),
    {
        self.class_name.is_none() && self.title.is_none() && self.executable_path.is_none()
            && self.process_name.is_none()
    }
}

/// A special treatment of a window: it is left alone, as a window of no interest, as a game, or as one
/// that takes a whole monitor.
#[derive(Debug, Clone, Copy, PartialEq, Eq, Structural)]
pub enum WindowRuleMode {
    Ignore,
    Game,
    Fullscreen,
}

/// What a rule sets.
#[derive(Debug, Clone, PartialEq, Eq)]
pub struct WindowRuleAction {
    pub manage: Option<bool>,
    pub float: Option<bool>,
    pub target_workspace: Option<WorkspaceId>,
    pub always_on_workspace: Option<bool>,
    pub layout: Option<String>,
    pub mode: Option<WindowRuleMode>,
}

impl Default for WindowRuleAction {
    fn default() -> (r: Self)
        ensures
            r.manage is None,
            r.float is None,
            r.target_workspace is None,
            r.always_on_workspace is None,
            r.layout is None,
            r.mode is None,
    {
        WindowRuleAction {
            manage: None,
            float: None,
            target_workspace: None,
            always_on_workspace: None,
            layout: None,
            mode: None,
        }
    }
}

/// A rule.
#[derive(Debug, Clone, PartialEq, Eq)]
pub struct WindowRule {
    pub name: String,
    pub matcher: WindowRuleMatch,
    pub action: WindowRuleAction,
}

/// What the rules that match a window set together.
#[derive(Debug, Clone, PartialEq, Eq)]
pub struct WindowRuleDecision {
    pub manage: Option<bool>,
    pub float: Option<bool>,
    pub target_workspace: Option<WorkspaceId>,
    pub always_on_workspace: Option<bool>,
    pub layout: Option<String>,
    pub mode: Option<WindowRuleMode>,
    pub matched_rules: Vec<String>,
}

/// What rules set, as a value.
pub ghost struct DecisionView {
    pub manage: Option<bool>,
    pub float: Option<bool>,
    pub target_workspace: Option<WorkspaceId>,
    pub always_on_workspace: Option<bool>,
    pub layout: Option<Seq<char>>,
    pub mode: Option<WindowRuleMode>,
    pub matched_rules: Seq<Seq<char>>,
}

/// The later setting where there is one, or else the earlier.
pub open spec fn overridden<T>(earlier: Option<T>, later: Option<T>) -> Option<T> {
    if later is Some {
        later
    } else {
        earlier
    }
}

/// An optional text as a value.
pub open spec fn text_view(text: Option<String>) -> Option<Seq<char>> {
    match text {
        Some(text) => Some(text@),
        None => None,
    }
}

impl DecisionView {
    /// Nothing set.
    pub open spec fn nothing() -> DecisionView {
        DecisionView {
            manage: None,
            float: None,
            target_workspace: None,
            always_on_workspace: None,
            layout: None,
            mode: None,
            matched_rules: Seq::empty(),
        }
    }

    /// The decision after an action: what the action sets overrides what was set.
    pub open spec fn merged(self, action: WindowRuleAction) -> DecisionView {
        DecisionView {
            manage: overridden(self.manage, action.manage),
            float: overridden(self.float, action.float),
            target_workspace: overridden(self.target_workspace, action.target_workspace),
            always_on_workspace: overridden(self.always_on_workspace, action.always_on_workspace),
            layout: overridden(self.layout, text_view(action.layout)),
            mode: overridden(self.mode, action.mode),
            matched_rules: self.matched_rules,
        }
    }
}

impl View for WindowRuleDecision {
    type V = DecisionView;

    open spec fn view(&self) -> DecisionView {
        DecisionView {
            manage: self.manage,
            float: self.float,
            target_workspace: self.target_workspace,
            always_on_workspace: self.always_on_workspace,
            layout: text_view(self.layout),
            mode: self.mode,
            matched_rules: self.matched_rules@.map_values(|name: String| name@),
        }
    }
}

/// What the rules decide for a window: the rules that match it, from first to last, are noted by
/// name and override what earlier ones set.
pub open spec fn decided(window: WindowInfo, rules: Seq<WindowRule>) -> DecisionView
    decreases rules.len(),
{
    if rules.len() == 0 {
        DecisionView::nothing()
    } else {
        let before = decided(window, rules.drop_last());
        let rule = rules.last();
        if rule.matcher.accepts(window) {
            let merged = before.merged(rule.action);
            DecisionView { matched_rules: merged.matched_rules.push(rule.name@), ..merged }
        } else {
            before
        }
    }
}

impl Default for WindowRuleDecision {
    fn default() -> (r: Self)
        ensures
            r@ == DecisionView::nothing(),
    {
        let r = WindowRuleDecision {
            manage: None,
            float: None,
            target_workspace: None,
            always_on_workspace: None,
            layout: None,
            mode: None,
            matched_rules: Vec::new(),
        };
        proof {
            assert(r@.matched_rules =~= Seq::empty());
        }
        r
    }
}

/// Lets what an action sets override what was set.
pub fn merge_rule_action(decision: &mut WindowRuleDecision, action: &WindowRuleAction)
    ensures
        final(decision)@ == old(decision)@.merged(*action),
{
    if action.manage.is_some() {
        decision.manage = action.manage;
    }
    if action.float.is_some() {
        decision.float = action.float;
    }
    if action.target_workspace.is_some() {
        decision.target_workspace = action.target_workspace;
    }
    if action.always_on_workspace.is_some() {
        decision.always_on_workspace = action.always_on_workspace;
    }
    if let Some(layout) = &action.layout {
        decision.layout = Some(layout.clone());
    }
    if action.mode.is_some() {
        decision.mode = action.mode;
    }
}

/// Decides how a window is treated.
pub fn evaluate_window_rules(window: &WindowInfo, rules: &[WindowRule]) -> (r: WindowRuleDecision)
    ensures
        r@ == decided(*window, rules@),
{
    let mut decision: WindowRuleDecision = WindowRuleDecision::default();
    let mut index: usize = 0;
    proof {
        assert(rules@.take(0) =~= Seq::empty());
    }
    while index < rules.len()
        invariant
            index <= rules.len(),
            decision@ == decided(*window, rules@.take(index as int)),
        decreases rules.len() - index,
    {
        proof {
            assert(rules@.take(index + 1).drop_last() =~= rules@.take(index as int));
            assert(rules@.take(index + 1).last() == rules@[index as int]);
        }
        let rule: &WindowRule = &rules[index];
        if rule.matcher.matches(window) {
            let ghost before = decision@;
            decision.matched_rules.push(rule.name.clone());
            proof {
                assert(decision@.matched_rules =~= before.matched_rules.push(rule.name@));
            }
            merge_rule_action(&mut decision, &rule.action);
        }
        index = index + 1;
    }
    proof {
        assert(rules@.take(index as int) =~= rules@);
    }
    decision
}

/// A later rule that matches overrides what it sets and leaves the rest; a rule that does not match
/// changes nothing.
pub proof fn later_rules_override(window: WindowInfo, rules: Seq<WindowRule>, rule: WindowRule)
    ensures
        ({
            let before = decided(window, rules);
            let after = decided(window, rules.push(rule));
            &&& !rule.matcher.accepts(window) ==> after == before
            &&& rule.matcher.accepts(window) ==> {
                &&& after.manage == overridden(before.manage, rule.action.manage)
                &&& after.float == overridden(before.float, rule.action.float)
                &&& after.target_workspace == overridden(
                    before.target_workspace,
                    rule.action.target_workspace,
                )
                &&& after.always_on_workspace == overridden(
                    before.always_on_workspace,
                    rule.action.always_on_workspace,
                )
                &&& after.layout == overridden(before.layout, text_view(rule.action.layout))
                &&& after.mode == overridden(before.mode, rule.action.mode)
                &&& after.matched_rules == before.matched_rules.push(rule.name@)
            }
        }),
{
    assert(rules.push(rule).drop_last() =~= rules);
}

/// A rule without conditions matches every window.
pub proof fn rule_without_conditions_matches(matcher: WindowRuleMatch, window: WindowInfo)
    requires
        matcher.sets_nothing(),
    ensures
        matcher.accepts(window),
{
}

} // verus!
