//! What window rules do: which texts and windows their conditions accept, and which rule has the last
//! word.

use vstd::prelude::*;

use crate::path_name::file_name;
use crate::rules::{decided, TextMatcher, WindowRule, WindowRuleMatch};
use crate::text::{lowercase, stands_at};
use crate::window::WindowInfo;

verus! {

/// Without regard to case, an exact condition accepts its pattern alone; a condition on the start
/// accepts the texts that are its pattern and something behind it, one on the end those that are
/// something and its pattern behind it, and one on a part those that are its pattern between two texts.
pub proof fn text_conditions_accept_what_they_say(pattern: String, value: Seq<char>)
    ensures
        TextMatcher::Exact(pattern).accepts(value) <==> lowercase(value) == lowercase(pattern@),
        TextMatcher::Prefix(pattern).accepts(value) <==> exists|rest: Seq<char>|
            lowercase(value) == #[trigger] (lowercase(pattern@) + rest),
        TextMatcher::Suffix(pattern).accepts(value) <==> exists|rest: Seq<char>|
            lowercase(value) == #[trigger] (rest + lowercase(pattern@)),
        TextMatcher::Contains(pattern).accepts(value) <==> exists|before: Seq<char>, after: Seq<char>|
            lowercase(value) == #[trigger] (before + lowercase(pattern@) + after),
{
    let text = lowercase(value);
    let part = lowercase(pattern@);
    if TextMatcher::Prefix(pattern).accepts(value) {
        assert(text =~= part + text.skip(part.len() as int));
    }
    assert forall|rest: Seq<char>| text == #[trigger] (part + rest) implies TextMatcher::Prefix(
        pattern,
    ).accepts(value) by {
        assert(text.subrange(0, part.len() as int) =~= part);
    }
    if TextMatcher::Suffix(pattern).accepts(value) {
        assert(text =~= text.take(text.len() - part.len()) + part);
    }
    assert forall|rest: Seq<char>| text == #[trigger] (rest + part) implies TextMatcher::Suffix(
        pattern,
    ).accepts(value) by {
        assert(text.subrange(text.len() - part.len(), text.len() as int) =~= part);
    }
    if TextMatcher::Contains(pattern).accepts(value) {
        let at = choose|at: int| #[trigger] stands_at(text, part, at);
        assert(text =~= text.take(at) + part + text.skip(at + part.len()));
    }
    assert forall|before: Seq<char>, after: Seq<char>|
        text == #[trigger] (before + part + after) implies TextMatcher::Contains(pattern).accepts(
        value,
    ) by {
        let at = before.len() as int;
        assert(text.subrange(at, at + part.len()) =~= part);
        assert(stands_at(text, part, at));
    }
}

/// A condition speaks of the text that it is set for: the class, the title, the path of the executable
/// or the name of its file. A window whose executable is not known meets no condition on it, and a rule
/// accepts a window exactly if each of its conditions does.
pub proof fn rule_conditions_speak_of_their_texts(matcher: WindowRuleMatch, window: WindowInfo)
    ensures
        matcher.accepts(window) ==> {
            &&& matcher.class_name matches Some(condition) ==> condition.accepts(window.class_name@)
            &&& matcher.title matches Some(condition) ==> condition.accepts(window.title@)
            &&& matcher.executable_path matches Some(condition) ==> (window.executable_path matches Some(
                path,
            ) && condition.accepts(path@))
            &&& matcher.process_name matches Some(condition) ==> (window.executable_path matches Some(
                path,
            ) && file_name(path@) matches Some(name) && condition.accepts(name))
        },
        !matcher.accepts(window) ==> {
            ||| matcher.class_name matches Some(condition) && !condition.accepts(window.class_name@)
            ||| matcher.title matches Some(condition) && !condition.accepts(window.title@)
            ||| matcher.executable_path matches Some(condition) && (window.executable_path matches Some(
                path,
            ) ==> !condition.accepts(path@))
            ||| matcher.process_name matches Some(condition) && (window.executable_path matches Some(
                path,
            ) ==> (file_name(path@) matches Some(name) ==> !condition.accepts(name)))
        },
{
}

/// Of the rules that match a window, the last one that sets something has the last word on it.
pub proof fn last_rule_has_the_last_word(window: WindowInfo, rules: Seq<WindowRule>, at: int)
    requires
        0 <= at < rules.len(),
        rules[at].matcher.accepts(window),
    ensures
        ({
            let action = rules[at].action;
            let result = decided(window, rules);
            let last = |sets: spec_fn(WindowRule) -> bool|
                forall|j: int|
                    at < j < rules.len() && (#[trigger] rules[j]).matcher.accepts(window) ==> !sets(
                        rules[j],
                    );
            &&& action.manage is Some && last(|rule: WindowRule| rule.action.manage is Some)
                ==> result.manage == action.manage
            &&& action.float is Some && last(|rule: WindowRule| rule.action.float is Some)
                ==> result.float == action.float
            &&& action.target_workspace is Some && last(
                |rule: WindowRule| rule.action.target_workspace is Some,
            ) ==> result.target_workspace == action.target_workspace
            &&& action.always_on_workspace is Some && last(
                |rule: WindowRule| rule.action.always_on_workspace is Some,
            ) ==> result.always_on_workspace == action.always_on_workspace
            &&& action.mode is Some && last(|rule: WindowRule| rule.action.mode is Some)
                ==> result.mode == action.mode
            &&& action.layout is Some && last(|rule: WindowRule| rule.action.layout is Some)
                ==> result.layout == Some(action.layout.unwrap()@)
        }),
    decreases rules.len(),
{
    let rest = rules.drop_last();
    if at < rules.len() - 1 {
        assert(rest[at] == rules[at]);
        last_rule_has_the_last_word(window, rest, at);
        assert forall|j: int| at < j < rest.len() implies #[trigger] rest[j] == rules[j] by {}
        let end = rules.len() - 1;
        assert(rules[end] == rules.last());
        let sets_manage = |rule: WindowRule| rule.action.manage is Some;
        let sets_float = |rule: WindowRule| rule.action.float is Some;
        let sets_workspace = |rule: WindowRule| rule.action.target_workspace is Some;
        let sets_always = |rule: WindowRule| rule.action.always_on_workspace is Some;
        let sets_mode = |rule: WindowRule| rule.action.mode is Some;
        let sets_layout = |rule: WindowRule| rule.action.layout is Some;
    }
}

/// What no rule that matches a window sets is not set, and the rules that match it are named in their
/// order.
pub proof fn rules_that_do_not_match_do_nothing(window: WindowInfo, rules: Seq<WindowRule>)
    ensures
        ({
            let result = decided(window, rules);
            let none = |sets: spec_fn(WindowRule) -> bool|
                forall|j: int|
                    0 <= j < rules.len() && (#[trigger] rules[j]).matcher.accepts(window) ==> !sets(
                        rules[j],
                    );
            &&& none(|rule: WindowRule| rule.action.manage is Some) ==> result.manage is None
            &&& none(|rule: WindowRule| rule.action.float is Some) ==> result.float is None
            &&& none(|rule: WindowRule| rule.action.target_workspace is Some)
                ==> result.target_workspace is None
            &&& none(|rule: WindowRule| rule.action.always_on_workspace is Some)
                ==> result.always_on_workspace is None
            &&& none(|rule: WindowRule| rule.action.mode is Some) ==> result.mode is None
            &&& none(|rule: WindowRule| rule.action.layout is Some) ==> result.layout is None
            &&& result.matched_rules == rules.filter(
                |rule: WindowRule| rule.matcher.accepts(window),
            ).map_values(|rule: WindowRule| rule.name@)
        }),
    decreases rules.len(),
{
    reveal(Seq::filter);
    let keep = |rule: WindowRule| rule.matcher.accepts(window);
    let name = |rule: WindowRule| rule.name@;
    if rules.len() == 0 {
        assert(rules.filter(keep).map_values(name) =~= Seq::empty());
    } else {
        let rest = rules.drop_last();
        rules_that_do_not_match_do_nothing(window, rest);
        assert forall|j: int| 0 <= j < rest.len() implies #[trigger] rest[j] == rules[j] by {}
        assert(rules[rules.len() - 1] == rules.last());
        if keep(rules.last()) {
            assert(rules.filter(keep).map_values(name) =~= rest.filter(keep).map_values(name).push(
                rules.last().name@,
            ));
        }
    }
}

} // verus!
