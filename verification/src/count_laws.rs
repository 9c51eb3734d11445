//! What is counted, and what is left out at the ends of messages and command lines.

use vstd::prelude::*;

use crate::daemon_reload::RuleReloadStats;
use crate::daemon_state::DaemonView;
use crate::geometry::{MonitorInfo, WindowHandle};
use crate::handles::{lemma_filter_holds, member_of, missing_from, ordered_handles};
use crate::ipc::{trimmed_bytes, DaemonStateSnapshot};
use crate::layout::WindowParticipation;
use crate::shell::{ascii_lowercase, starts_winland};
use crate::text::stands_at;

verus! {

/// A command line starts this shell, too, if it names the daemon and asks it to be the shell, without regard
/// to the case of the letters.
pub proof fn daemon_that_is_to_be_the_shell_is_the_shell(
    before: Seq<char>,
    daemon: Seq<char>,
    between: Seq<char>,
    mode: Seq<char>,
    after: Seq<char>,
)
    requires
        ascii_lowercase(daemon) == "winland-daemon"@,
        ascii_lowercase(mode) == "--shell-mode"@,
    ensures
        starts_winland(before + daemon + between + mode + after),
{
    let line = before + daemon + between + mode + after;
    let lower = ascii_lowercase(line);
    let at = before.len() as int;
    assert(lower.subrange(at, at + daemon.len()) =~= ascii_lowercase(daemon));
    assert(stands_at(lower, "winland-daemon"@, at));
    let there = (before + daemon + between).len() as int;
    assert(lower.subrange(there, there + mode.len()) =~= ascii_lowercase(mode));
    assert(stands_at(lower, "--shell-mode"@, there));
}

/// White space at the end of a message is left out: tabs, ends of lines, form feeds and spaces. Anything
/// else is the end of the message.
pub proof fn white_space_ends_no_message(bytes: Seq<u8>, byte: u8)
    ensures
        byte == 0x09 || byte == 0x0A || byte == 0x0C || byte == 0x0D || byte == 0x20 ==> trimmed_bytes(
            bytes.push(byte),
        ) == trimmed_bytes(bytes),
        byte != 0x09 && byte != 0x0A && byte != 0x0C && byte != 0x0D && byte != 0x20 ==> trimmed_bytes(
            bytes.push(byte),
        ) == bytes.push(byte),
        trimmed_bytes(Seq::empty()).len() == 0,
{
    assert(bytes.push(byte).drop_last() =~= bytes);
    assert(bytes.push(byte).last() == byte);
}

proof fn lemma_some_are_kept(list: Seq<WindowHandle>, keep: spec_fn(WindowHandle) -> bool, window: WindowHandle)
    requires
        list.contains(window),
    ensures
        keep(window) ==> list.filter(keep).len() > 0,
        (forall|other: WindowHandle| list.contains(other) ==> !#[trigger] keep(other)) ==> list.filter(
            keep,
        ).len() == 0,
{
    lemma_filter_holds(list, keep, window);
    if (forall|other: WindowHandle| list.contains(other) ==> !#[trigger] keep(other)) && list.filter(
        keep,
    ).len() > 0 {
        let first = list.filter(keep)[0];
        assert(list.filter(keep).contains(first));
        lemma_filter_holds(list, keep, first);
        assert(!keep(first));
    }
}

/// The windows that float are counted apart by whether they float for good or for a while, and none is
/// counted that does not; the windows that are managed are those that nothing is against.
#[verifier::rlimit(50)]
pub proof fn windows_are_counted_by_kind(
    state: DaemonView,
    monitors: Seq<MonitorInfo>,
    told: DaemonStateSnapshot,
    window: WindowHandle,
)
    requires
        state.tells(monitors, told),
    ensures
        ({
            let floating = ordered_handles(state.participation);
            let for_good = |other: WindowHandle|
                state.participation[other.0] == WindowParticipation::Floating;
            let for_a_while = |other: WindowHandle|
                state.participation[other.0] == WindowParticipation::TemporarilyFloating;
            &&& told.floating_windows == floating.filter(for_good).len()
            &&& told.temporary_floating_windows == floating.filter(for_a_while).len()
            &&& floating.contains(window) && for_good(window) ==> told.floating_windows > 0
            &&& floating.contains(window) && for_a_while(window) ==> told.temporary_floating_windows > 0
            &&& floating.contains(window) && (forall|other: WindowHandle|
                floating.contains(other) ==> !#[trigger] for_good(other)) ==> told.floating_windows == 0
        }),
        ({
            let all = ordered_handles(state.windows);
            let managed = |other: WindowHandle| state.managed(state.windows[other.0]);
            &&& told.manageable_windows == all.filter(managed).len()
            &&& all.contains(window) && managed(window) ==> told.manageable_windows > 0
            &&& all.contains(window) && (forall|other: WindowHandle|
                all.contains(other) ==> !#[trigger] managed(other)) ==> told.manageable_windows == 0
        }),
{
    let floating = ordered_handles(state.participation);
    let for_good = |other: WindowHandle|
        state.participation[other.0] == WindowParticipation::Floating;
    let for_a_while = |other: WindowHandle|
        state.participation[other.0] == WindowParticipation::TemporarilyFloating;
    assert(for_good =~= state.is_participating(WindowParticipation::Floating));
    assert(for_a_while =~= state.is_participating(WindowParticipation::TemporarilyFloating));
    let all = ordered_handles(state.windows);
    let managed = |other: WindowHandle| state.managed(state.windows[other.0]);
    assert(managed =~= state.is_managed_handle());
    if floating.contains(window) {
        lemma_some_are_kept(floating, for_good, window);
        lemma_some_are_kept(floating, for_a_while, window);
    }
    if all.contains(window) {
        lemma_some_are_kept(all, managed, window);
    }
}

/// What is counted when the rules are applied anew: a window that lost its workspace, one that was floated,
/// one that was tiled and one that came to the order of the tiles each count where they belong, and where
/// there is none, none is counted.
pub proof fn applied_rules_are_counted(
    state: DaemonView,
    monitors: Seq<MonitorInfo>,
    stats: RuleReloadStats,
    window: WindowHandle,
)
    requires
        state.rule_counts(monitors, stats),
        ordered_handles(state.windows).contains(window),
    ensures
        ({
            let all = ordered_handles(state.windows);
            let lost = state.loses_workspace(monitors);
            let floated = state.is_floated(monitors);
            let tiled = state.is_unfloated(monitors);
            &&& lost(window) ==> stats.untracked > 0
            &&& floated(window) ==> stats.set_floating > 0
            &&& tiled(window) ==> stats.set_tiled > 0
            &&& (forall|other: WindowHandle| all.contains(other) ==> !#[trigger] lost(other))
                ==> stats.untracked == 0
            &&& (forall|other: WindowHandle| all.contains(other) ==> !#[trigger] floated(other))
                ==> stats.set_floating == 0
            &&& (forall|other: WindowHandle| all.contains(other) ==> !#[trigger] tiled(other))
                ==> stats.set_tiled == 0
        }),
        ({
            let ruled = state.with_rules_on_all(ordered_handles(state.windows), monitors);
            &&& ruled.managed_handles().contains(window) && !ruled.tile_order.contains(window)
                ==> stats.added_to_tile_order > 0
            &&& ruled.tile_order.len() == 0 ==> stats.removed_from_tile_order == 0
        }),
{
    let all = ordered_handles(state.windows);
    lemma_some_are_kept(all, state.loses_workspace(monitors), window);
    lemma_some_are_kept(all, state.is_floated(monitors), window);
    lemma_some_are_kept(all, state.is_unfloated(monitors), window);
    let ruled = state.with_rules_on_all(all, monitors);
    let kept = ruled.tile_order.filter(member_of(ruled.managed_handles()));
    ruled.tile_order.lemma_filter_len(member_of(ruled.managed_handles()));
    lemma_filter_holds(ruled.tile_order, member_of(ruled.managed_handles()), window);
    lemma_filter_holds(ruled.managed_handles(), missing_from(kept), window);
}

} // verus!
