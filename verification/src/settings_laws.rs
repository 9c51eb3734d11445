//! Which settings of a layout hold where, and what is made of them.

use vstd::prelude::*;

use crate::geometry::MonitorInfo;
use crate::layout::{LayoutConfig, LayoutKind};
use crate::numeral::{handle_text, layout_names_are_distinct};
use crate::runtime_config::{layout_named, layout_on, overridden_layout, LayoutOverride};
use crate::workspace::WorkspaceId;

verus! {

/// Settings that are put in order keep the layout, raise gap and border to zero and the ratio to a tenth,
/// lower the ratio to nine tenths, keep every value that is in range, and keep splits where splits are
/// smart.
pub proof fn settings_are_put_in_order(config: LayoutConfig)
    ensures
        ({
            let normal = config.spec_normalized();
            &&& normal.kind == config.kind
            &&& config.gap >= 0 ==> normal.gap == config.gap
            &&& config.gap < 0 ==> normal.gap == 0
            &&& config.border >= 0 ==> normal.border == config.border
            &&& config.border < 0 ==> normal.border == 0
            &&& config.master_ratio_percent < 10 ==> normal.master_ratio_percent == 10
            &&& config.master_ratio_percent > 90 ==> normal.master_ratio_percent == 90
            &&& 10 <= config.master_ratio_percent <= 90 ==> normal.master_ratio_percent
                == config.master_ratio_percent
            &&& normal.smart_split == config.smart_split
            &&& config.smart_split ==> normal.preserve_split
            &&& !config.smart_split ==> normal.preserve_split == config.preserve_split
        }),
{
}

/// The layout that is set under a name is the first one with that name.
proof fn lemma_layout_named(layouts: Seq<(String, LayoutConfig)>, name: Seq<char>)
    ensures
        layout_named(layouts, name) is None <==> forall|i: int|
            0 <= i < layouts.len() ==> (#[trigger] layouts[i]).0@ != name,
        forall|at: int|
            0 <= at < layouts.len() && (#[trigger] layouts[at]).0@ == name && (forall|i: int|
                0 <= i < at ==> (#[trigger] layouts[i]).0@ != name) ==> layout_named(layouts, name)
                == Some(layouts[at].1),
    decreases layouts.len(),
{
    if layouts.len() > 0 {
        let rest = layouts.drop_last();
        lemma_layout_named(rest, name);
        assert(forall|i: int| 0 <= i < rest.len() ==> rest[i] == #[trigger] layouts[i]);
        assert(layouts.last() == layouts[layouts.len() - 1]);
        assert forall|at: int|
            0 <= at < layouts.len() && (#[trigger] layouts[at]).0@ == name && (forall|i: int|
                0 <= i < at ==> (#[trigger] layouts[i]).0@ != name) implies layout_named(layouts, name)
            == Some(layouts[at].1) by {
            if at < rest.len() {
                assert(rest[at].0@ == name);
                assert(forall|i: int| 0 <= i < at ==> (#[trigger] rest[i]).0@ != name);
            } else {
                assert(forall|i: int| 0 <= i < rest.len() ==> (#[trigger] rest[i]).0@ != name);
            }
        }
        if layout_named(layouts, name) is None {
            assert forall|i: int| 0 <= i < layouts.len() implies (#[trigger] layouts[i]).0@ != name by {
                if i < rest.len() {
                    assert(rest[i].0@ != name);
                }
            }
        }
    }
}

/// The layout that is set under the text of a monitor's identifier holds on that monitor, whatever else is
/// set: the first one where several are.
pub proof fn layout_of_the_monitor_comes_first(
    general: LayoutConfig,
    per_monitor: Seq<(String, LayoutConfig)>,
    per_workspace: Map<u64, LayoutConfig>,
    monitor: MonitorInfo,
    workspace: WorkspaceId,
    at: int,
)
    requires
        0 <= at < per_monitor.len(),
        per_monitor[at].0@ == handle_text(monitor.id.0),
        forall|i: int| 0 <= i < at ==> (#[trigger] per_monitor[i]).0@ != handle_text(monitor.id.0),
    ensures
        layout_on(general, per_monitor, per_workspace, monitor, workspace)
            == per_monitor[at].1.spec_normalized(),
{
    lemma_layout_named(per_monitor, handle_text(monitor.id.0));
}

/// On the primary monitor the layout that is set under `primary` comes next, before that of the workspace.
pub proof fn layout_of_the_primary_monitor_comes_second(
    general: LayoutConfig,
    per_monitor: Seq<(String, LayoutConfig)>,
    per_workspace: Map<u64, LayoutConfig>,
    monitor: MonitorInfo,
    workspace: WorkspaceId,
    at: int,
)
    requires
        monitor.is_primary,
        forall|i: int|
            0 <= i < per_monitor.len() ==> (#[trigger] per_monitor[i]).0@ != handle_text(monitor.id.0),
        0 <= at < per_monitor.len(),
        per_monitor[at].0@ == "primary"@,
        forall|i: int| 0 <= i < at ==> (#[trigger] per_monitor[i]).0@ != "primary"@,
    ensures
        layout_on(general, per_monitor, per_workspace, monitor, workspace)
            == per_monitor[at].1.spec_normalized(),
{
    lemma_layout_named(per_monitor, handle_text(monitor.id.0));
    lemma_layout_named(per_monitor, "primary"@);
}

/// Where nothing is set for the monitor, and nothing under `primary` either if it is the primary one, the
/// workspace has the layout that is set for it, on every monitor alike; and the general one if none is.
pub proof fn layout_of_the_workspace_comes_third(
    general: LayoutConfig,
    per_monitor: Seq<(String, LayoutConfig)>,
    per_workspace: Map<u64, LayoutConfig>,
    monitor: MonitorInfo,
    workspace: WorkspaceId,
)
    requires
        forall|i: int|
            0 <= i < per_monitor.len() ==> (#[trigger] per_monitor[i]).0@ != handle_text(monitor.id.0),
        monitor.is_primary ==> forall|i: int|
            0 <= i < per_monitor.len() ==> (#[trigger] per_monitor[i]).0@ != "primary"@,
    ensures
        per_workspace.contains_key(workspace.0 as u64) ==> layout_on(
            general,
            per_monitor,
            per_workspace,
            monitor,
            workspace,
        ) == per_workspace[workspace.0 as u64].spec_normalized(),
        !per_workspace.contains_key(workspace.0 as u64) ==> layout_on(
            general,
            per_monitor,
            per_workspace,
            monitor,
            workspace,
        ) == general.spec_normalized(),
{
    lemma_layout_named(per_monitor, handle_text(monitor.id.0));
    lemma_layout_named(per_monitor, "primary"@);
}

/// What is set over a layout replaces it, value by value, and what is not set stays; the result is put in
/// order. A name that no layout has sets nothing.
pub proof fn what_is_set_replaces_what_was(base: LayoutConfig, set: LayoutOverride)
    ensures
        ({
            let merged = overridden_layout(base, set);
            &&& set.layout is None ==> merged.kind == base.kind
            &&& set.layout matches Some(name) ==> {
                &&& name@ == "master-stack"@ ==> merged.kind == LayoutKind::MasterStack
                &&& name@ == "dwindle"@ ==> merged.kind == LayoutKind::Dwindle
                &&& name@ == "vertical-stack"@ ==> merged.kind == LayoutKind::VerticalStack
                &&& name@ == "horizontal-stack"@ ==> merged.kind == LayoutKind::HorizontalStack
                &&& name@ != "master-stack"@ && name@ != "dwindle"@ && name@ != "vertical-stack"@
                    && name@ != "horizontal-stack"@ ==> merged.kind == base.kind
            }
            &&& set.gap matches Some(gap) ==> merged.gap == gap
            &&& set.gap is None && base.gap >= 0 ==> merged.gap == base.gap
            &&& set.border matches Some(border) ==> merged.border == border
            &&& set.border is None && base.border >= 0 ==> merged.border == base.border
            &&& set.master_ratio_percent matches Some(ratio) ==> (10 <= ratio <= 90
                ==> merged.master_ratio_percent == ratio)
            &&& set.master_ratio_percent is None && 10 <= base.master_ratio_percent <= 90
                ==> merged.master_ratio_percent == base.master_ratio_percent
            &&& set.smart_split matches Some(smart) ==> merged.smart_split == smart
            &&& set.smart_split is None ==> merged.smart_split == base.smart_split
            &&& set.preserve_split matches Some(keep) ==> (!merged.smart_split ==> merged.preserve_split
                == keep)
            &&& set.preserve_split is None ==> (!merged.smart_split ==> merged.preserve_split
                == base.preserve_split)
            &&& merged.smart_split ==> merged.preserve_split
        }),
{
    if set.layout is Some {
        let name = set.layout.unwrap();
        if name@ == "master-stack"@ {
            lemma_named(name, LayoutKind::MasterStack);
        } else if name@ == "dwindle"@ {
            lemma_named(name, LayoutKind::Dwindle);
        } else if name@ == "vertical-stack"@ {
            lemma_named(name, LayoutKind::VerticalStack);
        } else if name@ == "horizontal-stack"@ {
            lemma_named(name, LayoutKind::HorizontalStack);
        } else {
            assert(forall|kind: LayoutKind| #[trigger] kind.spec_name() != name@);
        }
        layout_names_are_distinct(LayoutKind::MasterStack, LayoutKind::Dwindle);
        layout_names_are_distinct(LayoutKind::MasterStack, LayoutKind::VerticalStack);
        layout_names_are_distinct(LayoutKind::MasterStack, LayoutKind::HorizontalStack);
        layout_names_are_distinct(LayoutKind::Dwindle, LayoutKind::VerticalStack);
        layout_names_are_distinct(LayoutKind::Dwindle, LayoutKind::HorizontalStack);
        layout_names_are_distinct(LayoutKind::VerticalStack, LayoutKind::HorizontalStack);
    }
}

/// The layout with a name is the one that the name stands for.
proof fn lemma_named(name: String, kind: LayoutKind)
    requires
        kind.spec_name() == name@,
    ensures
        (choose|other: LayoutKind| #[trigger] other.spec_name() == name@) == kind,
{
    let chosen = choose|other: LayoutKind| #[trigger] other.spec_name() == name@;
    layout_names_are_distinct(chosen, kind);
}

} // verus!
