//! The splits that are remembered for each workspace on each monitor.

use vstd::prelude::*;

use crate::dwindle::DwindleSplit;
use crate::geometry::MonitorId;
use crate::workspace::WorkspaceId;

verus! {

/// Remembered splits, by workspace and monitor.
#[derive(Debug, Clone, PartialEq, Eq)]
pub struct SplitMemory {
    entries: Vec<(WorkspaceId, MonitorId, Vec<DwindleSplit>)>,
}

/// Whether an entry is for the workspace on the monitor.
pub open spec fn is_for(entry: (WorkspaceId, MonitorId, Vec<DwindleSplit>), key: (u16, u64)) -> bool {
    entry.0.0 == key.0 && entry.1.0 == key.1
}

/// Whether there is an entry for the workspace on the monitor.
spec fn has_entry(entries: Seq<(WorkspaceId, MonitorId, Vec<DwindleSplit>)>, key: (u16, u64)) -> bool {
    exists|i: int| 0 <= i < entries.len() && is_for(#[trigger] entries[i], key)
}

/// Where the entry for the workspace on the monitor stands.
spec fn entry_at(entries: Seq<(WorkspaceId, MonitorId, Vec<DwindleSplit>)>, key: (u16, u64)) -> int {
    choose|i: int| 0 <= i < entries.len() && is_for(#[trigger] entries[i], key)
}

/// The splits remembered under a key, none if there is no entry.
pub open spec fn remembered(map: Map<(u16, u64), Seq<DwindleSplit>>, key: (u16, u64)) -> Seq<
    DwindleSplit,
> {
    if map.contains_key(key) {
        map[key]
    } else {
        Seq::empty()
    }
}

impl View for SplitMemory {
    type V = Map<(u16, u64), Seq<DwindleSplit>>;

    closed spec fn view(&self) -> Map<(u16, u64), Seq<DwindleSplit>> {
        Map::new(
            |key: (u16, u64)| has_entry(self.entries@, key),
            |key: (u16, u64)| self.entries@[entry_at(self.entries@, key)].2@,
        )
    }
}

impl SplitMemory {
    /// Whether no two entries are for the same workspace on the same monitor.
    pub closed spec fn wf(&self) -> bool {
        forall|i: int, j: int|
            0 <= i < j < self.entries@.len() ==> !(#[trigger] self.entries@[i].0
                == #[trigger] self.entries@[j].0 && self.entries@[i].1 == self.entries@[j].1)
    }

    /// Nothing remembered.
    pub fn new() -> (r: SplitMemory)
        ensures
            r.wf(),
            r@ == Map::<(u16, u64), Seq<DwindleSplit>>::empty(),
    {
        let r = SplitMemory { entries: Vec::new() };
        proof {
            assert(r@ =~= Map::<(u16, u64), Seq<DwindleSplit>>::empty());
        }
        r
    }

    fn place(&self, workspace: WorkspaceId, monitor: MonitorId) -> (r: Option<usize>)
        requires
            self.wf(),
        ensures
            match r {
                Some(at) => {
                    &&& at < self.entries.len()
                    &&& self.entries@[at as int].0 == workspace
                    &&& self.entries@[at as int].1 == monitor
                    &&& self@.contains_key((workspace.0, monitor.0))
                    &&& self@[(workspace.0, monitor.0)] == self.entries@[at as int].2@
                },
                None => !self@.contains_key((workspace.0, monitor.0)),
            },
    {
        let ghost key = (workspace.0, monitor.0);
        let mut index: usize = 0;
        while index < self.entries.len()
            invariant
                index <= self.entries.len(),
                self.wf(),
                key == (workspace.0, monitor.0),
                forall|i: int| 0 <= i < index ==> !is_for(#[trigger] self.entries@[i], key),
            decreases self.entries.len() - index,
        {
            if self.entries[index].0 == workspace && self.entries[index].1 == monitor {
                proof {
                    assert(is_for(self.entries@[index as int], key));
                    let at = entry_at(self.entries@, key);
                    if at < index {
                        assert(false);
                    } else if at > index {
                        assert(self.entries@[index as int].0 == self.entries@[at].0);
                    }
                }
                return Some(index);
            }
            index = index + 1;
        }
        None
    }

    /// The splits remembered for a workspace on a monitor, none if nothing is.
    pub fn get(&self, workspace: WorkspaceId, monitor: MonitorId) -> (r: Vec<DwindleSplit>)
        requires
            self.wf(),
        ensures
            r@ == remembered(self@, (workspace.0, monitor.0)),
    {
        match self.place(workspace, monitor) {
            Some(at) => self.entries[at].2.clone(),
            None => Vec::new(),
        }
    }

    /// Whether something is remembered for a workspace on a monitor.
    pub fn contains_key(&self, workspace: WorkspaceId, monitor: MonitorId) -> (r: bool)
        requires
            self.wf(),
        ensures
            r == self@.contains_key((workspace.0, monitor.0)),
    {
        self.place(workspace, monitor).is_some()
    }

    /// Remembers splits for a workspace on a monitor.
    pub fn insert(&mut self, workspace: WorkspaceId, monitor: MonitorId, splits: Vec<DwindleSplit>)
        requires
            old(self).wf(),
        ensures
            final(self).wf(),
            final(self)@ == old(self)@.insert((workspace.0, monitor.0), splits@),
    {
        let ghost key = (workspace.0, monitor.0);
        let ghost before = self.entries@;
        match self.place(workspace, monitor) {
            Some(at) => {
                self.entries.set(at, (workspace, monitor, splits));
                proof {
                    let after = self.entries@;
                    assert(after =~= before.update(at as int, (workspace, monitor, splits)));
                    assert forall|i: int, j: int| 0 <= i < j < after.len() implies !(
                    #[trigger] after[i].0 == #[trigger] after[j].0 && after[i].1 == after[j].1) by {
                        assert(before[i].0 != before[j].0 || before[i].1 != before[j].1);
                    }
                    lemma_changed(before, after, at as int, key);
                }
            },
            None => {
                self.entries.push((workspace, monitor, splits));
                proof {
                    let after = self.entries@;
                    assert(after =~= before.push((workspace, monitor, splits)));
                    assert forall|i: int, j: int| 0 <= i < j < after.len() implies !(
                    #[trigger] after[i].0 == #[trigger] after[j].0 && after[i].1 == after[j].1) by {
                        if j == before.len() {
                            if after[i].0 == after[j].0 && after[i].1 == after[j].1 {
                                assert(is_for(before[i], key));
                                assert(has_entry(before, key));
                            }
                        } else {
                            assert(before[i].0 != before[j].0 || before[i].1 != before[j].1);
                        }
                    }
                    assert(self.wf());
                    assert forall|k: (u16, u64)|
                        has_entry(after, k) == (k == key || has_entry(before, k)) by {
                        if has_entry(before, k) {
                            let i = entry_at(before, k);
                            assert(is_for(after[i], k));
                        }
                        assert(is_for(after[before.len() as int], key));
                        if has_entry(after, k) && k != key {
                            let i = entry_at(after, k);
                            assert(is_for(before[i], k));
                        }
                    }
                    assert forall|k: (u16, u64)| #[trigger]
                        has_entry(before, k) implies after[entry_at(after, k)]
                        == before[entry_at(before, k)] by {
                        let i = entry_at(before, k);
                        assert(is_for(after[i], k));
                        let j = entry_at(after, k);
                        if i < j {
                            assert(after[i].0 != after[j].0 || after[i].1 != after[j].1);
                        } else if j < i {
                            assert(after[j].0 != after[i].0 || after[j].1 != after[i].1);
                        }
                    }
                    let j = entry_at(after, key);
                    assert(is_for(after[before.len() as int], key));
                    if j < before.len() {
                        assert(is_for(before[j], key));
                        assert(has_entry(before, key));
                    }
                    assert(self@ =~= old(self)@.insert(key, splits@));
                }
            },
        }
    }

    /// Forgets the splits of a workspace on a monitor.
    pub fn remove(&mut self, workspace: WorkspaceId, monitor: MonitorId)
        requires
            old(self).wf(),
        ensures
            final(self).wf(),
            final(self)@ == old(self)@.remove((workspace.0, monitor.0)),
    {
        let ghost key = (workspace.0, monitor.0);
        let ghost before = self.entries@;
        match self.place(workspace, monitor) {
            Some(at) => {
                self.entries.remove(at);
                proof {
                    let after = self.entries@;
                    assert(after =~= before.remove(at as int));
                    assert forall|i: int, j: int| 0 <= i < j < after.len() implies !(
                    #[trigger] after[i].0 == #[trigger] after[j].0 && after[i].1 == after[j].1) by {
                        let a = if i < at {
                            i
                        } else {
                            i + 1
                        };
                        let b = if j < at {
                            j
                        } else {
                            j + 1
                        };
                        assert(before[a].0 != before[b].0 || before[a].1 != before[b].1);
                    }
                    assert(self.wf());
                    assert forall|k: (u16, u64)|
                        has_entry(after, k) == (k != key && has_entry(before, k)) by {
                        if has_entry(before, k) && k != key {
                            let i = entry_at(before, k);
                            let a = if i < at {
                                i
                            } else {
                                i - 1
                            };
                            assert(is_for(after[a], k));
                        }
                        if has_entry(after, k) {
                            let i = entry_at(after, k);
                            let a = if i < at {
                                i
                            } else {
                                i + 1
                            };
                            assert(is_for(before[a], k));
                            if k == key {
                                assert(before[a].0 == before[at as int].0);
                                if a < at {
                                    assert(before[a].0 != before[at as int].0 || before[a].1
                                        != before[at as int].1);
                                } else {
                                    assert(before[at as int].0 != before[a].0 || before[at as int].1
                                        != before[a].1);
                                }
                            }
                        }
                    }
                    assert forall|k: (u16, u64)|
                        k != key && #[trigger] has_entry(before, k) implies after[entry_at(after, k)]
                        == before[entry_at(before, k)] by {
                        let i = entry_at(before, k);
                        let a = if i < at {
                            i
                        } else {
                            i - 1
                        };
                        assert(is_for(after[a], k));
                        let j = entry_at(after, k);
                        if a < j {
                            assert(after[a].0 != after[j].0 || after[a].1 != after[j].1);
                        } else if j < a {
                            assert(after[j].0 != after[a].0 || after[j].1 != after[a].1);
                        }
                    }
                    assert(self@ =~= old(self)@.remove(key));
                }
            },
            None => {
                proof {
                    assert(self@ =~= old(self)@.remove(key));
                }
            },
        }
    }

    /// Forgets everything.
    pub fn clear(&mut self)
        ensures
            final(self).wf(),
            final(self)@ == Map::<(u16, u64), Seq<DwindleSplit>>::empty(),
    {
        self.entries.clear();
        proof {
            assert(self@ =~= Map::<(u16, u64), Seq<DwindleSplit>>::empty());
        }
    }

    /// The same memory once more.
    pub fn copy(&self) -> (r: SplitMemory)
        requires
            self.wf(),
        ensures
            r.wf(),
            r@ == self@,
    {
        let mut entries: Vec<(WorkspaceId, MonitorId, Vec<DwindleSplit>)> = Vec::new();
        let mut index: usize = 0;
        while index < self.entries.len()
            invariant
                index <= self.entries.len(),
                entries.len() == index,
                forall|i: int|
                    0 <= i < index ==> (#[trigger] entries@[i]).0 == self.entries@[i].0
                        && entries@[i].1 == self.entries@[i].1 && entries@[i].2@
                        == self.entries@[i].2@,
            decreases self.entries.len() - index,
        {
            let entry: &(WorkspaceId, MonitorId, Vec<DwindleSplit>) = &self.entries[index];
            entries.push((entry.0, entry.1, entry.2.clone()));
            index = index + 1;
        }
        let r = SplitMemory { entries };
        proof {
            assert forall|i: int, j: int| 0 <= i < j < entries@.len() implies !(
            #[trigger] entries@[i].0 == #[trigger] entries@[j].0 && entries@[i].1 == entries@[j].1) by {
                assert(self.entries@[i].0 != self.entries@[j].0 || self.entries@[i].1
                    != self.entries@[j].1);
            }
            assert forall|k: (u16, u64)| has_entry(entries@, k) == has_entry(self.entries@, k) by {
                if has_entry(entries@, k) {
                    let i = entry_at(entries@, k);
                    assert(is_for(self.entries@[i], k));
                }
                if has_entry(self.entries@, k) {
                    let i = entry_at(self.entries@, k);
                    assert(is_for(entries@[i], k));
                }
            }
            assert forall|k: (u16, u64)| #[trigger] has_entry(self.entries@, k) implies entries@[entry_at(
                entries@,
                k,
            )].2@ == self.entries@[entry_at(self.entries@, k)].2@ by {
                let i = entry_at(self.entries@, k);
                assert(is_for(entries@[i], k));
                let j = entry_at(entries@, k);
                if i < j {
                    assert(entries@[i].0 != entries@[j].0 || entries@[i].1 != entries@[j].1);
                } else if j < i {
                    assert(entries@[j].0 != entries@[i].0 || entries@[j].1 != entries@[i].1);
                }
            }
            assert(r@ =~= self@);
        }
        r
    }
}

proof fn lemma_changed(
    before: Seq<(WorkspaceId, MonitorId, Vec<DwindleSplit>)>,
    after: Seq<(WorkspaceId, MonitorId, Vec<DwindleSplit>)>,
    at: int,
    key: (u16, u64),
)
    requires
        0 <= at < before.len(),
        is_for(before[at], key),
        is_for(after[at], key),
        after == before.update(at, after[at]),
        forall|i: int, j: int|
            0 <= i < j < before.len() ==> !(#[trigger] before[i].0 == #[trigger] before[j].0
                && before[i].1 == before[j].1),
    ensures
        Map::new(
            |k: (u16, u64)| has_entry(after, k),
            |k: (u16, u64)| after[entry_at(after, k)].2@,
        ) == Map::new(
            |k: (u16, u64)| has_entry(before, k),
            |k: (u16, u64)| before[entry_at(before, k)].2@,
        ).insert(key, after[at].2@),
{
    assert forall|i: int, k: (u16, u64)| 0 <= i < before.len() implies #[trigger] is_for(after[i], k)
        == is_for(before[i], k) by {}
    assert forall|k: (u16, u64)| has_entry(after, k) == has_entry(before, k) by {
        if has_entry(before, k) {
            let i = entry_at(before, k);
            assert(is_for(after[i], k));
        }
        if has_entry(after, k) {
            let i = entry_at(after, k);
            assert(is_for(before[i], k));
        }
    }
    assert forall|k: (u16, u64)| #[trigger] has_entry(before, k) implies entry_at(after, k)
        == entry_at(before, k) by {
        let i = entry_at(before, k);
        assert(is_for(after[i], k));
        let j = entry_at(after, k);
        assert(is_for(before[j], k));
        if i < j {
            assert(before[i].0 != before[j].0 || before[i].1 != before[j].1);
        } else if j < i {
            assert(before[j].0 != before[i].0 || before[j].1 != before[i].1);
        }
    }
    assert(has_entry(before, key));
    let i = entry_at(before, key);
    if i < at {
        assert(before[i].0 != before[at].0 || before[i].1 != before[at].1);
    } else if at < i {
        assert(before[at].0 != before[i].0 || before[at].1 != before[i].1);
    }
    assert(Map::new(
        |k: (u16, u64)| has_entry(after, k),
        |k: (u16, u64)| after[entry_at(after, k)].2@,
    ) =~= Map::new(
        |k: (u16, u64)| has_entry(before, k),
        |k: (u16, u64)| before[entry_at(before, k)].2@,
    ).insert(key, after[at].2@));
}

} // verus!
