//! Lists of window handles.

use vstd::prelude::*;

use crate::geometry::WindowHandle;
use crate::sorted_map::{has_key, key_index, lemma_entry, ordered, SortedMap};

verus! {

/// Where `window` stands in `windows` at index `from` or later, the first time.
pub open spec fn position_from(windows: Seq<WindowHandle>, window: WindowHandle, from: int) -> Option<
    int,
>
    decreases windows.len() - from,
{
    if from >= windows.len() {
        None
    } else if windows[from] == window {
        Some(from)
    } else {
        position_from(windows, window, from + 1)
    }
}

/// Where `window` stands in `windows`, the first time.
pub open spec fn first_position(windows: Seq<WindowHandle>, window: WindowHandle) -> Option<int> {
    position_from(windows, window, 0)
}

/// What a first position says of the list.
pub proof fn lemma_position(windows: Seq<WindowHandle>, window: WindowHandle, from: int)
    requires
        0 <= from <= windows.len(),
    ensures
        match position_from(windows, window, from) {
            Some(i) => from <= i < windows.len() && windows[i] == window && forall|j: int|
                from <= j < i ==> windows[j] != window,
            None => forall|j: int| from <= j < windows.len() ==> windows[j] != window,
        },
    decreases windows.len() - from,
{
    if from < windows.len() && windows[from] != window {
        lemma_position(windows, window, from + 1);
    }
}

/// A first position is found by its properties.
pub proof fn lemma_position_is(windows: Seq<WindowHandle>, window: WindowHandle, at: int)
    requires
        0 <= at < windows.len(),
        windows[at] == window,
        forall|j: int| 0 <= j < at ==> windows[j] != window,
    ensures
        first_position(windows, window) == Some(at),
{
    lemma_position(windows, window, 0);
}

/// A window has a first position exactly when it is in the list.
pub proof fn lemma_position_exists(windows: Seq<WindowHandle>, window: WindowHandle)
    ensures
        first_position(windows, window) is Some <==> windows.contains(window),
{
    lemma_position(windows, window, 0);
}

/// Where `window` stands in `windows`, the first time.
pub fn position_of(windows: &[WindowHandle], window: WindowHandle) -> (r: Option<usize>)
    ensures
        match r {
            Some(i) => first_position(windows@, window) == Some(i as int),
            None => first_position(windows@, window) is None,
        },
        r is Some <==> windows@.contains(window),
        r matches Some(i) ==> i < windows.len() && windows@[i as int] == window,
{
    proof {
        lemma_position(windows@, window, 0);
    }
    let mut index: usize = 0;
    while index < windows.len()
        invariant
            index <= windows.len(),
            forall|j: int| 0 <= j < index ==> windows@[j] != window,
        decreases windows.len() - index,
    {
        if windows[index] == window {
            proof {
                lemma_position_is(windows@, window, index as int);
            }
            return Some(index);
        }
        index = index + 1;
    }
    proof {
        lemma_position(windows@, window, 0);
    }
    None
}

/// Whether `window` is in `windows`.
pub fn contains_handle(windows: &[WindowHandle], window: WindowHandle) -> (r: bool)
    ensures
        r == windows@.contains(window),
{
    position_of(windows, window).is_some()
}

/// The windows that a map holds something for, in ascending order of their handles.
pub open spec fn ordered_handles<V>(map: Map<u64, V>) -> Seq<WindowHandle> {
    ordered(map).map_values(|entry: (u64, V)| WindowHandle(entry.0))
}

/// The windows that a map holds something for, in ascending order of their handles.
pub fn handles_of<V>(map: &SortedMap<V>) -> (r: Vec<WindowHandle>)
    requires
        map.wf(),
    ensures
        r@ == ordered_handles(map@),
        forall|w: WindowHandle| #[trigger] r@.contains(w) <==> map@.contains_key(w.0),
        forall|i: int| 0 <= i < r@.len() ==> map@.contains_key((#[trigger] r@[i]).0),
        forall|i: int, j: int| 0 <= i < j < r@.len() ==> (#[trigger] r@[i]).0 < (#[trigger] r@[j]).0,
{
    let mut handles: Vec<WindowHandle> = Vec::new();
    let mut index: usize = 0;
    proof {
        map.lemma_view();
        map.lemma_ordered();
    }
    while index < map.len()
        invariant
            index <= map.entries().len(),
            map.entries() == ordered(map@),
            handles.len() == index,
            forall|i: int|
                0 <= i < index ==> #[trigger] handles[i] == WindowHandle(map.entries()[i].0),
        decreases map.entries().len() - index,
    {
        handles.push(WindowHandle(map.key_at(index)));
        index = index + 1;
    }
    proof {
        assert(handles@ =~= ordered_handles(map@));
        lemma_ordered_handles(map);
        assert forall|i: int| 0 <= i < handles@.len() implies map@.contains_key(
            (#[trigger] handles@[i]).0,
        ) by {
            assert(handles@.contains(handles@[i]));
        }
    }
    handles
}

/// The handles of a well-formed map ascend, and are those of its keys.
pub proof fn lemma_ordered_handles<V>(map: &SortedMap<V>)
    requires
        map.wf(),
    ensures
        forall|w: WindowHandle| #[trigger]
            ordered_handles(map@).contains(w) <==> map@.contains_key(w.0),
        forall|i: int, j: int|
            0 <= i < j < ordered_handles(map@).len() ==> (#[trigger] ordered_handles(map@)[i]).0 < (
            #[trigger] ordered_handles(map@)[j]).0,
{
    map.lemma_view();
    map.lemma_ordered();
    let handles = ordered_handles(map@);
    assert forall|w: WindowHandle| #[trigger] handles.contains(w) <==> map@.contains_key(w.0) by {
        if handles.contains(w) {
            let i = handles.index_of(w);
            lemma_entry(map.entries(), i);
        }
        if map@.contains_key(w.0) {
            assert(has_key(map.entries(), w.0));
            let i = key_index(map.entries(), w.0);
            lemma_entry(map.entries(), i);
            assert(handles[i] == w);
        }
    }
    assert forall|i: int, j: int| 0 <= i < j < handles.len() implies (#[trigger] handles[i]).0 < (
    #[trigger] handles[j]).0 by {
        assert(map.entries()[i].0 < map.entries()[j].0);
    }
}

/// What a filter keeps of a list that is one longer.
pub proof fn lemma_filter_step<A>(list: Seq<A>, index: int, keep: spec_fn(A) -> bool)
    requires
        0 <= index < list.len(),
    ensures
        list.take(index + 1).filter(keep) == if keep(list[index]) {
            list.take(index).filter(keep).push(list[index])
        } else {
            list.take(index).filter(keep)
        },
{
    reveal(Seq::filter);
    assert(list.take(index + 1).drop_last() =~= list.take(index));
    assert(list.take(index + 1).last() == list[index]);
}

/// A filter keeps nothing of nothing, and the whole list is its first part as long as it is.
pub proof fn lemma_filter_ends<A>(list: Seq<A>, keep: spec_fn(A) -> bool)
    ensures
        list.take(0).filter(keep) == Seq::<A>::empty(),
        list.take(list.len() as int) == list,
{
    reveal(Seq::filter);
    assert(list.take(0) =~= Seq::empty());
    assert(list.take(list.len() as int) =~= list);
}

/// What is in a list that is one longer.
pub proof fn lemma_contains_push<A>(list: Seq<A>, added: A)
    ensures
        forall|item: A| #[trigger] list.push(added).contains(item) <==> list.contains(item) || item == added,
{
    let longer = list.push(added);
    assert forall|item: A| #[trigger] longer.contains(item) <==> list.contains(item) || item == added by {
        if list.contains(item) {
            let i = list.index_of(item);
            assert(longer[i] == item);
        }
        assert(longer[list.len() as int] == added);
        if longer.contains(item) && item != added {
            let i = longer.index_of(item);
            assert(list[i] == item);
        }
    }
}

/// A filter that keeps less keeps no more items.
pub proof fn lemma_filter_within<A>(list: Seq<A>, keep: spec_fn(A) -> bool, wider: spec_fn(A) -> bool)
    requires
        forall|item: A| #[trigger] keep(item) ==> wider(item),
    ensures
        list.filter(keep).len() <= list.filter(wider).len(),
    decreases list.len(),
{
    reveal(Seq::filter);
    if list.len() > 0 {
        lemma_filter_within(list.drop_last(), keep, wider);
    }
}

/// Whether a window is another one.
pub open spec fn other_than(window: WindowHandle) -> spec_fn(WindowHandle) -> bool {
    |other: WindowHandle| other != window
}

/// A list of windows without one of them.
pub open spec fn without(windows: Seq<WindowHandle>, window: WindowHandle) -> Seq<WindowHandle> {
    windows.filter(other_than(window))
}

/// Taking a window out of a list that holds it makes the list shorter, and leaves the others.
pub proof fn lemma_without(windows: Seq<WindowHandle>, window: WindowHandle)
    ensures
        without(windows, window).len() <= windows.len(),
        windows.contains(window) ==> without(windows, window).len() < windows.len(),
        !windows.contains(window) ==> without(windows, window) == windows,
        !without(windows, window).contains(window),
        forall|other: WindowHandle|
            other != window ==> (#[trigger] without(windows, window).contains(other)
                <==> windows.contains(other)),
    decreases windows.len(),
{
    reveal(Seq::filter);
    if windows.len() > 0 {
        let rest = windows.drop_last();
        lemma_without(rest, window);
        assert(windows =~= rest.push(windows.last()));
        lemma_contains_push(rest, windows.last());
        lemma_contains_push(without(rest, window), windows.last());
        if !windows.contains(window) {
            assert(without(windows, window) =~= windows);
        }
    }
}

/// A list of windows without one of them.
pub fn handles_without(windows: &[WindowHandle], window: WindowHandle) -> (r: Vec<WindowHandle>)
    ensures
        r@ == without(windows@, window),
        r.len() <= windows.len(),
        windows@.contains(window) ==> r.len() < windows.len(),
{
    let mut kept: Vec<WindowHandle> = Vec::new();
    let mut index: usize = 0;
    proof {
        lemma_filter_ends(windows@, other_than(window));
        lemma_without(windows@, window);
    }
    while index < windows.len()
        invariant
            index <= windows.len(),
            kept@ == windows@.take(index as int).filter(other_than(window)),
        decreases windows.len() - index,
    {
        proof {
            lemma_filter_step(windows@, index as int, other_than(window));
        }
        if windows[index] != window {
            kept.push(windows[index]);
        }
        index = index + 1;
    }
    proof {
        lemma_filter_ends(windows@, other_than(window));
    }
    kept
}

/// The first item of a list that is to be kept.
pub open spec fn first_kept<A>(list: Seq<A>, keep: spec_fn(A) -> bool) -> Option<A>
    decreases list.len(),
{
    if list.len() == 0 {
        None
    } else {
        match first_kept(list.drop_last(), keep) {
            Some(item) => Some(item),
            None => if keep(list.last()) {
                Some(list.last())
            } else {
                None
            },
        }
    }
}

/// What `first_kept` finds: an item of the list that is to be kept, none before it being so.
pub proof fn lemma_first_kept<A>(list: Seq<A>, keep: spec_fn(A) -> bool)
    ensures
        match first_kept(list, keep) {
            Some(item) => keep(item) && exists|i: int|
                0 <= i < list.len() && #[trigger] list[i] == item && forall|j: int|
                    0 <= j < i ==> !keep(#[trigger] list[j]),
            None => forall|i: int| 0 <= i < list.len() ==> !keep(#[trigger] list[i]),
        },
    decreases list.len(),
{
    if list.len() > 0 {
        let rest = list.drop_last();
        lemma_first_kept(rest, keep);
        assert(forall|i: int| 0 <= i < rest.len() ==> #[trigger] list[i] == rest[i]);
        assert(list[list.len() - 1] == list.last());
        if first_kept(rest, keep) is Some {
            let item = first_kept(rest, keep).unwrap();
            let i = choose|i: int|
                0 <= i < rest.len() && #[trigger] rest[i] == item && forall|j: int|
                    0 <= j < i ==> !keep(#[trigger] rest[j]);
            assert(list[i] == item);
        }
    }
}

/// What `first_kept` finds in a list that is one longer.
pub proof fn lemma_first_kept_step<A>(list: Seq<A>, index: int, keep: spec_fn(A) -> bool)
    requires
        0 <= index < list.len(),
    ensures
        first_kept(list.take(index + 1), keep) == match first_kept(list.take(index), keep) {
            Some(item) => Some(item),
            None => if keep(list[index]) {
                Some(list[index])
            } else {
                None
            },
        },
{
    assert(list.take(index + 1).drop_last() =~= list.take(index));
    assert(list.take(index + 1).last() == list[index]);
}

/// The windows that are in a list.
pub open spec fn member_of(windows: Seq<WindowHandle>) -> spec_fn(WindowHandle) -> bool {
    |window: WindowHandle| windows.contains(window)
}

/// The windows that are not in a list.
pub open spec fn missing_from(windows: Seq<WindowHandle>) -> spec_fn(WindowHandle) -> bool {
    |window: WindowHandle| !windows.contains(window)
}

/// A list brought in line with the windows that there are: what is gone is left out, and what is
/// missing comes last.
pub open spec fn realigned(windows: Seq<WindowHandle>, all: Seq<WindowHandle>) -> Seq<WindowHandle> {
    let kept = windows.filter(member_of(all));
    kept + all.filter(missing_from(kept))
}

/// Whether handles are in strictly ascending order.
pub open spec fn ascending_handles(windows: Seq<WindowHandle>) -> bool {
    forall|i: int, j: int|
        0 <= i < j < windows.len() ==> (#[trigger] windows[i]).0 < (#[trigger] windows[j]).0
}

/// Brings a list in line with the windows that there are; says how many were left out and how many
/// were added.
pub fn realign_handles(windows: &[WindowHandle], all: &[WindowHandle]) -> (r: (
    Vec<WindowHandle>,
    usize,
    usize,
))
    requires
        ascending_handles(all@),
    ensures
        r.0@ == realigned(windows@, all@),
        r.1 == windows@.len() - windows@.filter(member_of(all@)).len(),
        r.2 == all@.filter(missing_from(windows@.filter(member_of(all@)))).len(),
{
    let ghost keep = member_of(all@);
    let mut kept: Vec<WindowHandle> = Vec::new();
    let mut index: usize = 0;
    proof {
        lemma_filter_ends(windows@, keep);
    }
    while index < windows.len()
        invariant
            index <= windows.len(),
            keep == member_of(all@),
            kept@ == windows@.take(index as int).filter(keep),
            kept.len() <= index,
        decreases windows.len() - index,
    {
        proof {
            lemma_filter_step(windows@, index as int, keep);
        }
        if contains_handle(all, windows[index]) {
            kept.push(windows[index]);
        }
        index = index + 1;
    }
    proof {
        lemma_filter_ends(windows@, keep);
    }
    let removed: usize = windows.len() - kept.len();
    let ghost held = kept@;
    let ghost missing = missing_from(held);
    let mut list: Vec<WindowHandle> = kept;
    let mut added: usize = 0;
    let mut place: usize = 0;
    proof {
        lemma_filter_ends(all@, missing);
        assert(list@ =~= held + all@.take(0).filter(missing));
    }
    while place < all.len()
        invariant
            place <= all.len(),
            ascending_handles(all@),
            missing == missing_from(held),
            list@ == held + all@.take(place as int).filter(missing),
            added == all@.take(place as int).filter(missing).len(),
            added <= place,
            forall|i: int|
                0 <= i < all@.take(place as int).filter(missing).len() ==> all@.take(
                    place as int,
                ).contains(#[trigger] all@.take(place as int).filter(missing)[i]),
        decreases all.len() - place,
    {
        let window: WindowHandle = all[place];
        let ghost before = all@.take(place as int).filter(missing);
        proof {
            lemma_filter_step(all@, place as int, missing);
            assert(!before.contains(window)) by {
                if before.contains(window) {
                    let i = before.index_of(window);
                    assert(all@.take(place as int).contains(before[i]));
                    let j = all@.take(place as int).index_of(window);
                    assert(all@[j].0 < all@[place as int].0);
                }
            }
            assert(list@.contains(window) <==> held.contains(window)) by {
                if held.contains(window) {
                    let i = held.index_of(window);
                    assert(list@[i] == window);
                }
                if list@.contains(window) {
                    let i = list@.index_of(window);
                    if i >= held.len() {
                        assert(before[i - held.len()] == window);
                    }
                }
            }
        }
        if !contains_handle(&list, window) {
            list.push(window);
            added = added + 1;
        }
        proof {
            let after = all@.take(place + 1).filter(missing);
            assert(list@ =~= held + after);
            assert forall|i: int| 0 <= i < after.len() implies all@.take(place + 1).contains(
                #[trigger] after[i],
            ) by {
                if i < before.len() {
                    let w = before[i];
                    assert(all@.take(place as int).contains(w));
                    let j = all@.take(place as int).index_of(w);
                    assert(all@.take(place + 1)[j] == w);
                } else {
                    assert(all@.take(place + 1)[place as int] == window);
                }
            }
        }
        place = place + 1;
    }
    proof {
        lemma_filter_ends(all@, missing);
    }
    (list, removed, added)
}

/// A list brought in line holds exactly the windows that there are.
pub proof fn realigned_list_holds_all(windows: Seq<WindowHandle>, all: Seq<WindowHandle>, window: WindowHandle)
    ensures
        realigned(windows, all).contains(window) <==> all.contains(window),
{
    let kept = windows.filter(member_of(all));
    let late = all.filter(missing_from(kept));
    let list = realigned(windows, all);
    lemma_filter_holds(windows, member_of(all), window);
    lemma_filter_holds(all, missing_from(kept), window);
    if kept.contains(window) {
        assert(list[kept.index_of(window)] == window);
    }
    if late.contains(window) {
        assert(list[kept.len() + late.index_of(window)] == window);
    }
    if list.contains(window) {
        let i = list.index_of(window);
        if i < kept.len() {
            assert(kept[i] == window);
        } else {
            assert(late[i - kept.len()] == window);
        }
    }
}

/// A filtered list holds what the list holds and the filter keeps.
pub proof fn lemma_filter_holds<A>(list: Seq<A>, keep: spec_fn(A) -> bool, item: A)
    ensures
        list.filter(keep).contains(item) <==> list.contains(item) && keep(item),
    decreases list.len(),
{
    reveal(Seq::filter);
    if list.len() > 0 {
        lemma_filter_holds(list.drop_last(), keep, item);
        lemma_contains_push(list.drop_last(), list.last());
        assert(list =~= list.drop_last().push(list.last()));
        if keep(list.last()) {
            lemma_contains_push(list.drop_last().filter(keep), list.last());
        }
    }
}

} // verus!
