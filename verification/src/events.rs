//! What the desktop reports of windows, and which reports are worth handling.

use vstd::prelude::*;

use crate::geometry::WindowHandle;
use crate::handles::{lemma_filter_ends, lemma_filter_step};

verus! {

/// What happened to a window.
#[derive(Debug, Clone, Copy, PartialEq, Eq, PartialOrd, Ord, Structural)]
pub enum WindowEventKind {
    Created,
    Destroyed,
    Shown,
    Hidden,
    Moved,
    MoveSizeStart,
    MoveSizeEnd,
    Minimized,
    Restored,
    ForegroundChanged,
    MetadataChanged,
}

/// A report that something happened to a window.
#[derive(Debug, Clone, Copy, PartialEq, Eq, Structural)]
pub struct WindowEvent {
    pub kind: WindowEventKind,
    pub window: WindowHandle,
    pub event_time: u32,
}

pub const EVENT_SYSTEM_FOREGROUND: u32 = 0x0003;

pub const EVENT_SYSTEM_MOVESIZESTART: u32 = 0x000A;

pub const EVENT_SYSTEM_MOVESIZEEND: u32 = 0x000B;

pub const EVENT_SYSTEM_MINIMIZESTART: u32 = 0x0016;

pub const EVENT_SYSTEM_MINIMIZEEND: u32 = 0x0017;

pub const EVENT_OBJECT_CREATE: u32 = 0x8000;

pub const EVENT_OBJECT_DESTROY: u32 = 0x8001;

pub const EVENT_OBJECT_SHOW: u32 = 0x8002;

pub const EVENT_OBJECT_HIDE: u32 = 0x8003;

pub const EVENT_OBJECT_STATECHANGE: u32 = 0x800A;

pub const EVENT_OBJECT_LOCATIONCHANGE: u32 = 0x800B;

pub const EVENT_OBJECT_NAMECHANGE: u32 = 0x800C;

pub const EVENT_OBJECT_CLOAKED: u32 = 0x8017;

pub const EVENT_OBJECT_UNCLOAKED: u32 = 0x8018;

/// The object identifier of a window itself.
pub const OBJID_WINDOW: i32 = 0;

/// What an accessibility event says of a window.
pub open spec fn kind_of_event(event: u32) -> Option<WindowEventKind> {
    if event == EVENT_OBJECT_CREATE {
        Some(WindowEventKind::Created)
    } else if event == EVENT_OBJECT_DESTROY {
        Some(WindowEventKind::Destroyed)
    } else if event == EVENT_OBJECT_SHOW {
        Some(WindowEventKind::Shown)
    } else if event == EVENT_OBJECT_HIDE {
        Some(WindowEventKind::Hidden)
    } else if event == EVENT_OBJECT_LOCATIONCHANGE {
        Some(WindowEventKind::Moved)
    } else if event == EVENT_OBJECT_NAMECHANGE || event == EVENT_OBJECT_STATECHANGE || event
        == EVENT_OBJECT_CLOAKED || event == EVENT_OBJECT_UNCLOAKED {
        Some(WindowEventKind::MetadataChanged)
    } else if event == EVENT_SYSTEM_MOVESIZESTART {
        Some(WindowEventKind::MoveSizeStart)
    } else if event == EVENT_SYSTEM_MOVESIZEEND {
        Some(WindowEventKind::MoveSizeEnd)
    } else if event == EVENT_SYSTEM_MINIMIZESTART {
        Some(WindowEventKind::Minimized)
    } else if event == EVENT_SYSTEM_MINIMIZEEND {
        Some(WindowEventKind::Restored)
    } else if event == EVENT_SYSTEM_FOREGROUND {
        Some(WindowEventKind::ForegroundChanged)
    } else {
        None
    }
}

/// The report that an accessibility event makes: none if the event is of no window, of a part of one,
/// of a border overlay, or of a kind that is not followed.
pub fn window_event(
    event: u32,
    window: WindowHandle,
    id_object: i32,
    id_child: i32,
    event_time: u32,
    is_border_overlay: bool,
) -> (r: Option<WindowEvent>)
    ensures
        r == if window.0 == 0 || id_object != OBJID_WINDOW || id_child != 0 || is_border_overlay {
            None::<WindowEvent>
        } else {
            match kind_of_event(event) {
                Some(kind) => Some(WindowEvent { kind, window, event_time }),
                None => None,
            }
        },
{
    if window.0 == 0 || id_object != OBJID_WINDOW || id_child != 0 {
        return None;
    }
    if is_border_overlay {
        return None;
    }
    let kind: WindowEventKind = match event {
        EVENT_OBJECT_CREATE => WindowEventKind::Created,
        EVENT_OBJECT_DESTROY => WindowEventKind::Destroyed,
        EVENT_OBJECT_SHOW => WindowEventKind::Shown,
        EVENT_OBJECT_HIDE => WindowEventKind::Hidden,
        EVENT_OBJECT_LOCATIONCHANGE => WindowEventKind::Moved,
        EVENT_OBJECT_NAMECHANGE
        | EVENT_OBJECT_STATECHANGE
        | EVENT_OBJECT_CLOAKED
        | EVENT_OBJECT_UNCLOAKED => WindowEventKind::MetadataChanged,
        EVENT_SYSTEM_MOVESIZESTART => WindowEventKind::MoveSizeStart,
        EVENT_SYSTEM_MOVESIZEEND => WindowEventKind::MoveSizeEnd,
        EVENT_SYSTEM_MINIMIZESTART => WindowEventKind::Minimized,
        EVENT_SYSTEM_MINIMIZEEND => WindowEventKind::Restored,
        EVENT_SYSTEM_FOREGROUND => WindowEventKind::ForegroundChanged,
        _ => {
            return None;
        },
    };
    Some(WindowEvent { kind, window, event_time })
}

/// Whether an event must not wait for others to come.
pub open spec fn is_urgent(kind: WindowEventKind) -> bool {
    kind == WindowEventKind::Moved || kind == WindowEventKind::MoveSizeStart || kind
        == WindowEventKind::MoveSizeEnd || kind == WindowEventKind::ForegroundChanged
}

/// Whether an event must not wait for others to come.
pub fn should_process_window_event_immediately(event: WindowEvent) -> (r: bool)
    ensures
        r == is_urgent(event.kind),
{
    match event.kind {
        WindowEventKind::Moved
        | WindowEventKind::MoveSizeStart
        | WindowEventKind::MoveSizeEnd
        | WindowEventKind::ForegroundChanged => true,
        _ => false,
    }
}

/// Whether an event is of a kind.
pub open spec fn of_kind(kind: WindowEventKind) -> spec_fn(WindowEvent) -> bool {
    |event: WindowEvent| event.kind == kind
}

/// How many events are of a kind.
pub fn count_events(batch: &[WindowEvent], kind: WindowEventKind) -> (r: usize)
    ensures
        r == batch@.filter(of_kind(kind)).len(),
{
    let mut count: usize = 0;
    let mut index: usize = 0;
    proof {
        lemma_filter_ends(batch@, of_kind(kind));
    }
    while index < batch.len()
        invariant
            index <= batch.len(),
            count <= index,
            count == batch@.take(index as int).filter(of_kind(kind)).len(),
        decreases batch.len() - index,
    {
        proof {
            lemma_filter_step(batch@, index as int, of_kind(kind));
        }
        if batch[index].kind == kind {
            count = count + 1;
        }
        index = index + 1;
    }
    proof {
        lemma_filter_ends(batch@, of_kind(kind));
    }
    count
}

/// Whether two events say the same of the same window.
pub open spec fn same_report(a: WindowEvent, b: WindowEvent) -> bool {
    a.kind == b.kind && a.window == b.window
}

/// Whether one of the events says the same as `event`.
pub open spec fn reported(batch: Seq<WindowEvent>, event: WindowEvent) -> bool {
    exists|i: int| 0 <= i < batch.len() && same_report(#[trigger] batch[i], event)
}

/// The events that no later one repeats.
pub open spec fn coalesced(batch: Seq<WindowEvent>) -> Seq<WindowEvent>
    decreases batch.len(),
{
    if batch.len() == 0 {
        Seq::empty()
    } else {
        let rest = coalesced(batch.drop_first());
        if reported(batch.drop_first(), batch[0]) {
            rest
        } else {
            seq![batch[0]] + rest
        }
    }
}

/// The events that no later one repeats, in their order.
pub fn coalesce_window_events(batch: &[WindowEvent]) -> (r: Vec<WindowEvent>)
    ensures
        r@ == coalesced(batch@),
{
    let mut kept: Vec<WindowEvent> = Vec::new();
    let mut index: usize = 0;
    proof {
        assert(batch@.skip(0) =~= batch@);
        assert(kept@ + coalesced(batch@) =~= coalesced(batch@));
    }
    while index < batch.len()
        invariant
            index <= batch.len(),
            kept@ + coalesced(batch@.skip(index as int)) == coalesced(batch@),
        decreases batch.len() - index,
    {
        let event: WindowEvent = batch[index];
        let ghost before = kept@;
        let ghost rest = batch@.skip(index + 1);
        proof {
            assert(batch@.skip(index as int).drop_first() =~= rest);
            assert(batch@.skip(index as int)[0] == event);
        }
        let mut repeated: bool = false;
        let mut later: usize = index + 1;
        while later < batch.len()
            invariant
                index < later <= batch.len(),
                rest == batch@.skip(index + 1),
                repeated == exists|i: int|
                    0 <= i < later - index - 1 && same_report(#[trigger] rest[i], event),
            decreases batch.len() - later,
        {
            proof {
                assert(rest[later - index - 1] == batch@[later as int]);
            }
            if batch[later].kind == event.kind && batch[later].window == event.window {
                repeated = true;
            }
            later = later + 1;
        }
        if !repeated {
            kept.push(event);
            proof {
                assert(kept@ + coalesced(rest) =~= before + (seq![event] + coalesced(rest)));
            }
        }
        index = index + 1;
    }
    proof {
        assert(batch@.skip(index as int) =~= Seq::empty());
        assert(kept@ + Seq::<WindowEvent>::empty() =~= kept@);
    }
    kept
}

/// What was reported is reported still after coalescing, once, and coalescing again changes nothing.
pub proof fn coalescing_keeps_each_report_once(batch: Seq<WindowEvent>)
    ensures
        forall|event: WindowEvent| #[trigger]
            reported(coalesced(batch), event) <==> reported(batch, event),
        forall|i: int, j: int|
            0 <= i < j < coalesced(batch).len() ==> !same_report(
                #[trigger] coalesced(batch)[i],
                #[trigger] coalesced(batch)[j],
            ),
        coalesced(coalesced(batch)) == coalesced(batch),
    decreases batch.len(),
{
    if batch.len() > 0 {
        let rest = batch.drop_first();
        coalescing_keeps_each_report_once(rest);
        assert forall|event: WindowEvent| #[trigger]
            reported(coalesced(batch), event) <==> reported(batch, event) by {
            if reported(batch, event) {
                let i = choose|i: int| 0 <= i < batch.len() && same_report(#[trigger] batch[i], event);
                if i > 0 {
                    assert(same_report(rest[i - 1], event));
                    assert(reported(rest, event));
                    assert(reported(coalesced(rest), event));
                    let k = choose|k: int|
                        0 <= k < coalesced(rest).len() && same_report(
                            #[trigger] coalesced(rest)[k],
                            event,
                        );
                    if reported(rest, batch[0]) {
                        assert(same_report(coalesced(batch)[k], event));
                    } else {
                        assert(coalesced(batch)[k + 1] == coalesced(rest)[k]);
                        assert(same_report(coalesced(batch)[k + 1], event));
                    }
                } else if reported(rest, batch[0]) {
                    let m = choose|m: int|
                        0 <= m < rest.len() && same_report(#[trigger] rest[m], batch[0]);
                    assert(same_report(rest[m], event));
                    assert(reported(rest, event));
                    assert(reported(coalesced(rest), event));
                } else {
                    assert(coalesced(batch)[0] == batch[0]);
                }
            }
            if reported(coalesced(batch), event) {
                let i = choose|i: int|
                    0 <= i < coalesced(batch).len() && same_report(
                        #[trigger] coalesced(batch)[i],
                        event,
                    );
                if !reported(rest, batch[0]) && i == 0 {
                    assert(same_report(batch[0], event));
                } else {
                    let k = if reported(rest, batch[0]) {
                        i
                    } else {
                        i - 1
                    };
                    assert(coalesced(batch)[i] == coalesced(rest)[k]);
                    assert(same_report(coalesced(rest)[k], event));
                    assert(reported(coalesced(rest), event));
                    assert(reported(rest, event));
                    let m = choose|m: int| 0 <= m < rest.len() && same_report(#[trigger] rest[m], event);
                    assert(same_report(batch[m + 1], event));
                }
            }
        }
        if !reported(rest, batch[0]) {
            let all = coalesced(batch);
            assert(!reported(coalesced(rest), batch[0]));
            assert forall|i: int, j: int| 0 <= i < j < all.len() implies !same_report(
                #[trigger] all[i],
                #[trigger] all[j],
            ) by {
                assert(all[j] == coalesced(rest)[j - 1]);
                if i == 0 {
                    if same_report(all[0], all[j]) {
                        assert(same_report(coalesced(rest)[j - 1], batch[0]));
                    }
                } else {
                    assert(all[i] == coalesced(rest)[i - 1]);
                }
            }
            assert(all.drop_first() =~= coalesced(rest));
            assert(all[0] == batch[0]);
        }
    }
}

} // verus!
