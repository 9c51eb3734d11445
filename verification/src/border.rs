//! Coloured borders drawn around windows.

use vstd::prelude::*;

use crate::geometry::{Rect, WindowHandle};
use crate::handles::{handles_of, lemma_filter_ends, lemma_filter_step, ordered_handles};
use crate::num::{clamp_i32, max_i32, max_int, sat_add, sat_sub};
use crate::sorted_map::SortedMap;

verus! {

/// A colour.
#[derive(Debug, Clone, Copy, PartialEq, Eq, Structural)]
pub struct BorderColor {
    pub red: u8,
    pub green: u8,
    pub blue: u8,
}

impl BorderColor {
    /// The colour with the given parts.
    pub fn new(red: u8, green: u8, blue: u8) -> (r: BorderColor)
        ensures
            r == (BorderColor { red, green, blue }),
    {
        BorderColor { red, green, blue }
    }

    /// The colour as one number, blue in the high part and red in the low one.
    pub fn colorref(self) -> (r: u32)
        ensures
            r == self.red + 0x100 * self.green + 0x1_0000 * self.blue,
    {
        let red: u32 = self.red as u32;
        let green: u32 = self.green as u32;
        let blue: u32 = self.blue as u32;
        proof {
            assert((red | (green << 8u32)) | (blue << 16u32) == red + 0x100 * green + 0x1_0000 * blue)
                by (bit_vector)
                requires
                    red < 0x100,
                    green < 0x100,
                    blue < 0x100,
            ;
        }
        red | (green << 8u32) | (blue << 16u32)
    }
}

impl Default for BorderColor {
    fn default() -> (r: Self)
        ensures
            r == (BorderColor { red: 0, green: 0, blue: 0 }),
    {
        BorderColor { red: 0, green: 0, blue: 0 }
    }
}

/// Different colours have different numbers.
pub proof fn colour_numbers_are_distinct(a: BorderColor, b: BorderColor)
    requires
        a.red + 0x100 * a.green + 0x1_0000 * a.blue == b.red + 0x100 * b.green + 0x1_0000 * b.blue,
    ensures
        a == b,
{
}

/// A window, where it is, and the colour of its border; `visible` says whether the border is to be
/// seen.
#[derive(Debug, Clone, Copy, PartialEq, Eq, Structural)]
pub struct BorderUpdate {
    pub window: WindowHandle,
    pub rect: Rect,
    pub color: BorderColor,
    pub visible: bool,
}

/// The four sides of a border around a rectangle: above, below, left and right of it.
pub open spec fn border_sides(rect: Rect, width: int) -> Seq<Rect> {
    let width = max_int(width, 1);
    seq![
        Rect {
            left: clamp_i32(rect.left - width) as i32,
            top: clamp_i32(rect.top - width) as i32,
            right: clamp_i32(rect.right + width) as i32,
            bottom: rect.top,
        },
        Rect {
            left: clamp_i32(rect.left - width) as i32,
            top: rect.bottom,
            right: clamp_i32(rect.right + width) as i32,
            bottom: clamp_i32(rect.bottom + width) as i32,
        },
        Rect {
            left: clamp_i32(rect.left - width) as i32,
            top: rect.top,
            right: rect.left,
            bottom: rect.bottom,
        },
        Rect {
            left: rect.right,
            top: rect.top,
            right: clamp_i32(rect.right + width) as i32,
            bottom: rect.bottom,
        },
    ]
}

/// The four sides of a border around a rectangle.
pub fn border_side_rects(rect: Rect, width: i32) -> (r: [Rect; 4])
    ensures
        r@ == border_sides(rect, width as int),
{
    let width: i32 = max_i32(width, 1);
    let r: [Rect; 4] = [
        Rect {
            left: sat_sub(rect.left, width),
            top: sat_sub(rect.top, width),
            right: sat_add(rect.right, width),
            bottom: rect.top,
        },
        Rect {
            left: sat_sub(rect.left, width),
            top: rect.bottom,
            right: sat_add(rect.right, width),
            bottom: sat_add(rect.bottom, width),
        },
        Rect {
            left: sat_sub(rect.left, width),
            top: rect.top,
            right: rect.left,
            bottom: rect.bottom,
        },
        Rect {
            left: rect.right,
            top: rect.top,
            right: sat_add(rect.right, width),
            bottom: rect.bottom,
        },
    ];
    proof {
        assert(r@ =~= border_sides(rect, width as int));
    }
    r
}

/// The sides of a border cover no pixel of the window and none twice.
pub proof fn border_lies_around_the_window(rect: Rect, width: int)
    requires
        !rect.covers_nothing(),
    ensures
        forall|i: int|
            0 <= i < 4 ==> (#[trigger] border_sides(rect, width)[i]).apart_from(rect),
        forall|i: int, j: int|
            0 <= i < j < 4 ==> (#[trigger] border_sides(rect, width)[i]).apart_from(
                #[trigger] border_sides(rect, width)[j],
            ),
{
    let sides = border_sides(rect, width);
    assert forall|i: int, j: int| 0 <= i < j < 4 implies (#[trigger] sides[i]).apart_from(
        #[trigger] sides[j],
    ) by {
        assert(i == 0 || i == 1 || i == 2);
        assert(j == 1 || j == 2 || j == 3);
    }
    assert forall|i: int| 0 <= i < 4 implies (#[trigger] sides[i]).apart_from(rect) by {
        assert(i == 0 || i == 1 || i == 2 || i == 3);
    }
}

/// What is known of the border drawn around a window: where it was put last, how wide, and its
/// colour.
#[derive(Debug, Clone, Copy, PartialEq, Eq, Structural)]
pub struct BorderOverlay {
    pub rect: Option<Rect>,
    pub width: i32,
    pub color: BorderColor,
}

/// The borders that are drawn, by window.
#[derive(Debug, Clone, PartialEq, Eq)]
pub struct BorderOverlayState {
    overlays: SortedMap<BorderOverlay>,
}

/// What is to be done on the screen for one update of a border.
#[derive(Debug, Clone, Copy, PartialEq, Eq)]
pub struct BorderStep {
    pub remove: bool,
    pub recolor: Option<BorderColor>,
    pub reposition: Option<[Rect; 4]>,
}

impl View for BorderOverlayState {
    type V = Map<u64, BorderOverlay>;

    closed spec fn view(&self) -> Map<u64, BorderOverlay> {
        self.overlays@
    }
}

/// A border as it is right after it was made.
pub open spec fn fresh_overlay() -> BorderOverlay {
    BorderOverlay { rect: None, width: 0, color: BorderColor { red: 0, green: 0, blue: 0 } }
}

/// Whether a window is none of those of the updates.
pub open spec fn not_updated(updates: Seq<BorderUpdate>) -> spec_fn(WindowHandle) -> bool {
    |window: WindowHandle|
        forall|i: int| 0 <= i < updates.len() ==> (#[trigger] updates[i]).window != window
}

impl BorderOverlayState {
    /// Whether the borders are in order.
    pub closed spec fn wf(&self) -> bool {
        self.overlays.wf()
    }

    /// No border.
    pub fn new() -> (r: BorderOverlayState)
        ensures
            r.wf(),
            r@ == Map::<u64, BorderOverlay>::empty(),
    {
        BorderOverlayState { overlays: SortedMap::new() }
    }

    /// Whether a border is drawn around a window.
    pub fn has_overlay(&self, window: WindowHandle) -> (r: bool)
        requires
            self.wf(),
        ensures
            r == self@.contains_key(window.0),
    {
        self.overlays.contains_key(window.0)
    }

    /// Whether an update calls for a border that is not drawn yet: one around something.
    pub fn needs_overlay(&self, update: &BorderUpdate) -> (r: bool)
        requires
            self.wf(),
        ensures
            r == (!update.rect.covers_nothing() && !self@.contains_key(update.window.0)),
    {
        !update.rect.is_empty() && !self.has_overlay(update.window)
    }

    /// The windows whose border no update speaks of, in ascending order of their handles.
    pub fn stale_windows(&self, updates: &[BorderUpdate]) -> (r: Vec<WindowHandle>)
        requires
            self.wf(),
        ensures
            r@ == ordered_handles(self@).filter(not_updated(updates@)),
    {
        let windows: Vec<WindowHandle> = handles_of(&self.overlays);
        let mut stale: Vec<WindowHandle> = Vec::new();
        let mut index: usize = 0;
        proof {
            lemma_filter_ends(windows@, not_updated(updates@));
        }
        while index < windows.len()
            invariant
                index <= windows.len(),
                stale@ == windows@.take(index as int).filter(not_updated(updates@)),
            decreases windows.len() - index,
        {
            let window: WindowHandle = windows[index];
            proof {
                lemma_filter_step(windows@, index as int, not_updated(updates@));
            }
            let mut updated: bool = false;
            let mut at: usize = 0;
            while at < updates.len()
                invariant
                    at <= updates.len(),
                    updated == exists|i: int| 0 <= i < at && (#[trigger] updates@[i]).window == window,
                decreases updates.len() - at,
            {
                if updates[at].window == window {
                    updated = true;
                }
                at = at + 1;
            }
            if !updated {
                stale.push(window);
            }
            index = index + 1;
        }
        proof {
            lemma_filter_ends(windows@, not_updated(updates@));
        }
        stale
    }

    /// Forgets the border of a window; says whether there was one.
    pub fn remove(&mut self, window: WindowHandle) -> (r: bool)
        requires
            old(self).wf(),
        ensures
            final(self).wf(),
            final(self)@ == old(self)@.remove(window.0),
            r == old(self)@.contains_key(window.0),
    {
        self.overlays.remove(window.0).is_some()
    }

    /// Takes note of a border that was made.
    pub fn created(&mut self, window: WindowHandle)
        requires
            old(self).wf(),
        ensures
            final(self).wf(),
            final(self)@ == old(self)@.insert(window.0, fresh_overlay()),
    {
        self.overlays.insert(
            window.0,
            BorderOverlay {
                rect: None,
                width: 0,
                color: BorderColor { red: 0, green: 0, blue: 0 },
            },
        );
    }

    /// What an update of a border changes on the screen: an empty rectangle takes the border away;
    /// else a new colour, and new sides where the place or the width differs from what was drawn
    /// last.
    pub fn update(&mut self, update: BorderUpdate, width: i32) -> (r: BorderStep)
        requires
            old(self).wf(),
        ensures
            final(self).wf(),
            ({
                let before = old(self)@;
                let key = update.window.0;
                let shown = max_int(width as int, 1) as i32;
                if update.rect.covers_nothing() {
                    &&& r.remove == before.contains_key(key)
                    &&& r.recolor is None
                    &&& r.reposition is None
                    &&& final(self)@ == before.remove(key)
                } else if !before.contains_key(key) {
                    &&& !r.remove
                    &&& r.recolor is None
                    &&& r.reposition is None
                    &&& final(self)@ == before
                } else {
                    &&& !r.remove
                    &&& r.recolor == if before[key].color != update.color {
                        Some(update.color)
                    } else {
                        None
                    }
                    &&& r.reposition is Some <==> before[key].rect != Some(update.rect)
                        || before[key].width != shown
                    &&& r.reposition matches Some(sides) ==> sides@ == border_sides(
                        update.rect,
                        shown as int,
                    )
                    &&& final(self)@ == before.insert(
                        key,
                        BorderOverlay {
                            rect: Some(update.rect),
                            width: shown,
                            color: update.color,
                        },
                    )
                }
            }),
    {
        let width: i32 = max_i32(width, 1);
        if update.rect.is_empty() {
            let removed: bool = self.remove(update.window);
            return BorderStep { remove: removed, recolor: None, reposition: None };
        }
        let held: Option<BorderOverlay> = match self.overlays.get(update.window.0) {
            Some(overlay) => Some(*overlay),
            None => None,
        };
        match held {
            None => BorderStep { remove: false, recolor: None, reposition: None },
            Some(overlay) => {
                let recolor: Option<BorderColor> = if overlay.color != update.color {
                    Some(update.color)
                } else {
                    None
                };
                let moved: bool = match overlay.rect {
                    Some(rect) => rect != update.rect,
                    None => true,
                };
                let reposition: Option<[Rect; 4]> = if moved || overlay.width != width {
                    Some(border_side_rects(update.rect, width))
                } else {
                    None
                };
                self.overlays.insert(
                    update.window.0,
                    BorderOverlay { rect: Some(update.rect), width, color: update.color },
                );
                BorderStep { remove: false, recolor, reposition }
            },
        }
    }
}

} // verus!
