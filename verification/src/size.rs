//! Sizes of windows and the limits that windows put on them.

use vstd::prelude::*;

use crate::num::{max_i32, max_int};

verus! {

/// A width and a height in pixels.
#[derive(Debug, Clone, Copy, PartialEq, Eq, Structural)]
pub struct Size {
    pub width: i32,
    pub height: i32,
}

impl Size {
    /// The size with a width and a height.
    pub fn new(width: i32, height: i32) -> (r: Size)
        ensures
            r == (Size { width, height }),
    {
        Size { width, height }
    }

    /// The larger width and the larger height of two sizes.
    pub open spec fn spec_max(self, other: Size) -> Size {
        Size {
            width: max_int(self.width as int, other.width as int) as i32,
            height: max_int(self.height as int, other.height as int) as i32,
        }
    }

    /// The larger width and the larger height of two sizes.
    pub fn at_least(self, other: Size) -> (r: Size)
        ensures
            r == self.spec_max(other),
    {
        Size { width: max_i32(self.width, other.width), height: max_i32(self.height, other.height) }
    }
}

/// The least size of a window, and the greatest if there is one.
#[derive(Debug, Clone, Copy, PartialEq, Eq, Structural)]
pub struct WindowSizeConstraints {
    pub min: Size,
    pub max: Option<Size>,
}

impl WindowSizeConstraints {
    /// No limits.
    pub open spec fn spec_none() -> WindowSizeConstraints {
        WindowSizeConstraints { min: Size { width: 0, height: 0 }, max: None }
    }

    /// The same limits with a least size that is not negative and a greatest size that is not below
    /// it.
    pub open spec fn spec_normalized(self) -> WindowSizeConstraints {
        let min = self.min.spec_max(Size { width: 0, height: 0 });
        WindowSizeConstraints {
            min,
            max: match self.max {
                Some(max) => Some(max.spec_max(min)),
                None => None,
            },
        }
    }

    /// The limits that hold if both do: the larger least size, and the greatest size of the first as
    /// far as the least size allows it.
    pub open spec fn merged(self, learned: WindowSizeConstraints) -> WindowSizeConstraints {
        let base = self.spec_normalized();
        let min = base.min.spec_max(learned.spec_normalized().min);
        WindowSizeConstraints {
            min,
            max: match base.max {
                Some(max) => Some(max.spec_max(min)),
                None => None,
            },
        }.spec_normalized()
    }

    /// No limits.
    pub fn none() -> (r: WindowSizeConstraints)
        ensures
            r == WindowSizeConstraints::spec_none(),
    {
        WindowSizeConstraints { min: Size { width: 0, height: 0 }, max: None }
    }

    /// A least size.
    pub fn minimum(width: i32, height: i32) -> (r: WindowSizeConstraints)
        ensures
            r == (WindowSizeConstraints { min: Size { width, height }, max: None }).spec_normalized(),
    {
        WindowSizeConstraints { min: Size { width, height }, max: None }.normalized()
    }

    /// One size only.
    pub fn fixed(width: i32, height: i32) -> (r: WindowSizeConstraints)
        ensures
            r == (WindowSizeConstraints {
                min: Size { width, height },
                max: Some(Size { width, height }),
            }).spec_normalized(),
    {
        WindowSizeConstraints {
            min: Size { width, height },
            max: Some(Size { width, height }),
        }.normalized()
    }

    /// The same limits with a least size that is not negative and a greatest size that is not below
    /// it.
    pub fn normalized(self) -> (r: WindowSizeConstraints)
        ensures
            r == self.spec_normalized(),
    {
        let min: Size = self.min.at_least(Size { width: 0, height: 0 });
        WindowSizeConstraints {
            min,
            max: match self.max {
                Some(max) => Some(max.at_least(min)),
                None => None,
            },
        }
    }

    /// Whether there are no limits.
    pub fn is_unconstrained(self) -> (r: bool)
        ensures
            r == (self == WindowSizeConstraints::spec_none()),
    {
        self.min.width == 0 && self.min.height == 0 && self.max.is_none()
    }
}

impl Default for WindowSizeConstraints {
    fn default() -> (r: Self)
        ensures
            r == WindowSizeConstraints::spec_none(),
    {
        WindowSizeConstraints::none()
    }
}

/// The limits that a window states, tightened by those that were learned of it.
pub fn merge_size_constraints(base: WindowSizeConstraints, learned: WindowSizeConstraints) -> (r:
    WindowSizeConstraints)
    ensures
        r == base.merged(learned),
{
    let base: WindowSizeConstraints = base.normalized();
    let learned: WindowSizeConstraints = learned.normalized();
    let min: Size = base.min.at_least(learned.min);
    WindowSizeConstraints {
        min,
        max: match base.max {
            Some(max) => Some(max.at_least(min)),
            None => None,
        },
    }.normalized()
}

/// Merged limits are normal, and no least size is lost.
pub proof fn merging_keeps_least_sizes(base: WindowSizeConstraints, learned: WindowSizeConstraints)
    ensures
        base.merged(learned).spec_normalized() == base.merged(learned),
        base.merged(learned).min.width >= base.min.width,
        base.merged(learned).min.height >= base.min.height,
        base.merged(learned).min.width >= learned.min.width,
        base.merged(learned).min.height >= learned.min.height,
        base.merged(WindowSizeConstraints::spec_none()) == base.spec_normalized(),
{
}

/// Whether a least size that a window states can be meant.
pub open spec fn plausible(size: Size) -> bool {
    (size.width > 0 || size.height > 0) && size.width < 10_000 && size.height < 10_000
}

/// Whether a least size that a window states can be meant.
pub fn plausible_min_track_size(size: Size) -> (r: bool)
    ensures
        r == plausible(size),
{
    (size.width > 0 || size.height > 0) && size.width < 10_000 && size.height < 10_000
}

/// The limits to go by when a window states a least size, or none.
pub fn constraints_from_min_track_size(stated: Option<Size>) -> (r: WindowSizeConstraints)
    ensures
        r == match stated {
            Some(min) => if plausible(min) {
                (WindowSizeConstraints { min, max: None }).spec_normalized()
            } else {
                WindowSizeConstraints::spec_none()
            },
            None => WindowSizeConstraints::spec_none(),
        },
{
    match stated {
        Some(min) => {
            if plausible_min_track_size(min) {
                WindowSizeConstraints::minimum(min.width, min.height)
            } else {
                WindowSizeConstraints::none()
            }
        },
        None => WindowSizeConstraints::none(),
    }
}

} // verus!
