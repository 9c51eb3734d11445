//! Layout settings and the layouts that need no memory of earlier ones.

use vstd::prelude::*;

use crate::geometry::Rect;
use crate::num::{
    clamp_i32, divide, max_i32, max_int, quotient_towards_zero, remainder_towards_zero, sat_add,
    sat_mul_nonneg, sat_sub,
};

verus! {

/// How a window takes part in tiling.
#[derive(Debug, Clone, Copy, PartialEq, Eq, Structural)]
pub enum WindowParticipation {
    Tiled,
    Floating,
    TemporarilyFloating,
}

impl Default for WindowParticipation {
    fn default() -> (r: Self)
        ensures
            r == WindowParticipation::Tiled,
    {
        WindowParticipation::Tiled
    }
}

impl WindowParticipation {
    /// Whether the window is given a tile.
    pub fn is_tiled(self) -> (r: bool)
        ensures
            r == (self == WindowParticipation::Tiled),
    {
        matches!(self, WindowParticipation::Tiled)
    }

    /// Whether the window floats, for good or during a drag.
    pub fn is_floating(self) -> (r: bool)
        ensures
            r == (self != WindowParticipation::Tiled),
    {
        matches!(self, WindowParticipation::Floating | WindowParticipation::TemporarilyFloating)
    }
}

/// A direction in which focus moves or windows swap.
#[derive(Debug, Clone, Copy, PartialEq, Eq, Structural)]
pub enum LayoutDirection {
    Left,
    Down,
    Up,
    Right,
}

impl LayoutDirection {
    /// Whether the direction leads towards the start of the layout order.
    pub open spec fn leads_back(self) -> bool {
        self is Left || self is Up
    }

    /// Whether the direction leads towards the start of the layout order.
    pub fn is_backward(self) -> (r: bool)
        ensures
            r == self.leads_back(),
    {
        matches!(self, LayoutDirection::Left | LayoutDirection::Up)
    }
}

/// The layouts on offer.
#[derive(Debug, Clone, Copy, PartialEq, Eq, Structural)]
pub enum LayoutKind {
    MasterStack,
    Dwindle,
    VerticalStack,
    HorizontalStack,
}

impl Default for LayoutKind {
    fn default() -> (r: Self)
        ensures
            r == LayoutKind::MasterStack,
    {
        LayoutKind::MasterStack
    }
}

impl LayoutKind {
    /// The name by which settings call the layout.
    pub open spec fn spec_name(self) -> Seq<char> {
        match self {
            LayoutKind::MasterStack => "master-stack"@,
            LayoutKind::Dwindle => "dwindle"@,
            LayoutKind::VerticalStack => "vertical-stack"@,
            LayoutKind::HorizontalStack => "horizontal-stack"@,
        }
    }

    /// The name by which settings call the layout.
    pub fn name(self) -> (r: &'static str)
        ensures
            r@ == self.spec_name(),
    {
        match self {
            LayoutKind::MasterStack => "master-stack",
            LayoutKind::Dwindle => "dwindle",
            LayoutKind::VerticalStack => "vertical-stack",
            LayoutKind::HorizontalStack => "horizontal-stack",
        }
    }
}

/// The edge of a split rectangle that the new window takes.
#[derive(Debug, Clone, Copy, PartialEq, Eq, Structural)]
pub enum SplitDirection {
    Left,
    Down,
    Up,
    Right,
}

/// The settings of a layout.
#[derive(Debug, Clone, Copy, PartialEq, Eq, Structural)]
pub struct LayoutConfig {
    pub kind: LayoutKind,
    pub gap: i32,
    pub border: i32,
    pub master_ratio_percent: u8,
    pub smart_split: bool,
    pub preserve_split: bool,
}

impl LayoutConfig {
    pub const MIN_MASTER_RATIO_PERCENT: u8 = 10;

    pub const MAX_MASTER_RATIO_PERCENT: u8 = 90;

    /// The ratio brought into the allowed range.
    pub open spec fn clamped_ratio(percent: int) -> int {
        if percent < 10 {
            10
        } else if percent > 90 {
            90
        } else {
            percent
        }
    }

    /// The settings with every value brought into its allowed range.
    pub open spec fn spec_normalized(self) -> LayoutConfig {
        LayoutConfig {
            kind: self.kind,
            gap: max_int(self.gap as int, 0) as i32,
            border: max_int(self.border as int, 0) as i32,
            master_ratio_percent: LayoutConfig::clamped_ratio(self.master_ratio_percent as int) as u8,
            smart_split: self.smart_split,
            preserve_split: self.preserve_split || self.smart_split,
        }
    }

    /// Whether every value is in its allowed range.
    pub open spec fn is_normal(self) -> bool {
        &&& self.gap >= 0
        &&& self.border >= 0
        &&& 10 <= self.master_ratio_percent <= 90
        &&& self.smart_split ==> self.preserve_split
    }

    /// The settings that apply when nothing is set.
    pub open spec fn spec_default() -> LayoutConfig {
        LayoutConfig {
            kind: LayoutKind::MasterStack,
            gap: 0,
            border: 0,
            master_ratio_percent: 50,
            smart_split: false,
            preserve_split: false,
        }
    }

    /// Brings every value into its allowed range.
    pub fn normalized(self) -> (r: LayoutConfig)
        ensures
            r == self.spec_normalized(),
            r.is_normal(),
    {
        let ratio: u8 = if self.master_ratio_percent < LayoutConfig::MIN_MASTER_RATIO_PERCENT {
            LayoutConfig::MIN_MASTER_RATIO_PERCENT
        } else if self.master_ratio_percent > LayoutConfig::MAX_MASTER_RATIO_PERCENT {
            LayoutConfig::MAX_MASTER_RATIO_PERCENT
        } else {
            self.master_ratio_percent
        };
        LayoutConfig {
            kind: self.kind,
            gap: max_i32(self.gap, 0),
            border: max_i32(self.border, 0),
            master_ratio_percent: ratio,
            smart_split: self.smart_split,
            preserve_split: self.preserve_split || self.smart_split,
        }
    }
}

impl Default for LayoutConfig {
    fn default() -> (r: Self)
        ensures
            r == LayoutConfig::spec_default(),
    {
        LayoutConfig {
            kind: LayoutKind::MasterStack,
            gap: 0,
            border: 0,
            master_ratio_percent: 50,
            smart_split: false,
            preserve_split: false,
        }
    }
}

/// Settings in their allowed ranges are left as they are.
pub proof fn normalizing_settles(config: LayoutConfig)
    ensures
        config.spec_normalized().is_normal(),
        config.is_normal() ==> config.spec_normalized() == config,
        config.spec_normalized().spec_normalized() == config.spec_normalized(),
{
}

/// The part of `length` that `percent` hundredths make, rounded towards zero.
pub open spec fn scaled(length: int, percent: int) -> int {
    quotient_towards_zero(length * percent, 100)
}

/// The part of `length` that `percent` hundredths make.
pub fn scale_length(length: i32, percent: u8) -> (r: i32)
    ensures
        r == clamp_i32(scaled(length as int, percent as int)),
{
    proof {
        assert(-0x8000_0000 * 255 <= length * percent <= 0x7fff_ffff * 255) by (nonlinear_arith)
            requires
                -0x8000_0000 <= length <= 0x7fff_ffff,
                0 <= percent <= 255,
        ;
    }
    let product: i64 = length as i64 * percent as i64;
    let part: i64 = if product >= 0 {
        product / 100
    } else {
        -((-product) / 100)
    };
    crate::num::clamp_to_i32(part)
}

/// The length left for `count` pieces of `total` once the gaps between them are taken away.
pub open spec fn shared_length(total: int, count: int, gap: int) -> int {
    clamp_i32(total - clamp_i32(gap * (count - 1)))
}

/// The length of piece `index`: an equal share, and one more for the first pieces while
/// something is left over.
pub open spec fn piece_length(available: int, count: int, index: int) -> int {
    quotient_towards_zero(available, count) + if index < remainder_towards_zero(available, count) {
        1int
    } else {
        0int
    }
}

/// Where piece `index` starts when the first starts at `start`.
pub open spec fn piece_start(start: int, available: int, count: int, gap: int, index: int) -> int
    decreases index,
{
    if index <= 0 {
        start
    } else {
        clamp_i32(
            clamp_i32(
                piece_start(start, available, count, gap, index - 1) + piece_length(
                    available,
                    count,
                    index - 1,
                ),
            ) + gap,
        )
    }
}

/// Row `index` of `count` rows in `area`.
pub open spec fn row(area: Rect, count: int, gap: int, index: int) -> Rect {
    let available = shared_length(area.spec_height(), count, gap);
    Rect::sized(
        area.left as int,
        piece_start(area.top as int, available, count, gap, index),
        area.spec_width(),
        piece_length(available, count, index),
    )
}

/// Column `index` of `count` columns in `area`.
pub open spec fn column(area: Rect, count: int, gap: int, index: int) -> Rect {
    let available = shared_length(area.spec_width(), count, gap);
    Rect::sized(
        piece_start(area.left as int, available, count, gap, index),
        area.top as int,
        piece_length(available, count, index),
        area.spec_height(),
    )
}

/// Shares are within the range of coordinates.
proof fn lemma_piece_length_bounds(available: int, count: int, index: int)
    requires
        i32::MIN < available <= i32::MAX,
        1 <= count,
        0 <= index,
    ensures
        i32::MIN <= piece_length(available, count, index) <= i32::MAX,
        i32::MIN <= quotient_towards_zero(available, count) <= i32::MAX,
{
    if available >= 0 {
        assert(0 <= available / count <= available) by (nonlinear_arith)
            requires
                available >= 0,
                count >= 1,
        ;
        assert(available / count == available ==> available % count == 0 || available < 0x7fff_ffff)
            by (nonlinear_arith)
            requires
                available >= 0,
                count >= 1,
        {
            if available / count == available && available > 0 {
                assert(available == count * (available / count) + available % count);
                assert(available % count >= 0);
                assert(count == 1);
                assert(available % 1 == 0);
            }
        }
    } else {
        assert(0 <= (-available) / count <= -available) by (nonlinear_arith)
            requires
                available < 0,
                count >= 1,
        ;
        assert((-available) % count >= 0) by (nonlinear_arith)
            requires
                count >= 1,
        ;
    }
}

/// Cuts `area` into `rows` rows with `gap` pixels between them.
pub fn split_rows_with_gap(area: Rect, rows: usize, gap: i32) -> (r: Vec<Rect>)
    requires
        1 <= rows <= i32::MAX,
        area.spec_height() >= 0,
    ensures
        r@ == Seq::new(rows as nat, |i: int| row(area, rows as int, max_int(gap as int, 0), i)),
{
    let gap: i32 = max_i32(gap, 0);
    let count: i32 = rows as i32;
    let total_gap: i32 = sat_mul_nonneg(gap, count - 1);
    let available: i32 = sat_sub(area.height(), total_gap);
    let (base, rest) = divide(available, count);
    let mut rects: Vec<Rect> = Vec::new();
    let mut top: i32 = area.top;
    let mut index: i32 = 0;
    proof {
        assert(gap * (count - 1) >= 0) by (nonlinear_arith)
            requires
                gap >= 0,
                count >= 1,
        ;
    }
    while index < count
        invariant
            0 <= index <= count,
            count == rows,
            gap >= 0,
            available == shared_length(area.spec_height(), rows as int, gap as int),
            i32::MIN < available,
            base == quotient_towards_zero(available as int, count as int),
            rest == remainder_towards_zero(available as int, count as int),
            top == piece_start(area.top as int, available as int, count as int, gap as int, index as int),
            rects@ == Seq::new(index as nat, |i: int| row(area, rows as int, gap as int, i)),
        decreases count - index,
    {
        proof {
            lemma_piece_length_bounds(available as int, count as int, index as int);
        }
        let extra: i32 = if index < rest {
            1
        } else {
            0
        };
        let height: i32 = sat_add(base, extra);
        rects.push(Rect::from_size(area.left, top, area.width(), height));
        top = sat_add(sat_add(top, height), gap);
        index = index + 1;
    }
    rects
}

/// Cuts `area` into `columns` columns with `gap` pixels between them.
pub fn split_columns_with_gap(area: Rect, columns: usize, gap: i32) -> (r: Vec<Rect>)
    requires
        1 <= columns <= i32::MAX,
        area.spec_width() >= 0,
    ensures
        r@ == Seq::new(
            columns as nat,
            |i: int| column(area, columns as int, max_int(gap as int, 0), i),
        ),
{
    let gap: i32 = max_i32(gap, 0);
    let count: i32 = columns as i32;
    let total_gap: i32 = sat_mul_nonneg(gap, count - 1);
    let available: i32 = sat_sub(area.width(), total_gap);
    let (base, rest) = divide(available, count);
    let mut rects: Vec<Rect> = Vec::new();
    let mut left: i32 = area.left;
    let mut index: i32 = 0;
    proof {
        assert(gap * (count - 1) >= 0) by (nonlinear_arith)
            requires
                gap >= 0,
                count >= 1,
        ;
    }
    while index < count
        invariant
            0 <= index <= count,
            count == columns,
            gap >= 0,
            available == shared_length(area.spec_width(), columns as int, gap as int),
            i32::MIN < available,
            base == quotient_towards_zero(available as int, count as int),
            rest == remainder_towards_zero(available as int, count as int),
            left == piece_start(area.left as int, available as int, count as int, gap as int, index as int),
            rects@ == Seq::new(index as nat, |i: int| column(area, columns as int, gap as int, i)),
        decreases count - index,
    {
        proof {
            lemma_piece_length_bounds(available as int, count as int, index as int);
        }
        let extra: i32 = if index < rest {
            1
        } else {
            0
        };
        let width: i32 = sat_add(base, extra);
        rects.push(Rect::from_size(left, area.top, width, area.height()));
        left = sat_add(sat_add(left, width), gap);
        index = index + 1;
    }
    rects
}

} // verus!
