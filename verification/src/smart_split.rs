//! Which edge of a rectangle a point is drawn to.
//!
//! A point is compared with the diagonals of the rectangle: its offset from the middle is measured
//! along each axis in half extents, and the larger measure names the axis. The measures are
//! quotients rounded to double precision, so that offsets which a double cannot tell apart count
//! as equal.

use vstd::arithmetic::power2::{
    lemma_pow2_adds, lemma_pow2_pos, lemma_pow2_strictly_increases, lemma_pow2_unfold, pow2,
};
use vstd::prelude::*;

use crate::geometry::{Point, Rect};
use crate::layout::SplitDirection;
use crate::num::{abs_int, max_i32, max_int};

verus! {

/// The weight of the leading digit of a double's significand.
pub const LEADING: u64 = 0x10_0000_0000_0000;

/// How often a positive `a` must be doubled to reach `floor`.
pub open spec fn doublings(a: nat, floor: nat) -> nat
    decreases max_int(floor - a, 0),
{
    if a == 0 || a >= floor {
        0
    } else {
        1 + doublings(2 * a, floor)
    }
}

/// `a` doubled until it reaches `floor`.
pub open spec fn doubled(a: nat, floor: nat) -> nat
    decreases max_int(floor - a, 0),
{
    if a == 0 || a >= floor {
        a
    } else {
        doubled(2 * a, floor)
    }
}

/// The quotient rounded to the nearest integer, a tie to the even one.
pub open spec fn rounded_quotient(a: nat, b: nat) -> nat {
    let quotient = a / b;
    let rest = a % b;
    if 2 * rest > b || (2 * rest == b && quotient % 2 == 1) {
        quotient + 1
    } else {
        quotient
    }
}

/// The binary places behind the point of the significand of `a / b` in double precision.
pub open spec fn double_places(a: nat, b: nat) -> nat {
    doublings(a, b * LEADING as nat)
}

/// The significand of `a / b` in double precision, as an integer: the double nearest to `a / b` is
/// this integer divided by two to the power `double_places(a, b)`.
pub open spec fn double_digits(a: nat, b: nat) -> nat {
    rounded_quotient(doubled(a, b * LEADING as nat), b)
}

/// Whether `a / b` is at least `c / d`, both in double precision.
pub open spec fn double_at_least(a: nat, b: nat, c: nat, d: nat) -> bool {
    double_digits(a, b) * pow2(double_places(c, d)) >= double_digits(c, d) * pow2(
        double_places(a, b),
    )
}

/// Twice the offset of `at` from the middle of an extent that starts at `start`.
pub open spec fn twice_offset(at: int, start: int, extent: int) -> int {
    2 * (at - start) - extent
}

/// The edge of `rect` that `point` is drawn to.
pub open spec fn drawn_to(rect: Rect, point: Point) -> SplitDirection {
    let width = max_int(rect.spec_width(), 1);
    let height = max_int(rect.spec_height(), 1);
    let x = twice_offset(point.x as int, rect.left as int, width);
    let y = twice_offset(point.y as int, rect.top as int, height);
    if double_at_least(abs_int(x) as nat, width as nat, abs_int(y) as nat, height as nat) {
        if x < 0 {
            SplitDirection::Left
        } else {
            SplitDirection::Right
        }
    } else if y < 0 {
        SplitDirection::Up
    } else {
        SplitDirection::Down
    }
}

proof fn lemma_doubled_bounds(a: nat, floor: nat)
    requires
        0 < a < 2 * floor,
    ensures
        floor <= doubled(a, floor) < 2 * floor,
        doubled(a, floor) == a * pow2(doublings(a, floor)),
    decreases max_int(floor - a, 0),
{
    if a >= floor {
        assert(pow2(0) == 1) by {
            vstd::arithmetic::power2::lemma2_to64();
        }
        assert(a * 1 == a);
    } else {
        lemma_doubled_bounds(2 * a, floor);
        lemma_pow2_unfold(doublings(a, floor));
        let rest = pow2(doublings(2 * a, floor));
        assert((2 * a) * rest == a * (2 * rest)) by (nonlinear_arith);
    }
}

proof fn lemma_digits_bounds(a: nat, b: nat)
    requires
        0 < a < 2 * (b * LEADING as nat),
        0 < b,
    ensures
        LEADING <= double_digits(a, b) <= 2 * LEADING,
{
    let scaled = doubled(a, b * LEADING as nat);
    lemma_doubled_bounds(a, b * LEADING as nat);
    let q = scaled / b;
    let r = scaled % b;
    assert(q >= LEADING && q < 2 * LEADING) by (nonlinear_arith)
        requires
            b > 0,
            q == scaled / b,
            b * (LEADING as nat) <= scaled < 2 * (b * LEADING as nat),
    ;
}

/// A double as significand and binary places.
struct Double {
    digits: u64,
    places: u32,
}

/// Rounds a quotient to double precision.
fn double_quotient(a: u64, b: u32) -> (r: Double)
    requires
        0 < a < 0x10_0000_0000,
        0 < b <= 0x7fff_ffff,
    ensures
        r.digits == double_digits(a as nat, b as nat),
        r.places == double_places(a as nat, b as nat),
        LEADING <= r.digits <= 2 * LEADING,
{
    let divisor: u128 = b as u128;
    let floor: u128 = divisor * LEADING as u128;
    let mut scaled: u128 = a as u128;
    let mut places: u32 = 0;
    proof {
        assert(a < 2 * (b * LEADING));
        lemma_digits_bounds(a as nat, b as nat);
    }
    proof {
        lemma_pow2_adds(32, 52);
        assert(pow2(32) == 0x1_0000_0000 && pow2(52) == LEADING) by {
            vstd::arithmetic::power2::lemma2_to64();
            vstd::arithmetic::power2::lemma2_to64_rest();
        }
        assert(floor <= a * pow2(84)) by (nonlinear_arith)
            requires
                a >= 1,
                floor <= 0x7fff_ffff * LEADING,
                pow2(84) == 0x1_0000_0000 * LEADING,
        ;
        lemma_doublings_few(a as nat, floor as nat, 84);
    }
    while scaled < floor
        invariant
            0 < scaled < 2 * floor,
            floor <= 0x7fff_ffff * LEADING,
            doubled(scaled as nat, floor as nat) == doubled(a as nat, floor as nat),
            places + doublings(scaled as nat, floor as nat) == doublings(a as nat, floor as nat),
            doublings(a as nat, floor as nat) <= 84,
        decreases max_int(floor - scaled, 0),
    {
        scaled = scaled * 2;
        places = places + 1;
    }
    let quotient: u128 = scaled / divisor;
    let rest: u128 = scaled % divisor;
    proof {
        assert(quotient < 2 * LEADING) by (nonlinear_arith)
            requires
                divisor > 0,
                quotient == scaled / divisor,
                scaled < 2 * (divisor * LEADING),
        ;
        assert(rest < divisor) by (nonlinear_arith)
            requires
                divisor > 0,
                rest == scaled % divisor,
        ;
    }
    let digits: u64 = if 2 * rest > divisor || (2 * rest == divisor && quotient % 2 == 1) {
        quotient as u64 + 1
    } else {
        quotient as u64
    };
    Double { digits, places }
}

proof fn lemma_doublings_few(a: nat, floor: nat, limit: nat)
    requires
        0 < a,
        floor <= a * pow2(limit),
    ensures
        doublings(a, floor) <= limit,
    decreases limit,
{
    if a < floor {
        if limit == 0 {
            assert(pow2(0) == 1) by {
                vstd::arithmetic::power2::lemma2_to64();
            }
        } else {
            lemma_pow2_unfold(limit);
            let rest = pow2((limit - 1) as nat);
            assert(a * (2 * rest) == (2 * a) * rest) by (nonlinear_arith);
            lemma_doublings_few(2 * a, floor, (limit - 1) as nat);
        }
    }
}

/// Whether `a / b` is at least `c / d` in double precision.
fn quotient_at_least(a: u64, b: u32, c: u64, d: u32) -> (r: bool)
    requires
        a < 0x10_0000_0000,
        c < 0x10_0000_0000,
        0 < b <= 0x7fff_ffff,
        0 < d <= 0x7fff_ffff,
    ensures
        r == double_at_least(a as nat, b as nat, c as nat, d as nat),
{
    proof {
        lemma_pow2_pos(double_places(c as nat, d as nat));
        lemma_pow2_pos(double_places(a as nat, b as nat));
    }
    if c == 0 {
        proof {
            assert(double_digits(0, d as nat) == 0) by {
                assert(0nat / (d as nat) == 0 && 0nat % (d as nat) == 0) by (nonlinear_arith)
                    requires
                        d > 0,
                ;
            }
        }
        return true;
    }
    let second: Double = double_quotient(c, d);
    if a == 0 {
        proof {
            assert(double_digits(0, b as nat) == 0) by {
                assert(0nat / (b as nat) == 0 && 0nat % (b as nat) == 0) by (nonlinear_arith)
                    requires
                        b > 0,
                ;
            }
            assert(second.digits * pow2(double_places(a as nat, b as nat)) > 0) by (nonlinear_arith)
                requires
                    second.digits > 0,
                    pow2(double_places(a as nat, b as nat)) > 0,
            ;
        }
        return false;
    }
    let first: Double = double_quotient(a, b);
    proof {
        lemma_compare_doubles(
            first.digits as nat,
            first.places as nat,
            second.digits as nat,
            second.places as nat,
        );
    }
    if first.places < second.places {
        true
    } else if first.places == second.places {
        first.digits >= second.digits
    } else {
        first.places - second.places == 1 && first.digits == 2 * LEADING && second.digits == LEADING
    }
}

/// Doubles compare by their places first and by their digits then; a significand that was rounded
/// up to the next power of two is the one that can meet a double with fewer places.
proof fn lemma_compare_doubles(digits1: nat, places1: nat, digits2: nat, places2: nat)
    requires
        LEADING <= digits1 <= 2 * LEADING,
        LEADING <= digits2 <= 2 * LEADING,
    ensures
        (digits1 * pow2(places2) >= digits2 * pow2(places1)) <==> (places1 < places2 || (places1
            == places2 && digits1 >= digits2) || (places1 == places2 + 1 && digits1 == 2 * LEADING
            && digits2 == LEADING)),
{
    let p1 = pow2(places1);
    let p2 = pow2(places2);
    lemma_pow2_pos(places1);
    lemma_pow2_pos(places2);
    if places1 < places2 {
        lemma_pow2_unfold(places2);
        let below = pow2((places2 - 1) as nat);
        if places1 < places2 - 1 {
            lemma_pow2_strictly_increases(places1, (places2 - 1) as nat);
        }
        assert(digits1 * p2 >= digits2 * p1) by (nonlinear_arith)
            requires
                p2 == 2 * below,
                below >= p1,
                p1 > 0,
                digits1 >= LEADING,
                digits2 <= 2 * LEADING,
        ;
    } else if places1 == places2 {
        assert(digits1 * p2 >= digits2 * p1 <==> digits1 >= digits2) by (nonlinear_arith)
            requires
                p1 == p2,
                p1 > 0,
        ;
    } else {
        lemma_pow2_unfold(places1);
        let below = pow2((places1 - 1) as nat);
        if places2 < places1 - 1 {
            lemma_pow2_unfold((places1 - 1) as nat);
            let lower = pow2((places1 - 2) as nat);
            if places2 < places1 - 2 {
                lemma_pow2_strictly_increases(places2, (places1 - 2) as nat);
            }
            assert(digits1 * p2 < digits2 * p1) by (nonlinear_arith)
                requires
                    p1 == 2 * below,
                    below == 2 * lower,
                    lower >= p2,
                    p2 > 0,
                    digits2 >= LEADING,
                    digits1 <= 2 * LEADING,
            ;
        } else {
            assert(digits1 * p2 >= digits2 * p1 <==> digits1 >= 2 * digits2) by (nonlinear_arith)
                requires
                    p1 == 2 * p2,
                    p2 > 0,
            ;
        }
    }
}

/// The edge of `rect` that `point` is drawn to.
pub fn split_direction_for_point(rect: Rect, point: Point) -> (r: SplitDirection)
    ensures
        r == drawn_to(rect, point),
{
    let width: i32 = max_i32(rect.width(), 1);
    let height: i32 = max_i32(rect.height(), 1);
    let x: i64 = 2 * (point.x as i64 - rect.left as i64) - width as i64;
    let y: i64 = 2 * (point.y as i64 - rect.top as i64) - height as i64;
    let x_size: u64 = if x < 0 {
        (-x) as u64
    } else {
        x as u64
    };
    let y_size: u64 = if y < 0 {
        (-y) as u64
    } else {
        y as u64
    };
    if quotient_at_least(x_size, width as u32, y_size, height as u32) {
        if x < 0 {
            SplitDirection::Left
        } else {
            SplitDirection::Right
        }
    } else if y < 0 {
        SplitDirection::Up
    } else {
        SplitDirection::Down
    }
}

/// Rounding a quotient moves it by half a unit at most.
proof fn lemma_rounding_error(n: nat, b: nat)
    requires
        b > 0,
    ensures
        2 * (rounded_quotient(n, b) * b) <= 2 * n + b,
        2 * (rounded_quotient(n, b) * b) + b >= 2 * n,
{
    let q = n / b;
    let r = n % b;
    assert(n == q * b + r && r < b) by (nonlinear_arith)
        requires
            b > 0,
            q == n / b,
            r == n % b,
    ;
    assert((q + 1) * b == q * b + b) by (nonlinear_arith);
}

/// Two different quotients of moderate size stay different, and in the same order, when they are
/// rounded to double precision.
proof fn lemma_rounding_keeps_order(a: nat, b: nat, c: nat, d: nat)
    requires
        0 < b,
        0 < d,
        0 < a < 2 * (b * LEADING as nat),
        0 < c < 2 * (d * LEADING as nat),
        a * d < c * b,
        a * d < LEADING / 4,
    ensures
        !double_at_least(a, b, c, d),
{
    let l = LEADING as nat;
    let s1 = double_places(a, b);
    let s2 = double_places(c, d);
    let m1 = double_digits(a, b);
    let m2 = double_digits(c, d);
    let n1 = doubled(a, b * l);
    let n2 = doubled(c, d * l);
    let p1 = pow2(s1);
    let p2 = pow2(s2);
    lemma_digits_bounds(a, b);
    lemma_digits_bounds(c, d);
    lemma_compare_doubles(m1, s1, m2, s2);
    lemma_doubled_bounds(a, b * l);
    lemma_doubled_bounds(c, d * l);
    lemma_rounding_error(n1, b);
    lemma_rounding_error(n2, d);
    lemma_pow2_pos(s1);
    lemma_pow2_pos(s2);
    let bd = b * d;
    assert(bd > 0) by (nonlinear_arith)
        requires
            bd == b * d,
            b > 0,
            d > 0,
    ;
    // the quotients are far enough apart
    assert(p1 > 4 * bd) by {
        assert(a * p1 > a * (4 * bd)) by (nonlinear_arith)
            requires
                a * p1 >= b * l,
                4 * (a * d) < l,
                b > 0,
                bd == b * d,
        ;
        assert(p1 > 4 * bd) by (nonlinear_arith)
            requires
                a * p1 > a * (4 * bd),
                a > 0,
        ;
    }
    let cb = c * b;
    let ad = a * d;
    assert(n1 * d == p1 * ad) by (nonlinear_arith)
        requires
            n1 == a * p1,
            ad == a * d,
    ;
    assert(n2 * b == p2 * cb) by (nonlinear_arith)
        requires
            n2 == c * p2,
            cb == c * b,
    ;
    assert(l * bd <= n1 * d < 2 * (l * bd)) by (nonlinear_arith)
        requires
            b * l <= n1 < 2 * (b * l),
            bd == b * d,
            d > 0,
    ;
    assert(l * bd <= n2 * b < 2 * (l * bd)) by (nonlinear_arith)
        requires
            d * l <= n2 < 2 * (d * l),
            bd == b * d,
            b > 0,
    ;
    assert(2 * (m1 * bd) <= 2 * (n1 * d) + bd) by (nonlinear_arith)
        requires
            2 * (m1 * b) <= 2 * n1 + b,
            bd == b * d,
            d > 0,
    ;
    assert(2 * (m1 * bd) + bd >= 2 * (n1 * d)) by (nonlinear_arith)
        requires
            2 * (m1 * b) + b >= 2 * n1,
            bd == b * d,
            d > 0,
    ;
    assert(2 * (m2 * bd) + bd >= 2 * (n2 * b)) by (nonlinear_arith)
        requires
            2 * (m2 * d) + d >= 2 * n2,
            bd == b * d,
            b > 0,
    ;
    if s1 < s2 {
        lemma_pow2_unfold(s2);
        let below = pow2((s2 - 1) as nat);
        if s1 < s2 - 1 {
            lemma_pow2_strictly_increases(s1, (s2 - 1) as nat);
        }
        assert(2 * (p1 * ad) < p2 * cb) by (nonlinear_arith)
            requires
                p2 == 2 * below,
                below >= p1,
                p1 > 0,
                ad < cb,
        ;
        assert(false);
    } else if s1 == s2 {
        assert(p2 * cb >= p1 * ad + p1) by (nonlinear_arith)
            requires
                p1 == p2,
                ad + 1 <= cb,
        ;
        assert(m1 * bd < m2 * bd);
        assert(m1 < m2) by (nonlinear_arith)
            requires
                m1 * bd < m2 * bd,
        ;
    } else if s1 == s2 + 1 && m1 == 2 * l && m2 == l {
        lemma_pow2_unfold(s1);
        assert(2 * (p2 * cb) >= p1 * ad + p1) by (nonlinear_arith)
            requires
                p1 == 2 * p2,
                ad + 1 <= cb,
        ;
        assert(m1 * bd == 2 * (l * bd)) by (nonlinear_arith)
            requires
                m1 == 2 * l,
        ;
        assert(false);
    }
}

/// In a rectangle of moderate size a point is drawn to a vertical edge exactly when it lies in the
/// left or the right of the four triangles that the diagonals cut, the diagonals themselves among
/// them.
pub proof fn diagonals_decide(rect: Rect, point: Point)
    requires
        rect.covers(point.x as int, point.y as int),
        rect.right - rect.left <= 0x100_0000,
        rect.bottom - rect.top <= 0x100_0000,
    ensures
        ({
            let width = rect.right - rect.left;
            let height = rect.bottom - rect.top;
            let x = twice_offset(point.x as int, rect.left as int, width);
            let y = twice_offset(point.y as int, rect.top as int, height);
            let sideways = abs_int(x) * height >= abs_int(y) * width;
            &&& drawn_to(rect, point) is Left <==> sideways && x < 0
            &&& drawn_to(rect, point) is Right <==> sideways && x >= 0
            &&& drawn_to(rect, point) is Up <==> !sideways && y < 0
            &&& drawn_to(rect, point) is Down <==> !sideways && y >= 0
        }),
{
    let width = rect.right - rect.left;
    let height = rect.bottom - rect.top;
    let x = abs_int(twice_offset(point.x as int, rect.left as int, width)) as nat;
    let y = abs_int(twice_offset(point.y as int, rect.top as int, height)) as nat;
    let w = width as nat;
    let h = height as nat;
    assert(x * h <= 0x100_0000 * 0x100_0000 && y * w <= 0x100_0000 * 0x100_0000)
        by (nonlinear_arith)
        requires
            x <= w <= 0x100_0000,
            y <= h <= 0x100_0000,
    ;
    lemma_pow2_pos(double_places(y, h));
    lemma_pow2_pos(double_places(x, w));
    if x * h < y * w {
        assert(y > 0) by (nonlinear_arith)
            requires
                x * h < y * w,
        ;
        if x == 0 {
            lemma_digits_bounds(y, h);
            assert(0nat / w == 0 && 0nat % w == 0) by (nonlinear_arith)
                requires
                    w > 0,
            ;
            assert(double_digits(x, w) == 0);
            assert(double_digits(x, w) * pow2(double_places(y, h)) == 0) by (nonlinear_arith)
                requires
                    double_digits(x, w) == 0,
            ;
            assert(double_digits(y, h) * pow2(double_places(x, w)) > 0) by (nonlinear_arith)
                requires
                    double_digits(y, h) > 0,
                    pow2(double_places(x, w)) > 0,
            ;
        } else {
            lemma_rounding_keeps_order(x, w, y, h);
        }
    } else {
        lemma_rounding_is_monotone(x, w, y, h);
    }
    assert(double_at_least(x, w, y, h) <==> x * h >= y * w);
    assert(w == max_int(rect.spec_width(), 1) && h == max_int(rect.spec_height(), 1));
}

/// Rounding to double precision never turns two quotients round.
proof fn lemma_rounding_is_monotone(a: nat, b: nat, c: nat, d: nat)
    requires
        0 < b,
        0 < d,
        a < 2 * (b * LEADING as nat),
        c < 2 * (d * LEADING as nat),
        a * d >= c * b,
    ensures
        double_at_least(a, b, c, d),
{
    let s1 = double_places(a, b);
    let s2 = double_places(c, d);
    lemma_pow2_pos(s1);
    lemma_pow2_pos(s2);
    let p1 = pow2(s1);
    let p2 = pow2(s2);
    let m1 = double_digits(a, b);
    let m2 = double_digits(c, d);
    if c == 0 {
        assert(0nat / d == 0 && 0nat % d == 0) by (nonlinear_arith)
            requires
                d > 0,
        ;
        assert(m2 == 0);
        assert(m1 * p2 >= 0 * p1);
    } else {
        lemma_rounding_is_monotone_above_zero(a, b, c, d);
    }
}

proof fn lemma_rounding_is_monotone_above_zero(a: nat, b: nat, c: nat, d: nat)
    requires
        0 < b,
        0 < d,
        a < 2 * (b * LEADING as nat),
        0 < c < 2 * (d * LEADING as nat),
        a * d >= c * b,
    ensures
        double_at_least(a, b, c, d),
{
    let l = LEADING as nat;
    let s1 = double_places(a, b);
    let s2 = double_places(c, d);
    let p1 = pow2(s1);
    let p2 = pow2(s2);
    let m1 = double_digits(a, b);
    let m2 = double_digits(c, d);
    assert(a > 0) by (nonlinear_arith)
        requires
            a * d >= c * b,
            c > 0,
            b > 0,
    ;
    let n1 = doubled(a, b * l);
    let n2 = doubled(c, d * l);
    lemma_digits_bounds(a, b);
    lemma_digits_bounds(c, d);
    lemma_compare_doubles(m1, s1, m2, s2);
    lemma_doubled_bounds(a, b * l);
    lemma_doubled_bounds(c, d * l);
    let bd = b * d;
    let cb = c * b;
    let ad = a * d;
    assert(n1 * d == p1 * ad) by (nonlinear_arith)
        requires
            n1 == a * p1,
            ad == a * d,
    ;
    assert(n2 * b == p2 * cb) by (nonlinear_arith)
        requires
            n2 == c * p2,
            cb == c * b,
    ;
    assert(l * bd <= n1 * d < 2 * (l * bd)) by (nonlinear_arith)
        requires
            b * l <= n1 < 2 * (b * l),
            bd == b * d,
            d > 0,
    ;
    assert(l * bd <= n2 * b < 2 * (l * bd)) by (nonlinear_arith)
        requires
            d * l <= n2 < 2 * (d * l),
            bd == b * d,
            b > 0,
    ;
    if s1 > s2 {
        lemma_pow2_unfold(s1);
        let below = pow2((s1 - 1) as nat);
        if s2 < s1 - 1 {
            lemma_pow2_strictly_increases(s2, (s1 - 1) as nat);
        }
        assert(p1 * ad >= 2 * (p2 * cb)) by (nonlinear_arith)
            requires
                p1 == 2 * below,
                below >= p2,
                ad >= cb,
        ;
        assert(false);
    } else if s1 == s2 {
        assert(n1 * d >= n2 * b) by (nonlinear_arith)
            requires
                n1 * d == p1 * ad,
                n2 * b == p2 * cb,
                p1 == p2,
                ad >= cb,
        ;
        lemma_rounded_quotient_monotone(n1, b, n2, d);
    }
}

proof fn lemma_rounded_quotient_monotone(n1: nat, b: nat, n2: nat, d: nat)
    requires
        b > 0,
        d > 0,
        n1 * d >= n2 * b,
    ensures
        rounded_quotient(n1, b) >= rounded_quotient(n2, d),
{
    let q1 = n1 / b;
    let r1 = n1 % b;
    let q2 = n2 / d;
    let r2 = n2 % d;
    assert(n1 == q1 * b + r1 && r1 < b) by (nonlinear_arith)
        requires
            b > 0,
            q1 == n1 / b,
            r1 == n1 % b,
    ;
    assert(n2 == q2 * d + r2 && r2 < d) by (nonlinear_arith)
        requires
            d > 0,
            q2 == n2 / d,
            r2 == n2 % d,
    ;
    assert(q1 >= q2) by (nonlinear_arith)
        requires
            n1 * d >= n2 * b,
            n1 == q1 * b + r1,
            r1 < b,
            n2 == q2 * d + r2,
            b > 0,
            d > 0,
    ;
    if q1 == q2 {
        assert(r1 * d >= r2 * b) by (nonlinear_arith)
            requires
                n1 * d >= n2 * b,
                n1 == q1 * b + r1,
                n2 == q2 * d + r2,
                q1 == q2,
        ;
        if 2 * r2 > d {
            assert(2 * r1 > b) by (nonlinear_arith)
                requires
                    r1 * d >= r2 * b,
                    2 * r2 > d,
                    b > 0,
                    d > 0,
            ;
        }
        if 2 * r2 == d {
            assert(2 * r1 >= b) by (nonlinear_arith)
                requires
                    r1 * d >= r2 * b,
                    2 * r2 == d,
                    d > 0,
            ;
        }
    }
}

} // verus!
