//! Design-space and screen-space coordinates, and the viewport transform
//! between them.
//!
//! Design coordinates are integers (snapped on construction) and are kept
//! within `[-DESIGN_MAX, DESIGN_MAX]`. A screen point is an exact rational
//! `(x / scale, y / scale)`, so that no precision is lost by the transform.
use vstd::prelude::*;

verus! {

/// Largest magnitude of a design coordinate.
pub const DESIGN_MAX: i64 = 16777216;

/// Largest zoom numerator or denominator.
pub const ZOOM_MAX: u64 = 4096;

/// Largest magnitude of a viewport offset, in pixels.
pub const OFFSET_MAX: i64 = 1073741824;

/// Largest magnitude of a screen numerator.
pub const SCREEN_MAX: i64 = 281474976710656;

/// Distance, in pixels, under which two screen positions count as the same.
pub const MIN_POINT_DISTANCE: u64 = 10;

pub open spec fn in_design_range(c: int) -> bool {
    -DESIGN_MAX <= c <= DESIGN_MAX
}

/// `c` clamped to the design range.
pub open spec fn clamp_spec(c: int) -> int {
    if c < -DESIGN_MAX {
        -DESIGN_MAX as int
    } else if c > DESIGN_MAX {
        DESIGN_MAX as int
    } else {
        c
    }
}

/// `n / d` rounded to the nearest integer, halves away from zero.
pub open spec fn round_div(n: int, d: int) -> int
    recommends
        d > 0,
{
    if n >= 0 {
        (2 * n + d) / (2 * d)
    } else {
        -((-2 * n + d) / (2 * d))
    }
}

/// A point in design space.
#[derive(Debug, Clone, Copy, PartialEq, Eq, Structural)]
pub struct DPoint {
    pub x: i64,
    pub y: i64,
}

/// A vector in design space, used for nudging and dragging.
#[derive(Debug, Clone, Copy, PartialEq, Eq, Structural)]
pub struct DVec2 {
    pub x: i64,
    pub y: i64,
}

/// A point in screen space: `(x / scale, y / scale)` pixels.
#[derive(Debug, Clone, Copy, PartialEq, Eq, Structural)]
pub struct ScreenPoint {
    pub x: i64,
    pub y: i64,
    pub scale: u64,
}

/// The transform from design space to screen space:
/// `screen = design * (zoom_num / zoom_den) + offset`.
#[derive(Debug, Clone, Copy, PartialEq, Eq, Structural)]
pub struct ViewPort {
    pub offset_x: i64,
    pub offset_y: i64,
    pub zoom_num: u64,
    pub zoom_den: u64,
}

impl DPoint {
    pub open spec fn wf(self) -> bool {
        in_design_range(self.x as int) && in_design_range(self.y as int)
    }

    /// The design point nearest to `(x, y)` within the design range.
    pub fn new(x: i64, y: i64) -> (r: DPoint)
        ensures
            r.x == clamp_spec(x as int),
            r.y == clamp_spec(y as int),
            r.wf(),
    {
        DPoint { x: clamp(x as i128), y: clamp(y as i128) }
    }

    /// This point moved by `v`, clamped to the design range.
    pub open spec fn translated(self, v: DVec2) -> DPoint {
        DPoint { x: clamp_spec(self.x + v.x) as i64, y: clamp_spec(self.y + v.y) as i64 }
    }

    /// The reflection of `other` through this point, clamped to the design range.
    pub open spec fn mirrored(self, other: DPoint) -> DPoint {
        DPoint {
            x: clamp_spec(2 * self.x - other.x) as i64,
            y: clamp_spec(2 * self.y - other.y) as i64,
        }
    }

    /// This point moved by `v`, clamped to the design range.
    pub fn translate(self, v: DVec2) -> (r: DPoint)
        ensures
            r == self.translated(v),
            r.wf(),
    {
        DPoint { x: clamp(self.x as i128 + v.x as i128), y: clamp(self.y as i128 + v.y as i128) }
    }

    /// The reflection of `other` through this point, clamped to the design range.
    pub fn mirror(self, other: DPoint) -> (r: DPoint)
        ensures
            r == self.mirrored(other),
            r.wf(),
    {
        DPoint {
            x: clamp(2 * (self.x as i128) - other.x as i128),
            y: clamp(2 * (self.y as i128) - other.y as i128),
        }
    }
}

impl DVec2 {
    pub fn new(x: i64, y: i64) -> (r: DVec2)
        ensures
            r.x == x && r.y == y,
    {
        DVec2 { x, y }
    }
}

impl ScreenPoint {
    pub open spec fn wf(self) -> bool {
        1 <= self.scale <= ZOOM_MAX && -SCREEN_MAX <= self.x <= SCREEN_MAX && -SCREEN_MAX
            <= self.y <= SCREEN_MAX
    }

    /// The screen point at whole pixel `(x, y)`.
    pub fn from_pixels(x: i64, y: i64) -> (r: ScreenPoint)
        requires
            -SCREEN_MAX <= x <= SCREEN_MAX,
            -SCREEN_MAX <= y <= SCREEN_MAX,
        ensures
            r == (ScreenPoint { x, y, scale: 1 }),
            r.wf(),
    {
        ScreenPoint { x, y, scale: 1 }
    }
}

/// The squared distance between two screen points, scaled by the square of
/// the product of their scales.
pub open spec fn screen_dist2_scaled(a: ScreenPoint, b: ScreenPoint) -> int {
    let dx = a.x * b.scale - b.x * a.scale;
    let dy = a.y * b.scale - b.y * a.scale;
    dx * dx + dy * dy
}

/// Whether the distance between `a` and `b` is at most `limit` pixels.
pub open spec fn screen_within(a: ScreenPoint, b: ScreenPoint, limit: int) -> bool {
    screen_dist2_scaled(a, b) <= limit * limit * (a.scale * b.scale) * (a.scale * b.scale)
}

/// Whether the distance between `a` and `b` is at most `limit` pixels.
pub fn screen_dist_within(a: ScreenPoint, b: ScreenPoint, limit: u64) -> (r: bool)
    requires
        a.wf(),
        b.wf(),
        limit <= ZOOM_MAX,
    ensures
        r == screen_within(a, b, limit as int),
{
    assert(-0x1000000000000000 <= a.x * b.scale <= 0x1000000000000000) by (nonlinear_arith)
        requires
            a.wf(),
            b.wf(),
    ;
    assert(-0x1000000000000000 <= b.x * a.scale <= 0x1000000000000000) by (nonlinear_arith)
        requires
            a.wf(),
            b.wf(),
    ;
    assert(-0x1000000000000000 <= a.y * b.scale <= 0x1000000000000000) by (nonlinear_arith)
        requires
            a.wf(),
            b.wf(),
    ;
    assert(-0x1000000000000000 <= b.y * a.scale <= 0x1000000000000000) by (nonlinear_arith)
        requires
            a.wf(),
            b.wf(),
    ;
    let dx: i128 = a.x as i128 * b.scale as i128 - b.x as i128 * a.scale as i128;
    let dy: i128 = a.y as i128 * b.scale as i128 - b.y as i128 * a.scale as i128;
    let ux: u128 = if dx < 0 { (-dx) as u128 } else { dx as u128 };
    let uy: u128 = if dy < 0 { (-dy) as u128 } else { dy as u128 };
    assert(ux * ux <= 0x4000000000000000000000000000000) by (nonlinear_arith)
        requires
            ux <= 0x2000000000000000,
    ;
    assert(uy * uy <= 0x4000000000000000000000000000000) by (nonlinear_arith)
        requires
            uy <= 0x2000000000000000,
    ;
    assert(a.scale * b.scale <= 0x1000000) by (nonlinear_arith)
        requires
            a.wf(),
            b.wf(),
    ;
    let ss: u128 = a.scale as u128 * b.scale as u128;
    assert(ss * ss <= 0x1000000000000) by (nonlinear_arith)
        requires
            ss <= 0x1000000,
    ;
    assert(limit * limit * (ss * ss) <= 0x1000000 * 0x1000000000000) by (nonlinear_arith)
        requires
            ss * ss <= 0x1000000000000,
            limit <= ZOOM_MAX,
    ;
    assert(ux * ux == dx * dx && uy * uy == dy * dy) by (nonlinear_arith)
        requires
            ux == dx || ux == -dx,
            uy == dy || uy == -dy,
    ;
    assert(limit * limit <= 0x1000000) by (nonlinear_arith)
        requires
            limit <= ZOOM_MAX,
    ;
    let lhs: u128 = ux * ux + uy * uy;
    let rhs: u128 = limit as u128 * limit as u128 * (ss * ss);
    assert(lhs == screen_dist2_scaled(a, b));
    assert(rhs == limit * limit * (a.scale * b.scale) * (a.scale * b.scale)) by (nonlinear_arith)
        requires
            rhs == limit * limit * (ss * ss),
            ss == a.scale * b.scale,
    ;
    lhs <= rhs
}

/// `c` clamped to the design range.
pub fn clamp(c: i128) -> (r: i64)
    ensures
        r == clamp_spec(c as int),
{
    if c < -(DESIGN_MAX as i128) {
        -DESIGN_MAX
    } else if c > DESIGN_MAX as i128 {
        DESIGN_MAX
    } else {
        c as i64
    }
}

/// `n / d` rounded to the nearest integer, halves away from zero.
fn div_round(n: i128, d: i128) -> (r: i128)
    requires
        0 < d <= 0x1000000000000,
        -0x1000000000000000000000000 <= n <= 0x1000000000000000000000000,
    ensures
        r == round_div(n as int, d as int),
{
    if n >= 0 {
        let q: i128 = (2 * n + d) / (2 * d);
        q
    } else {
        let q: i128 = (d - 2 * n) / (2 * d);
        -q
    }
}

impl ViewPort {
    pub open spec fn wf(self) -> bool {
        1 <= self.zoom_num <= ZOOM_MAX && 1 <= self.zoom_den <= ZOOM_MAX && -OFFSET_MAX
            <= self.offset_x <= OFFSET_MAX && -OFFSET_MAX <= self.offset_y <= OFFSET_MAX
    }

    /// The identity transform.
    pub fn identity() -> (r: ViewPort)
        ensures
            r.wf(),
            r == (ViewPort { offset_x: 0, offset_y: 0, zoom_num: 1, zoom_den: 1 }),
    {
        ViewPort { offset_x: 0, offset_y: 0, zoom_num: 1, zoom_den: 1 }
    }

    pub open spec fn to_screen_spec(self, d: DPoint) -> ScreenPoint {
        ScreenPoint {
            x: (d.x * self.zoom_num + self.offset_x * self.zoom_den) as i64,
            y: (d.y * self.zoom_num + self.offset_y * self.zoom_den) as i64,
            scale: self.zoom_den,
        }
    }

    /// One screen coordinate mapped back to design space, before clamping.
    pub open spec fn to_design_coord(self, c: int, offset: int, scale: int) -> int {
        round_div((c - offset * scale) * self.zoom_den, scale * self.zoom_num)
    }

    pub open spec fn to_design_spec(self, s: ScreenPoint) -> DPoint {
        DPoint {
            x: clamp_spec(self.to_design_coord(s.x as int, self.offset_x as int, s.scale as int))
                as i64,
            y: clamp_spec(self.to_design_coord(s.y as int, self.offset_y as int, s.scale as int))
                as i64,
        }
    }

    /// The screen position of design point `d`.
    pub fn design_to_screen(self, d: DPoint) -> (r: ScreenPoint)
        requires
            self.wf(),
            d.wf(),
        ensures
            r == self.to_screen_spec(d),
            r.wf(),
            r.x == d.x * self.zoom_num + self.offset_x * self.zoom_den,
            r.y == d.y * self.zoom_num + self.offset_y * self.zoom_den,
    {
        proof {
            lemma_screen_coord_bound(d.x as int, self.zoom_num as int, self.offset_x as int, self.zoom_den as int);
            lemma_screen_coord_bound(d.y as int, self.zoom_num as int, self.offset_y as int, self.zoom_den as int);
        }
        ScreenPoint {
            x: d.x * self.zoom_num as i64 + self.offset_x * self.zoom_den as i64,
            y: d.y * self.zoom_num as i64 + self.offset_y * self.zoom_den as i64,
            scale: self.zoom_den,
        }
    }

    fn coord_to_design(self, c: i64, offset: i64, scale: u64) -> (r: i64)
        requires
            self.wf(),
            1 <= scale <= ZOOM_MAX,
            -SCREEN_MAX <= c <= SCREEN_MAX,
            -OFFSET_MAX <= offset <= OFFSET_MAX,
        ensures
            r == clamp_spec(self.to_design_coord(c as int, offset as int, scale as int)),
    {
        assert(-0x40000000000 <= offset * scale <= 0x40000000000) by (nonlinear_arith)
            requires
                1 <= scale <= 0x1000,
                -0x40000000 <= offset <= 0x40000000,
        ;
        let shifted: i128 = c as i128 - offset as i128 * scale as i128;
        assert(-0x1000000000000000000000000 <= shifted * self.zoom_den <= 0x1000000000000000000000000) by (nonlinear_arith)
            requires
                -0x2000000000000 <= shifted <= 0x2000000000000,
                1 <= self.zoom_den <= ZOOM_MAX,
        ;
        let n: i128 = shifted * self.zoom_den as i128;
        assert(1 <= scale * self.zoom_num <= 0x1000000) by (nonlinear_arith)
            requires
                1 <= scale <= ZOOM_MAX,
                1 <= self.zoom_num <= ZOOM_MAX,
        ;
        let d: i128 = scale as i128 * self.zoom_num as i128;
        clamp(div_round(n, d))
    }

    /// The design point under screen position `s`, snapped to the nearest
    /// integer coordinates and clamped to the design range.
    pub fn screen_to_design(self, s: ScreenPoint) -> (r: DPoint)
        requires
            self.wf(),
            s.wf(),
        ensures
            r == self.to_design_spec(s),
            r.wf(),
    {
        DPoint {
            x: self.coord_to_design(s.x, self.offset_x, s.scale),
            y: self.coord_to_design(s.y, self.offset_y, s.scale),
        }
    }
}

proof fn lemma_screen_coord_bound(d: int, zn: int, off: int, zd: int)
    requires
        in_design_range(d),
        1 <= zn <= ZOOM_MAX,
        1 <= zd <= ZOOM_MAX,
        -OFFSET_MAX <= off <= OFFSET_MAX,
    ensures
        -SCREEN_MAX <= d * zn + off * zd <= SCREEN_MAX,
        -0x1000000000 <= d * zn <= 0x1000000000,
        -0x40000000000 <= off * zd <= 0x40000000000,
{
    assert(-0x1000000000 <= d * zn <= 0x1000000000) by (nonlinear_arith)
        requires
            -0x1000000 <= d <= 0x1000000,
            1 <= zn <= 0x1000,
    ;
    assert(-0x40000000000 <= off * zd <= 0x40000000000) by (nonlinear_arith)
        requires
            -0x40000000 <= off <= 0x40000000,
            1 <= zd <= 0x1000,
    ;
}

pub proof fn lemma_round_div_exact(q: int, k: int)
    requires
        k > 0,
    ensures
        round_div(q * k, k) == q,
{
    if q >= 0 {
        assert((2 * (q * k) + k) / (2 * k) == q) by (nonlinear_arith)
            requires
                k > 0,
                q >= 0,
        {
            vstd::arithmetic::div_mod::lemma_fundamental_div_mod_converse(
                2 * (q * k) + k,
                2 * k,
                q,
                k,
            );
        }
    } else {
        assert(q * k < 0) by (nonlinear_arith)
            requires
                k > 0,
                q < 0,
        ;
        assert((-2 * (q * k) + k) / (2 * k) == -q) by (nonlinear_arith)
            requires
                k > 0,
                q < 0,
        {
            vstd::arithmetic::div_mod::lemma_fundamental_div_mod_converse(
                -2 * (q * k) + k,
                2 * k,
                -q,
                k,
            );
        }
    }
}

/// Mapping a design point to the screen and back gives the same design point.
pub proof fn lemma_screen_round_trip(v: ViewPort, d: DPoint)
    requires
        v.wf(),
        d.wf(),
    ensures
        v.to_screen_spec(d).wf(),
        v.to_design_spec(v.to_screen_spec(d)) == d,
{
    lemma_screen_coord_bound(d.x as int, v.zoom_num as int, v.offset_x as int, v.zoom_den as int);
    lemma_screen_coord_bound(d.y as int, v.zoom_num as int, v.offset_y as int, v.zoom_den as int);
    let s = v.to_screen_spec(d);
    let k = v.zoom_den * v.zoom_num;
    assert((s.x - v.offset_x * v.zoom_den) * v.zoom_den == d.x * k) by (nonlinear_arith)
        requires
            s.x == d.x * v.zoom_num + v.offset_x * v.zoom_den,
            k == v.zoom_den * v.zoom_num,
    ;
    assert((s.y - v.offset_y * v.zoom_den) * v.zoom_den == d.y * k) by (nonlinear_arith)
        requires
            s.y == d.y * v.zoom_num + v.offset_y * v.zoom_den,
            k == v.zoom_den * v.zoom_num,
    ;
    assert(k > 0) by (nonlinear_arith)
        requires
            v.zoom_den >= 1,
            v.zoom_num >= 1,
            k == v.zoom_den * v.zoom_num,
    ;
    lemma_round_div_exact(d.x as int, k);
    lemma_round_div_exact(d.y as int, k);
}

/// Fixed-point scale of the ratio between handle lengths.
pub const RATIO_ONE: u64 = 65536;

/// `r` is the integer square root of `n`.
pub open spec fn is_isqrt(n: nat, r: nat) -> bool {
    r * r <= n < (r + 1) * (r + 1)
}

/// The integer square root of `n`.
pub open spec fn isqrt(n: nat) -> nat {
    choose|r: nat| is_isqrt(n, r)
}

pub proof fn lemma_isqrt_unique(n: nat, r: nat)
    requires
        is_isqrt(n, r),
    ensures
        isqrt(n) == r,
{
    assert(exists|q: nat| is_isqrt(n, q));
    let q = isqrt(n);
    if q < r {
        assert((q + 1) * (q + 1) <= r * r) by (nonlinear_arith)
            requires
                q + 1 <= r,
        ;
    } else if q > r {
        assert((r + 1) * (r + 1) <= q * q) by (nonlinear_arith)
            requires
                r + 1 <= q,
        ;
    }
}

/// The integer square root of `n`, for `n < 2^84`.
pub fn integer_sqrt(n: u128) -> (r: u64)
    requires
        n < 0x1000000000000000000000,
    ensures
        is_isqrt(n as nat, r as nat),
        r < 0x40000000000,
{
    let mut lo: u128 = 0;
    let mut hi: u128 = 0x40000000000;
    assert(hi * hi == 0x1000000000000000000000) by (nonlinear_arith)
        requires
            hi == 0x40000000000,
    ;
    while hi - lo > 1
        invariant
            lo < hi <= 0x40000000000,
            lo * lo <= n,
            n < hi * hi,
        decreases hi - lo,
    {
        let mid: u128 = lo + (hi - lo) / 2;
        assert(mid * mid <= 0x1000000000000000000000) by (nonlinear_arith)
            requires
                mid <= 0x40000000000,
        ;
        if mid * mid <= n {
            lo = mid;
        } else {
            hi = mid;
        }
    }
    assert(hi == lo + 1);
    lo as u64
}

/// The squared length of the vector from `a` to `b`.
pub open spec fn dist2(a: DPoint, b: DPoint) -> int {
    (b.x - a.x) * (b.x - a.x) + (b.y - a.y) * (b.y - a.y)
}

/// Where a smooth point's second handle goes when the first moves to
/// `moved`: opposite `moved` through `on`, at the second handle's former
/// distance from `on` (to the nearest integer, and clamped). A first handle
/// that sits on `on` gives no direction; the second then stays.
pub open spec fn tangent_partner(on: DPoint, moved: DPoint, partner: DPoint) -> DPoint {
    let dx = on.x - moved.x;
    let dy = on.y - moved.y;
    let d2 = dist2(moved, on);
    let e2 = dist2(on, partner);
    if d2 == 0 {
        partner
    } else {
        let k = isqrt(((e2 * (RATIO_ONE * RATIO_ONE)) / d2) as nat);
        DPoint {
            x: clamp_spec(on.x + round_div(dx * k, RATIO_ONE as int)) as i64,
            y: clamp_spec(on.y + round_div(dy * k, RATIO_ONE as int)) as i64,
        }
    }
}

proof fn lemma_dist2_bound(a: DPoint, b: DPoint)
    requires
        a.wf(),
        b.wf(),
    ensures
        0 <= dist2(a, b) <= 0x8000000000000,
{
    let dx = b.x - a.x;
    let dy = b.y - a.y;
    assert(0 <= dx * dx <= 0x4000000000000) by (nonlinear_arith)
        requires
            -0x2000000 <= dx <= 0x2000000,
    ;
    assert(0 <= dy * dy <= 0x4000000000000) by (nonlinear_arith)
        requires
            -0x2000000 <= dy <= 0x2000000,
    ;
}

/// Computes [`tangent_partner`].
pub fn tangent_partner_of(on: DPoint, moved: DPoint, partner: DPoint) -> (r: DPoint)
    requires
        on.wf(),
        moved.wf(),
        partner.wf(),
    ensures
        r == tangent_partner(on, moved, partner),
        r.wf(),
{
    proof {
        lemma_dist2_bound(moved, on);
        lemma_dist2_bound(on, partner);
    }
    let dx: i64 = on.x - moved.x;
    let dy: i64 = on.y - moved.y;
    let ex: i64 = partner.x - on.x;
    let ey: i64 = partner.y - on.y;
    assert(0 <= dx * dx <= 0x4000000000000 && 0 <= dy * dy <= 0x4000000000000) by (nonlinear_arith)
        requires
            -0x2000000 <= dx <= 0x2000000,
            -0x2000000 <= dy <= 0x2000000,
    ;
    assert(0 <= ex * ex <= 0x4000000000000 && 0 <= ey * ey <= 0x4000000000000) by (nonlinear_arith)
        requires
            -0x2000000 <= ex <= 0x2000000,
            -0x2000000 <= ey <= 0x2000000,
    ;
    let d2: u128 = (dx as i128 * dx as i128 + dy as i128 * dy as i128) as u128;
    let e2: u128 = (ex as i128 * ex as i128 + ey as i128 * ey as i128) as u128;
    if d2 == 0 {
        return partner;
    }
    assert(e2 * 0x100000000 <= 0x8000000000000 * 0x100000000) by (nonlinear_arith)
        requires
            e2 <= 0x8000000000000,
    ;
    let scaled: u128 = e2 * (RATIO_ONE as u128 * RATIO_ONE as u128);
    let q: u128 = scaled / d2;
    assert(q <= scaled) by (nonlinear_arith)
        requires
            d2 >= 1,
            q == scaled / d2,
            scaled >= 0,
    ;
    let k = integer_sqrt(q);
    proof {
        lemma_isqrt_unique(q as nat, k as nat);
    }
    assert(-0x80000000000000000 <= dx * k <= 0x80000000000000000) by (nonlinear_arith)
        requires
            -0x2000000 <= dx <= 0x2000000,
            0 <= k < 0x40000000000,
    ;
    assert(-0x80000000000000000 <= dy * k <= 0x80000000000000000) by (nonlinear_arith)
        requires
            -0x2000000 <= dy <= 0x2000000,
            0 <= k < 0x40000000000,
    ;
    let ox: i128 = div_round(dx as i128 * k as i128, RATIO_ONE as i128);
    let oy: i128 = div_round(dy as i128 * k as i128, RATIO_ONE as i128);
    assert(-0x200000000000000000 <= ox <= 0x200000000000000000) by {
        lemma_round_div_bound(dx * k, RATIO_ONE as int);
    }
    assert(-0x200000000000000000 <= oy <= 0x200000000000000000) by {
        lemma_round_div_bound(dy * k, RATIO_ONE as int);
    }
    DPoint { x: clamp(on.x as i128 + ox), y: clamp(on.y as i128 + oy) }
}

proof fn lemma_round_div_bound(n: int, d: int)
    requires
        1 <= d <= 0x10000,
        -0x80000000000000000 <= n <= 0x80000000000000000,
    ensures
        -0x200000000000000000 <= round_div(n, d) <= 0x200000000000000000,
{
    let m = if n >= 0 {
        n
    } else {
        -n
    };
    vstd::arithmetic::div_mod::lemma_div_is_ordered_by_denominator(2 * m + d, 1, 2 * d);
    vstd::arithmetic::div_mod::lemma_div_pos_is_pos(2 * m + d, 2 * d);
    assert(0 <= (2 * m + d) / (2 * d) <= 2 * m + d);
    if n < 0 {
        assert(-2 * n + d == 2 * m + d);
    }
}

/// When the second handle of a smooth point lies `m` times as far from the
/// point as the moved first handle, it is placed exactly at
/// `on + m * (on - moved)`: at the same distance from the point as before, and
/// in the direction opposite the first handle.
pub proof fn lemma_tangent_partner_mirrors(on: DPoint, moved: DPoint, partner: DPoint, m: nat)
    requires
        on.wf(),
        moved.wf(),
        partner.wf(),
        dist2(moved, on) > 0,
        dist2(on, partner) == m * m * dist2(moved, on),
        in_design_range(on.x + m * (on.x - moved.x)),
        in_design_range(on.y + m * (on.y - moved.y)),
    ensures
        tangent_partner(on, moved, partner).x - on.x == m * (on.x - moved.x),
        tangent_partner(on, moved, partner).y - on.y == m * (on.y - moved.y),
        dist2(on, tangent_partner(on, moved, partner)) == dist2(on, partner),
{
    let dx = on.x - moved.x;
    let dy = on.y - moved.y;
    let d2 = dist2(moved, on);
    let e2 = dist2(on, partner);
    let s: int = RATIO_ONE as int;
    assert(d2 == dx * dx + dy * dy) by (nonlinear_arith)
        requires
            d2 == (on.x - moved.x) * (on.x - moved.x) + (on.y - moved.y) * (on.y - moved.y),
            dx == on.x - moved.x,
            dy == on.y - moved.y,
    ;
    assert(e2 * (s * s) == (m * m * (s * s)) * d2) by (nonlinear_arith)
        requires
            e2 == m * m * d2,
    ;
    vstd::arithmetic::div_mod::lemma_div_by_multiple(m * m * (s * s), d2);
    let k: nat = m * s as nat;
    assert(is_isqrt((m * m * (s * s)) as nat, k)) by (nonlinear_arith)
        requires
            k == m * s,
            s > 0,
    ;
    lemma_isqrt_unique((m * m * (s * s)) as nat, k);
    assert(dx * k == (dx * m) * s) by (nonlinear_arith)
        requires
            k == m * s,
    ;
    assert(dy * k == (dy * m) * s) by (nonlinear_arith)
        requires
            k == m * s,
    ;
    lemma_round_div_exact(dx * m, s);
    lemma_round_div_exact(dy * m, s);
    let r = tangent_partner(on, moved, partner);
    assert(r.x - on.x == dx * m);
    assert(r.y - on.y == dy * m);
    assert(dist2(on, r) == m * m * (dx * dx + dy * dy)) by (nonlinear_arith)
        requires
            r.x - on.x == dx * m,
            r.y - on.y == dy * m,
            dist2(on, r) == (r.x - on.x) * (r.x - on.x) + (r.y - on.y) * (r.y - on.y),
    ;
}

} // verus!
