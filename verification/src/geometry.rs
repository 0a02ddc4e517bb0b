//! Integer geometry: lengths, rectangles and the clamped arithmetic the
//! layout pass uses. All coordinates live in `[-COORD_LIMIT, COORD_LIMIT]`;
//! arithmetic saturates at those bounds, so no frame can overflow or
//! propagate a non-finite value.
use vstd::prelude::*;

verus! {

/// Largest magnitude any coordinate, size or resolved length may take.
pub const COORD_LIMIT: i64 = 1_000_000_000_000;

/// Largest magnitude a percentage-like factor (percent, scale, flex weight)
/// may take, in units of one percent.
pub const FACTOR_LIMIT: i64 = 100_000;

/// A value that lies in the coordinate range.
pub open spec fn in_coord(x: int) -> bool {
    -(COORD_LIMIT as int) <= x <= COORD_LIMIT as int
}

/// Saturates `x` into the coordinate range.
pub open spec fn s_clamp(x: int) -> int {
    if x < -(COORD_LIMIT as int) {
        -(COORD_LIMIT as int)
    } else if x > COORD_LIMIT as int {
        COORD_LIMIT as int
    } else {
        x
    }
}

/// Replaces a negative value by zero: sizes are never negative.
pub open spec fn s_max0(x: int) -> int {
    if x < 0 {
        0
    } else {
        x
    }
}

/// `x * num / 100`, computed with truncating division on magnitudes and then
/// saturated; used to resolve percentages and the fixed-value scale factor.
pub open spec fn s_scale(x: int, num: int) -> int {
    let mag = ((if x >= 0 {
        x
    } else {
        -x
    }) * (if num >= 0 {
        num
    } else {
        -num
    })) / 100;
    if (x >= 0) == (num >= 0) {
        s_clamp(mag)
    } else {
        s_clamp(-mag)
    }
}

/// Saturating addition in the coordinate range.
pub fn cadd(a: i64, b: i64) -> (r: i64)
    requires
        in_coord(a as int),
        in_coord(b as int),
    ensures
        r as int == s_clamp(a + b),
{
    let s = a + b;
    if s < -COORD_LIMIT {
        -COORD_LIMIT
    } else if s > COORD_LIMIT {
        COORD_LIMIT
    } else {
        s
    }
}

/// Saturating subtraction in the coordinate range.
pub fn csub(a: i64, b: i64) -> (r: i64)
    requires
        in_coord(a as int),
        in_coord(b as int),
    ensures
        r as int == s_clamp(a - b),
{
    let s = a - b;
    if s < -COORD_LIMIT {
        -COORD_LIMIT
    } else if s > COORD_LIMIT {
        COORD_LIMIT
    } else {
        s
    }
}

/// Saturates any value into the coordinate range: the executable twin of
/// `s_clamp`.
pub fn cclamp(a: i64) -> (r: i64)
    ensures
        r as int == s_clamp(a as int),
{
    if a < -COORD_LIMIT {
        -COORD_LIMIT
    } else if a > COORD_LIMIT {
        COORD_LIMIT
    } else {
        a
    }
}

/// Zero-clamped value: the executable twin of `s_max0`.
pub fn cmax0(a: i64) -> (r: i64)
    ensures
        r as int == s_max0(a as int),
{
    if a < 0 {
        0
    } else {
        a
    }
}

/// Percentage application: the executable twin of `s_scale`.
pub fn cscale(x: i64, num: i64) -> (r: i64)
    requires
        in_coord(x as int),
        0 <= num <= FACTOR_LIMIT,
    ensures
        r as int == s_scale(x as int, num as int),
{
    if x >= 0 {
        proof {
            assert(x * num <= COORD_LIMIT * FACTOR_LIMIT && 0 <= x * num) by (nonlinear_arith)
                requires
                    0 <= x <= COORD_LIMIT,
                    0 <= num <= FACTOR_LIMIT,
            ;
        }
        let p = (x * num) / 100;
        if p > COORD_LIMIT {
            COORD_LIMIT
        } else {
            p
        }
    } else {
        proof {
            assert((-x) * num <= COORD_LIMIT * FACTOR_LIMIT && 0 <= (-x) * num) by (
            nonlinear_arith)
                requires
                    0 < -x <= COORD_LIMIT,
                    0 <= num <= FACTOR_LIMIT,
            ;
        }
        let p = ((-x) * num) / 100;
        if p > COORD_LIMIT {
            -COORD_LIMIT
        } else {
            -p
        }
    }
}

/// An axis-aligned rectangle, half-open on both axes: the point `(x, y)`
/// lies inside when `min_x <= x < max_x` and `min_y <= y < max_y`.
#[derive(Clone, Copy, Debug, PartialEq, Eq, Structural)]
pub struct Rect {
    pub min_x: i64,
    pub min_y: i64,
    pub max_x: i64,
    pub max_y: i64,
}

/// A well-formed rectangle: ordered bounds inside the coordinate range.
pub open spec fn rect_wf(r: Rect) -> bool {
    &&& in_coord(r.min_x as int)
    &&& in_coord(r.min_y as int)
    &&& in_coord(r.max_x as int)
    &&& in_coord(r.max_y as int)
    &&& r.min_x <= r.max_x
    &&& r.min_y <= r.max_y
}

/// Membership of a point in a rectangle.
pub open spec fn s_contains(r: Rect, x: int, y: int) -> bool {
    &&& r.min_x <= x < r.max_x
    &&& r.min_y <= y < r.max_y
}

/// Every point of `a` also lies in `b`.
pub open spec fn s_rect_sub(a: Rect, b: Rect) -> bool {
    forall|x: int, y: int| s_contains(a, x, y) ==> s_contains(b, x, y)
}

/// The rectangle with no extent at the origin.
pub open spec fn s_zero_rect() -> Rect {
    Rect { min_x: 0, min_y: 0, max_x: 0, max_y: 0 }
}

/// Intersection of two rectangles, kept well-formed by collapsing an empty
/// result onto its lower-left corner.
pub open spec fn s_intersect(a: Rect, b: Rect) -> Rect {
    let nx = if a.min_x >= b.min_x {
        a.min_x
    } else {
        b.min_x
    };
    let ny = if a.min_y >= b.min_y {
        a.min_y
    } else {
        b.min_y
    };
    let mx = if a.max_x <= b.max_x {
        a.max_x
    } else {
        b.max_x
    };
    let my = if a.max_y <= b.max_y {
        a.max_y
    } else {
        b.max_y
    };
    Rect {
        min_x: nx,
        min_y: ny,
        max_x: if mx >= nx {
            mx
        } else {
            nx
        },
        max_y: if my >= ny {
            my
        } else {
            ny
        },
    }
}

impl Rect {
    /// Builds the zero rectangle.
    pub fn zero() -> (r: Rect)
        ensures
            r == s_zero_rect(),
    {
        Rect { min_x: 0, min_y: 0, max_x: 0, max_y: 0 }
    }

    /// Tests whether the point `(x, y)` lies inside `self`.
    pub fn contains(&self, x: i64, y: i64) -> (b: bool)
        ensures
            b == s_contains(*self, x as int, y as int),
    {
        self.min_x <= x && x < self.max_x && self.min_y <= y && y < self.max_y
    }

    /// Intersects `self` with `other`.
    pub fn intersect(&self, other: &Rect) -> (r: Rect)
        ensures
            r == s_intersect(*self, *other),
    {
        let nx = if self.min_x >= other.min_x {
            self.min_x
        } else {
            other.min_x
        };
        let ny = if self.min_y >= other.min_y {
            self.min_y
        } else {
            other.min_y
        };
        let mx = if self.max_x <= other.max_x {
            self.max_x
        } else {
            other.max_x
        };
        let my = if self.max_y <= other.max_y {
            self.max_y
        } else {
            other.max_y
        };
        Rect {
            min_x: nx,
            min_y: ny,
            max_x: if mx >= nx {
                mx
            } else {
                nx
            },
            max_y: if my >= ny {
                my
            } else {
                ny
            },
        }
    }
}

/// An intersection never reaches outside either argument.
pub proof fn lemma_intersect_sub(a: Rect, b: Rect)
    ensures
        s_rect_sub(s_intersect(a, b), a),
        s_rect_sub(s_intersect(a, b), b),
        rect_wf(a) && rect_wf(b) ==> rect_wf(s_intersect(a, b)),
{
}

/// A length in the style model.
#[derive(Clone, Copy, Debug, PartialEq, Eq, Structural)]
pub enum Val {
    /// Resolved from content or context; carries no number.
    Auto,
    /// A fixed length, subject to the global scale factor.
    Px(i64),
    /// A percentage of the containing block's size, in whole percent.
    Percent(i64),
    /// A percentage of the viewport width.
    Vw(i64),
    /// A percentage of the viewport height.
    Vh(i64),
}

/// A well-formed length: its payload lies in the range its unit allows.
pub open spec fn val_wf(v: Val) -> bool {
    match v {
        Val::Auto => true,
        Val::Px(p) => in_coord(p as int),
        Val::Percent(p) => -FACTOR_LIMIT <= p <= FACTOR_LIMIT,
        Val::Vw(p) => -FACTOR_LIMIT <= p <= FACTOR_LIMIT,
        Val::Vh(p) => -FACTOR_LIMIT <= p <= FACTOR_LIMIT,
    }
}

/// Whether a length resolves to a number at all.
pub open spec fn val_is_auto(v: Val) -> bool {
    v is Auto
}

/// The number a non-auto length resolves to, against a containing size
/// `basis`, the viewport `(vw, vh)` and the fixed-value scale `sc`
/// (in percent, 100 = identity).
pub open spec fn s_resolve(v: Val, basis: int, vw: int, vh: int, sc: int) -> int {
    match v {
        Val::Auto => 0,
        Val::Px(p) => s_scale(p as int, sc),
        Val::Percent(p) => s_scale(basis, p as int),
        Val::Vw(p) => s_scale(vw, p as int),
        Val::Vh(p) => s_scale(vh, p as int),
    }
}

/// Resolves a length; `Auto` resolves to nothing.
pub fn resolve_val(v: &Val, basis: i64, vw: i64, vh: i64, sc: i64) -> (r: Option<i64>)
    requires
        val_wf(*v),
        in_coord(basis as int),
        in_coord(vw as int),
        in_coord(vh as int),
        0 <= sc <= FACTOR_LIMIT,
    ensures
        r is Some <==> !val_is_auto(*v),
        r is Some ==> r->0 as int == s_resolve(*v, basis as int, vw as int, vh as int, sc as int),
{
    match v {
        Val::Auto => Option::None,
        Val::Px(p) => Option::Some(cscale(*p, sc)),
        Val::Percent(p) => Option::Some(signed_scale(basis, *p)),
        Val::Vw(p) => Option::Some(signed_scale(vw, *p)),
        Val::Vh(p) => Option::Some(signed_scale(vh, *p)),
    }
}

/// Percentage application with a possibly negative factor.
fn signed_scale(x: i64, num: i64) -> (r: i64)
    requires
        in_coord(x as int),
        -FACTOR_LIMIT <= num <= FACTOR_LIMIT,
    ensures
        r as int == s_scale(x as int, num as int),
{
    if num >= 0 {
        cscale(x, num)
    } else {
        let m = cscale(x, -num);
        -m
    }
}

/// Insets on the four sides of a box, used for padding and margins.
#[derive(Clone, Copy, Debug, PartialEq, Eq, Structural)]
pub struct UiRect {
    pub left: Val,
    pub right: Val,
    pub top: Val,
    pub bottom: Val,
}

/// All four insets are well-formed lengths.
pub open spec fn ui_rect_wf(r: UiRect) -> bool {
    val_wf(r.left) && val_wf(r.right) && val_wf(r.top) && val_wf(r.bottom)
}

impl UiRect {
    /// The all-zero inset.
    pub fn all_zero() -> (r: UiRect)
        ensures
            r == (UiRect { left: Val::Px(0), right: Val::Px(0), top: Val::Px(0), bottom: Val::Px(0) }),
    {
        UiRect { left: Val::Px(0), right: Val::Px(0), top: Val::Px(0), bottom: Val::Px(0) }
    }
}

/// The global multiplier applied to fixed (`Val::Px`) lengths, in percent:
/// `UiScale(100)` leaves them unchanged.
#[derive(Clone, Copy, Debug, PartialEq, Eq, Structural)]
pub struct UiScale(pub i64);

/// A usable scale factor.
pub open spec fn ui_scale_wf(s: UiScale) -> bool {
    0 <= s.0 <= FACTOR_LIMIT
}

impl Default for UiScale {
    /// The identity scale.
    fn default() -> (r: Self)
        ensures
            r.0 == 100,
    {
        UiScale(100)
    }
}

} // verus!
