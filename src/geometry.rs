use vstd::prelude::*;

verus! {

/// An axis-aligned rectangle on the integer grid: its top-left corner and its size.
#[derive(Clone, Copy, Debug, PartialEq, Eq, Structural)]
pub struct Rect {
    pub x: i32,
    pub y: i32,
    pub w: i32,
    pub h: i32,
}

/// A two-dimensional integer vector, used for positions and velocities.
#[derive(Clone, Copy, Debug, PartialEq, Eq, Structural)]
pub struct Vec2 {
    pub x: i32,
    pub y: i32,
}

pub open spec fn fits_i32(v: int) -> bool {
    i32::MIN <= v <= i32::MAX
}

pub open spec fn abs(v: int) -> int {
    if v < 0 {
        -v
    } else {
        v
    }
}

pub open spec fn min(a: int, b: int) -> int {
    if a <= b {
        a
    } else {
        b
    }
}

pub open spec fn max(a: int, b: int) -> int {
    if a >= b {
        a
    } else {
        b
    }
}

/// Length of the common part of the intervals `[a_lo, a_hi)` and `[b_lo, b_hi)`;
/// zero or negative when they share no interior point.
pub open spec fn span_overlap(a_lo: int, a_hi: int, b_lo: int, b_hi: int) -> int {
    min(a_hi, b_hi) - max(a_lo, b_lo)
}

/// The side toward which the second interval lies, seen from the first one:
/// `1` when its center is at or beyond the first one's center, `-1` otherwise.
pub open spec fn toward(a_lo: int, a_len: int, b_lo: int, b_len: int) -> int {
    if 2 * b_lo + b_len >= 2 * a_lo + a_len {
        1
    } else {
        -1
    }
}

/// A coordinate moved by `depth` against the direction `d`.
pub open spec fn push(pos: int, d: int, depth: int) -> int {
    if d == 1 {
        pos - depth
    } else {
        pos + depth
    }
}

/// A velocity component with its magnitude kept, pointing against the direction `d`.
pub open spec fn away(d: int, speed: int) -> int {
    if d == 1 {
        -abs(speed)
    } else {
        abs(speed)
    }
}

/// A velocity component that already points against the direction `d`.
pub open spec fn leaving(d: int, speed: int) -> bool {
    if d == 1 {
        speed < 0
    } else {
        speed > 0
    }
}

/// Neither interval strictly encloses the other: the pushed-out one ends up beside
/// the other one rather than still inside it.
pub open spec fn staggered(a_lo: int, a_hi: int, b_lo: int, b_hi: int) -> bool {
    (a_lo <= b_lo && a_hi <= b_hi) || (b_lo <= a_lo && b_hi <= a_hi)
}

/// `v` held within `[lo, hi]`.
pub open spec fn clamp(v: int, lo: int, hi: int) -> int {
    if v < lo {
        lo
    } else if v > hi {
        hi
    } else {
        v
    }
}

/// Whole pixels covered in `dt_ms` milliseconds at `speed` pixels per second,
/// rounded toward zero.
pub open spec fn travel(speed: int, dt_ms: int) -> int {
    if speed >= 0 {
        speed * dt_ms / 1000
    } else {
        -((-speed) * dt_ms / 1000)
    }
}

/// Computes `clamp(pos + travel(speed, dt_ms), i32::MIN, hi)`: a coordinate advanced by
/// one time step, kept representable.
pub fn advance(pos: i32, speed: i32, dt_ms: u32, hi: i32) -> (r: i32)
    ensures
        r == clamp(pos + travel(speed as int, dt_ms as int), i32::MIN as int, hi as int),
{
    let magnitude: i64 = if speed < 0 {
        -(speed as i64)
    } else {
        speed as i64
    };
    assert(magnitude * (dt_ms as i64) <= 0x8000_0000 * 0xffff_ffff) by (nonlinear_arith)
        requires
            0 <= magnitude <= 0x8000_0000,
            0 <= dt_ms <= 0xffff_ffff,
    ;
    assert(0 <= magnitude * (dt_ms as i64)) by (nonlinear_arith)
        requires
            0 <= magnitude,
            0 <= dt_ms,
    ;
    let dist: i64 = magnitude * (dt_ms as i64) / 1000;
    let moved: i64 = if speed < 0 {
        pos as i64 - dist
    } else {
        pos as i64 + dist
    };
    if moved < i32::MIN as i64 {
        i32::MIN
    } else if moved > hi as i64 {
        hi
    } else {
        moved as i32
    }
}

impl Rect {
    pub open spec fn right(self) -> int {
        self.x + self.w
    }

    pub open spec fn bottom(self) -> int {
        self.y + self.h
    }

    /// Sizes are non-negative and the far edges are representable.
    pub open spec fn wf(self) -> bool {
        0 <= self.w && 0 <= self.h && fits_i32(self.right()) && fits_i32(self.bottom())
    }

    pub fn new(x: i32, y: i32, w: i32, h: i32) -> (r: Rect)
        ensures
            r == (Rect { x, y, w, h }),
    {
        Rect { x, y, w, h }
    }
}

/// Width of the intersection of two rectangles (positive when they overlap horizontally).
pub open spec fn overlap_w(a: Rect, b: Rect) -> int {
    span_overlap(a.x as int, a.right(), b.x as int, b.right())
}

/// Height of the intersection of two rectangles (positive when they overlap vertically).
pub open spec fn overlap_h(a: Rect, b: Rect) -> int {
    span_overlap(a.y as int, a.bottom(), b.y as int, b.bottom())
}

/// The two rectangles share a region of positive area.
pub open spec fn overlaps(a: Rect, b: Rect) -> bool {
    overlap_w(a, b) > 0 && overlap_h(a, b) > 0
}

/// An overlap is resolved on the y-axis only when the intersection is strictly wider
/// than tall; a square intersection is resolved on the x-axis.
pub open spec fn resolves_vertically(a: Rect, b: Rect) -> bool {
    overlap_w(a, b) > overlap_h(a, b)
}

pub open spec fn dir_x(a: Rect, b: Rect) -> int {
    toward(a.x as int, a.w as int, b.x as int, b.w as int)
}

pub open spec fn dir_y(a: Rect, b: Rect) -> int {
    toward(a.y as int, a.h as int, b.y as int, b.h as int)
}

/// Where an overlapping moving rectangle is pushed to: out of `b` along the resolved
/// axis by the penetration depth, away from `b`'s center.
pub open spec fn corrected_x(a: Rect, b: Rect) -> int {
    if resolves_vertically(a, b) {
        a.x as int
    } else {
        push(a.x as int, dir_x(a, b), overlap_w(a, b))
    }
}

pub open spec fn corrected_y(a: Rect, b: Rect) -> int {
    if resolves_vertically(a, b) {
        push(a.y as int, dir_y(a, b), overlap_h(a, b))
    } else {
        a.y as int
    }
}

/// The velocity after an overlap: on the resolved axis its magnitude kept and its
/// direction set away from `b`; the other component unchanged.
pub open spec fn reflected_vx(a: Rect, v: Vec2, b: Rect) -> int {
    if resolves_vertically(a, b) {
        v.x as int
    } else {
        away(dir_x(a, b), v.x as int)
    }
}

pub open spec fn reflected_vy(a: Rect, v: Vec2, b: Rect) -> int {
    if resolves_vertically(a, b) {
        away(dir_y(a, b), v.y as int)
    } else {
        v.y as int
    }
}

/// The values that a resolution stores are representable.
pub open spec fn resolve_fits(a: Rect, v: Vec2, b: Rect) -> bool {
    overlaps(a, b) ==> {
        &&& fits_i32(corrected_x(a, b))
        &&& fits_i32(corrected_x(a, b) + a.w)
        &&& fits_i32(corrected_y(a, b))
        &&& fits_i32(corrected_y(a, b) + a.h)
        &&& fits_i32(reflected_vx(a, v, b))
        &&& fits_i32(reflected_vy(a, v, b))
    }
}

/// The moving rectangle, its velocity and the hit flag after one resolution.
pub open spec fn resolve_outcome(a: Rect, v: Vec2, b: Rect) -> (Rect, Vec2, bool) {
    if overlaps(a, b) {
        (
            Rect { x: corrected_x(a, b) as i32, y: corrected_y(a, b) as i32, w: a.w, h: a.h },
            Vec2 { x: reflected_vx(a, v, b) as i32, y: reflected_vy(a, v, b) as i32 },
            true,
        )
    } else {
        (a, v, false)
    }
}

fn max_i64(a: i64, b: i64) -> (r: i64)
    ensures
        r == max(a as int, b as int),
{
    if a >= b {
        a
    } else {
        b
    }
}

fn min_i64(a: i64, b: i64) -> (r: i64)
    ensures
        r == min(a as int, b as int),
{
    if a <= b {
        a
    } else {
        b
    }
}

/// Axis-aligned collision with positional correction. When `moving` and `stationary`
/// overlap, `moving` is pushed out along the axis of least penetration and `velocity`
/// is turned away from `stationary` on that axis; the result says whether they did.
pub fn resolve_collision(moving: &mut Rect, velocity: &mut Vec2, stationary: &Rect) -> (hit: bool)
    requires
        old(moving).wf(),
        stationary.wf(),
        resolve_fits(*old(moving), *old(velocity), *stationary),
    ensures
        (*final(moving), *final(velocity), hit) == resolve_outcome(
            *old(moving),
            *old(velocity),
            *stationary,
        ),
        final(moving).wf(),
{
    let a = *moving;
    let b = *stationary;
    let a_right = a.x as i64 + a.w as i64;
    let a_bottom = a.y as i64 + a.h as i64;
    let b_right = b.x as i64 + b.w as i64;
    let b_bottom = b.y as i64 + b.h as i64;
    let iw = min_i64(a_right, b_right) - max_i64(a.x as i64, b.x as i64);
    let ih = min_i64(a_bottom, b_bottom) - max_i64(a.y as i64, b.y as i64);
    if iw <= 0 || ih <= 0 {
        return false;
    }
    if iw > ih {
        let speed: i64 = if velocity.y < 0 {
            -(velocity.y as i64)
        } else {
            velocity.y as i64
        };
        if 2 * (b.y as i64) + b.h as i64 >= 2 * (a.y as i64) + a.h as i64 {
            moving.y = (a.y as i64 - ih) as i32;
            velocity.y = (-speed) as i32;
        } else {
            moving.y = (a.y as i64 + ih) as i32;
            velocity.y = speed as i32;
        }
    } else {
        let speed: i64 = if velocity.x < 0 {
            -(velocity.x as i64)
        } else {
            velocity.x as i64
        };
        if 2 * (b.x as i64) + b.w as i64 >= 2 * (a.x as i64) + a.w as i64 {
            moving.x = (a.x as i64 - iw) as i32;
            velocity.x = (-speed) as i32;
        } else {
            moving.x = (a.x as i64 + iw) as i32;
            velocity.x = speed as i32;
        }
    }
    true
}

/// The outcome of a resolution inside the game loop: applied only when its values are
/// representable, otherwise no hit and nothing changed.
pub open spec fn guarded_outcome(a: Rect, v: Vec2, b: Rect) -> (Rect, Vec2, bool) {
    if resolve_fits(a, v, b) {
        resolve_outcome(a, v, b)
    } else {
        (a, v, false)
    }
}

fn fits_i64(v: i64) -> (r: bool)
    ensures
        r == fits_i32(v as int),
{
    i32::MIN as i64 <= v && v <= i32::MAX as i64
}

/// Whether resolving `a` (moving with `v`) against `b` stores representable values.
pub fn resolution_fits(a: &Rect, v: &Vec2, b: &Rect) -> (r: bool)
    requires
        a.wf(),
        b.wf(),
    ensures
        r == resolve_fits(*a, *v, *b),
{
    let a_right = a.x as i64 + a.w as i64;
    let a_bottom = a.y as i64 + a.h as i64;
    let b_right = b.x as i64 + b.w as i64;
    let b_bottom = b.y as i64 + b.h as i64;
    let iw = min_i64(a_right, b_right) - max_i64(a.x as i64, b.x as i64);
    let ih = min_i64(a_bottom, b_bottom) - max_i64(a.y as i64, b.y as i64);
    if iw <= 0 || ih <= 0 {
        return true;
    }
    let (x, y, vx, vy) = if iw > ih {
        let speed: i64 = if v.y < 0 {
            -(v.y as i64)
        } else {
            v.y as i64
        };
        if 2 * (b.y as i64) + b.h as i64 >= 2 * (a.y as i64) + a.h as i64 {
            (a.x as i64, a.y as i64 - ih, v.x as i64, -speed)
        } else {
            (a.x as i64, a.y as i64 + ih, v.x as i64, speed)
        }
    } else {
        let speed: i64 = if v.x < 0 {
            -(v.x as i64)
        } else {
            v.x as i64
        };
        if 2 * (b.x as i64) + b.w as i64 >= 2 * (a.x as i64) + a.w as i64 {
            (a.x as i64 - iw, a.y as i64, -speed, v.y as i64)
        } else {
            (a.x as i64 + iw, a.y as i64, speed, v.y as i64)
        }
    };
    fits_i64(x) && fits_i64(x + a.w as i64) && fits_i64(y) && fits_i64(y + a.h as i64) && fits_i64(
        vx,
    ) && fits_i64(vy)
}

/// Resolves `moving` against `stationary` when the result is representable; otherwise
/// reports no hit and changes nothing.
pub fn resolve_if_fits(moving: &mut Rect, velocity: &mut Vec2, stationary: &Rect) -> (hit: bool)
    requires
        old(moving).wf(),
        stationary.wf(),
    ensures
        (*final(moving), *final(velocity), hit) == guarded_outcome(
            *old(moving),
            *old(velocity),
            *stationary,
        ),
        final(moving).wf(),
{
    if resolution_fits(moving, velocity, stationary) {
        resolve_collision(moving, velocity, stationary)
    } else {
        false
    }
}

/// Rectangles that do not overlap are left alone: no hit, position and velocity
/// unchanged.
pub proof fn lemma_no_overlap_no_change(a: Rect, v: Vec2, b: Rect)
    requires
        !overlaps(a, b),
    ensures
        resolve_outcome(a, v, b) == (a, v, false),
{
}

proof fn lemma_push_clears_span(a_lo: int, a_len: int, b_lo: int, b_len: int)
    requires
        0 <= a_len,
        0 <= b_len,
        span_overlap(a_lo, a_lo + a_len, b_lo, b_lo + b_len) > 0,
        staggered(a_lo, a_lo + a_len, b_lo, b_lo + b_len),
    ensures
        ({
            let d = toward(a_lo, a_len, b_lo, b_len);
            let depth = span_overlap(a_lo, a_lo + a_len, b_lo, b_lo + b_len);
            span_overlap(push(a_lo, d, depth), push(a_lo, d, depth) + a_len, b_lo, b_lo + b_len)
                <= 0
        }),
{
    let depth = span_overlap(a_lo, a_lo + a_len, b_lo, b_lo + b_len);
    if toward(a_lo, a_len, b_lo, b_len) == 1 {
        assert(a_lo <= b_lo && a_lo + a_len <= b_lo + b_len);
    } else {
        assert(b_lo <= a_lo && b_lo + b_len <= a_lo + a_len);
    }
}

/// An overlap is reported as a hit, and the correction leaves the two rectangles apart
/// whenever, on the resolved axis, neither one's extent strictly encloses the other's
/// (the inputs on which a push by the penetration depth can separate them).
pub proof fn lemma_overlap_separates(a: Rect, v: Vec2, b: Rect)
    requires
        a.wf(),
        b.wf(),
        overlaps(a, b),
        resolve_fits(a, v, b),
        resolves_vertically(a, b) ==> staggered(
            a.y as int,
            a.bottom(),
            b.y as int,
            b.bottom(),
        ),
        !resolves_vertically(a, b) ==> staggered(a.x as int, a.right(), b.x as int, b.right()),
    ensures
        resolve_outcome(a, v, b).2,
        !overlaps(resolve_outcome(a, v, b).0, b),
{
    let r = resolve_outcome(a, v, b).0;
    if resolves_vertically(a, b) {
        lemma_push_clears_span(a.y as int, a.h as int, b.y as int, b.h as int);
        assert(r.y == corrected_y(a, b));
        assert(overlap_h(r, b) <= 0);
    } else {
        lemma_push_clears_span(a.x as int, a.w as int, b.x as int, b.w as int);
        assert(r.x == corrected_x(a, b));
        assert(overlap_w(r, b) <= 0);
    }
}

/// A square intersection is resolved horizontally: only `x` and the velocity's `x`
/// may change.
pub proof fn lemma_square_overlap_is_horizontal(a: Rect, v: Vec2, b: Rect)
    requires
        overlaps(a, b),
        overlap_w(a, b) == overlap_h(a, b),
        resolve_fits(a, v, b),
    ensures
        resolve_outcome(a, v, b).0.y == a.y,
        resolve_outcome(a, v, b).1.y == v.y,
        resolve_outcome(a, v, b).0.x == push(a.x as int, dir_x(a, b), overlap_w(a, b)),
        resolve_outcome(a, v, b).1.x == away(dir_x(a, b), v.x as int),
{
}

/// On a hit, the velocity keeps its magnitude and, when its component on the resolved
/// axis was not already leaving `b`, exactly that component changes sign.
pub proof fn lemma_reflection_flips_one_axis(a: Rect, v: Vec2, b: Rect)
    requires
        overlaps(a, b),
        resolve_fits(a, v, b),
        resolves_vertically(a, b) ==> !leaving(dir_y(a, b), v.y as int),
        !resolves_vertically(a, b) ==> !leaving(dir_x(a, b), v.x as int),
    ensures
        ({
            let r = resolve_outcome(a, v, b).1;
            &&& r.x * r.x + r.y * r.y == v.x * v.x + v.y * v.y
            &&& resolves_vertically(a, b) ==> r.y == -v.y && r.x == v.x
            &&& !resolves_vertically(a, b) ==> r.x == -v.x && r.y == v.y
        }),
{
    let r = resolve_outcome(a, v, b).1;
    if resolves_vertically(a, b) {
        assert(fits_i32(reflected_vy(a, v, b)));
        assert(r.y == reflected_vy(a, v, b));
        assert(r.x == v.x);
        assert(r.y == -v.y) by {
            if dir_y(a, b) == 1 {
                assert(abs(v.y as int) == v.y);
                assert(away(dir_y(a, b), v.y as int) == -v.y);
            } else {
                assert(dir_y(a, b) == -1);
                assert(v.y <= 0);
                assert(abs(v.y as int) == -v.y);
                assert(away(dir_y(a, b), v.y as int) == -v.y);
            }
        }
        assert(r.y * r.y == v.y * v.y) by (nonlinear_arith)
            requires
                r.y == -v.y,
        ;
    } else {
        assert(fits_i32(reflected_vx(a, v, b)));
        assert(r.x == reflected_vx(a, v, b));
        assert(r.y == v.y);
        assert(r.x == -v.x) by {
            if dir_x(a, b) == 1 {
                assert(abs(v.x as int) == v.x);
                assert(away(dir_x(a, b), v.x as int) == -v.x);
            } else {
                assert(dir_x(a, b) == -1);
                assert(v.x <= 0);
                assert(abs(v.x as int) == -v.x);
                assert(away(dir_x(a, b), v.x as int) == -v.x);
            }
        }
        assert(r.x * r.x == v.x * v.x) by (nonlinear_arith)
            requires
                r.x == -v.x,
        ;
    }
}

/// A second resolution against the same rectangle, after one that separated them,
/// is a no-op that reports no hit.
pub proof fn lemma_second_resolve_is_noop(a: Rect, v: Vec2, b: Rect)
    requires
        a.wf(),
        b.wf(),
        resolve_fits(a, v, b),
        overlaps(a, b) && resolves_vertically(a, b) ==> staggered(
            a.y as int,
            a.bottom(),
            b.y as int,
            b.bottom(),
        ),
        overlaps(a, b) && !resolves_vertically(a, b) ==> staggered(
            a.x as int,
            a.right(),
            b.x as int,
            b.right(),
        ),
    ensures
        ({
            let (a1, v1, hit1) = resolve_outcome(a, v, b);
            resolve_outcome(a1, v1, b) == (a1, v1, false)
        }),
{
    if overlaps(a, b) {
        lemma_overlap_separates(a, v, b);
    }
}

} // verus!
