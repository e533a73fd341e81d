//! Grid geometry: points, vectors, grid alignment and collision.

use vstd::prelude::*;
use vstd::arithmetic::div_mod::{
    lemma_fundamental_div_mod, lemma_fundamental_div_mod_converse, lemma_mod_bound,
    lemma_mod_multiples_basic,
};
use vstd::arithmetic::mul::{
    lemma_mul_inequality, lemma_mul_is_commutative, lemma_mul_is_distributive_sub,
};

verus! {

/// Grid size: width and height of each grid cell.
///
/// Almost all game characters sit on grid centers `(n * GS, m * GS)`,
/// and every character occupies a square of GS x GS.
pub const GS: i32 = 60;

/// Absolute bound on the playfield coordinates the simulation works
/// in.  It is far outside any reachable stage; movement that would
/// leave the envelope is vetoed like movement into a wall, which keeps
/// every position computation inside machine-integer range.
pub const COORD_LIMIT: i32 = 1_000_000_000;

/// Whether a position lies inside the simulation's coordinate
/// envelope.
pub open spec fn in_bounds(p: Point) -> bool {
    &&& -COORD_LIMIT <= p.x <= COORD_LIMIT
    &&& -COORD_LIMIT <= p.y <= COORD_LIMIT
}

/// Cardinal direction.
#[derive(Clone, Copy, Debug, PartialEq, Eq, Structural)]
pub enum Direction {
    N,
    W,
    S,
    E,
}

/// An `(x, y)` integer pair, used both as an absolute position and as a
/// displacement vector.  All arithmetic on it is exact integer math.
#[derive(Clone, Copy, Debug, PartialEq, Eq, Structural)]
pub struct Point {
    pub x: i32,
    pub y: i32,
}

/// Magnitude of an integer.
pub open spec fn mag(v: int) -> int {
    if v < 0 {
        -v
    } else {
        v
    }
}

/// Sign of an integer: -1, 0 or 1.
pub open spec fn sgn(v: int) -> int {
    if v < 0 {
        -1
    } else if v > 0 {
        1
    } else {
        0
    }
}

/// Division rounding toward zero, as Rust's `/` on machine integers does
/// (the spec-level `/` rounds toward minus infinity instead).
pub open spec fn trunc_div(a: int, d: int) -> int {
    if a >= 0 {
        a / d
    } else {
        -((-a) / d)
    }
}

/// One coordinate snapped to the nearest multiple of `GS`, by the fixed
/// policy `(v + GS/2) / GS * GS` in truncating integer arithmetic.
/// Near zero this rounds negative coordinates asymmetrically; that is
/// the intended, reproducible policy, not an accident.
pub open spec fn align_coord(v: int) -> int {
    trunc_div(v + GS / 2, GS as int) * GS
}

/// A coordinate that is an exact multiple of `GS`.
pub open spec fn aligned_coord(v: int) -> bool {
    v % (GS as int) == 0
}

/// A position whose two coordinates are exact multiples of `GS`.
pub open spec fn is_aligned(p: Point) -> bool {
    aligned_coord(p.x as int) && aligned_coord(p.y as int)
}

/// The point with the given mathematical coordinates; exact only when
/// both fit in the coordinate type.
pub open spec fn pt(x: int, y: int) -> Point {
    Point { x: x as i32, y: y as i32 }
}

/// `p` snapped to the nearest grid point.
pub open spec fn spec_align(p: Point) -> Point {
    pt(align_coord(p.x as int), align_coord(p.y as int))
}

/// Two GS x GS squares anchored at `a` and `b` overlap strictly:
/// exact edge contact does not collide.
pub open spec fn spec_collides(a: Point, b: Point) -> bool {
    &&& -(GS as int) < a.x - b.x < GS as int
    &&& -(GS as int) < a.y - b.y < GS as int
}

/// Length of a vector: the larger coordinate magnitude.
pub open spec fn spec_length(p: Point) -> int {
    if mag(p.x as int) > mag(p.y as int) {
        mag(p.x as int)
    } else {
        mag(p.y as int)
    }
}

/// One coordinate of a vector clipped to magnitude `l`.
pub open spec fn clip_coord(v: int, l: int) -> int {
    if mag(v) > l {
        sgn(v) * l
    } else {
        v
    }
}

/// Direction of a vector, x taking precedence over y; `None` for the
/// zero vector.
pub open spec fn spec_cardinal(p: Point) -> Option<Direction> {
    if p.x < 0 {
        Some(Direction::W)
    } else if p.x > 0 {
        Some(Direction::E)
    } else if p.y < 0 {
        Some(Direction::N)
    } else if p.y > 0 {
        Some(Direction::S)
    } else {
        None
    }
}

/// The vector that `adjust_vector_to_grid` turns `v` into: unchanged
/// when `v` is zero, when `p` already sits on a grid point, or when `v`
/// points more than 90 degrees away from the nearest grid point;
/// otherwise the vector toward that grid point, clipped per axis to
/// `v`'s length.
pub open spec fn spec_adjust(p: Point, v: Point) -> Point {
    let gx = align_coord(p.x as int) - p.x;
    let gy = align_coord(p.y as int) - p.y;
    let speed = spec_length(v);
    if (v.x == 0 && v.y == 0) || (gx == 0 && gy == 0) {
        v
    } else if gx * v.x + gy * v.y >= 0 {
        pt(clip_coord(gx, speed), clip_coord(gy, speed))
    } else {
        v
    }
}

/// Where a snapped coordinate lands relative to the original: strictly
/// above `v - GS/2` and strictly below `v + 3*GS/2`, and always an
/// exact multiple of `GS`.
pub proof fn lemma_align_coord_bounds(v: int)
    ensures
        v - 30 < align_coord(v) < v + 90,
        aligned_coord(align_coord(v)),
{
    let t = v + 30;
    if t >= 0 {
        lemma_fundamental_div_mod(t, 60);
        lemma_mod_bound(t, 60);
        lemma_mod_multiples_basic(t / 60, 60);
    } else {
        lemma_fundamental_div_mod(-t, 60);
        lemma_mod_bound(-t, 60);
        lemma_mod_multiples_basic(-((-t) / 60), 60);
    }
}

/// A product of two magnitude-bounded integers is itself bounded.
pub proof fn lemma_mul_mag_bound(a: int, b: int, ma: int, mb: int)
    by (nonlinear_arith)
    requires
        mag(a) <= ma,
        mag(b) <= mb,
    ensures
        -(ma * mb) <= a * b <= ma * mb,
{
}

/// The adjusted movement vector is no longer than the raw one, as
/// long as the raw one is at least a cell and a half long on the
/// given bound.
pub proof fn lemma_adjust_bounded(p: Point, v: Point, m: int)
    requires
        mag(v.x as int) <= m,
        mag(v.y as int) <= m,
        90 <= m <= 0x7fff_ffff,
    ensures
        mag(spec_adjust(p, v).x as int) <= m,
        mag(spec_adjust(p, v).y as int) <= m,
{
    lemma_align_coord_bounds(p.x as int);
    lemma_align_coord_bounds(p.y as int);
    let gx = align_coord(p.x as int) - p.x;
    let gy = align_coord(p.y as int) - p.y;
    let sp = spec_length(v);
    assert(0 <= sp <= m);
    assert(sgn(gx) * sp == if gx < 0 { -sp } else if gx > 0 { sp } else { 0int });
    assert(sgn(gy) * sp == if gy < 0 { -sp } else if gy > 0 { sp } else { 0int });
    assert(mag(clip_coord(gx, sp)) <= m);
    assert(mag(clip_coord(gy, sp)) <= m);
}

/// A snapped coordinate of an `i32` coordinate fits in `i32` itself.
pub proof fn lemma_align_coord_fits(v: int)
    requires
        i32::MIN <= v <= i32::MAX,
    ensures
        i32::MIN < align_coord(v) < i32::MAX,
{
    lemma_align_coord_bounds(v);
    let t = v + 30;
    if t >= 0 {
        assert(align_coord(v) >= 0) by {
            lemma_fundamental_div_mod(t, 60);
            lemma_mod_bound(t, 60);
            lemma_mul_inequality(0, t / 60, 60);
        };
        assert(t / 60 <= 35791394) by {
            if t / 60 >= 35791395 {
                lemma_mul_inequality(35791395, t / 60, 60);
                lemma_fundamental_div_mod(t, 60);
                lemma_mod_bound(t, 60);
            }
        };
        lemma_mul_inequality(t / 60, 35791394, 60);
    }
}

/// Law: snapping a coordinate to the grid is idempotent.  The
/// truncating rounding policy breaks this once a coordinate reaches
/// `-3*GS/2` (for example, `-120` snaps to `-60`, which snaps on to
/// `0`), so the law is stated for the coordinates above that.
pub proof fn lemma_align_coord_idempotent(v: int)
    requires
        v > -90,
    ensures
        align_coord(align_coord(v)) == align_coord(v),
{
    let t = v + 30;
    let a = align_coord(v);
    if t >= 0 {
        lemma_fundamental_div_mod(t, 60);
        lemma_mod_bound(t, 60);
        lemma_mul_inequality(0, t / 60, 60);
        assert(a == 60 * (t / 60));
    } else {
        assert(0 < -t < 60);
        lemma_fundamental_div_mod_converse(-t, 60, 0, -t);
        assert(a == 0);
    }
    let k = if t >= 0 {
        t / 60
    } else {
        0int
    };
    assert(a == 60 * k && k >= 0);
    lemma_fundamental_div_mod_converse(60 * k + 30, 60, k, 30);
    assert(trunc_div(a + 30, 60) == k);
    lemma_mul_is_commutative(k, 60);
}

/// Law: grid alignment of a point is idempotent, away from the
/// asymmetric band that truncating rounding creates below `-3*GS/2`
/// on each axis.
pub proof fn lemma_align_to_grid_idempotent(p: Point)
    requires
        p.x > -90,
        p.y > -90,
    ensures
        spec_align(spec_align(p)) == spec_align(p),
{
    lemma_align_coord_fits(p.x as int);
    lemma_align_coord_fits(p.y as int);
    lemma_align_coord_idempotent(p.x as int);
    lemma_align_coord_idempotent(p.y as int);
}

/// Law: two grid-aligned points collide exactly when they are the same
/// point: same-size grid-aligned boxes either fully overlap or do not
/// overlap at all.
pub proof fn lemma_aligned_collision_is_equality(a: Point, b: Point)
    requires
        is_aligned(a),
        is_aligned(b),
    ensures
        spec_collides(a, b) <==> a == b,
{
    if spec_collides(a, b) {
        lemma_aligned_close_coords_equal(a.x as int, b.x as int);
        lemma_aligned_close_coords_equal(a.y as int, b.y as int);
    }
}

/// Two multiples of `GS` strictly closer to each other than `GS` are
/// equal.
proof fn lemma_aligned_close_coords_equal(u: int, w: int)
    requires
        aligned_coord(u),
        aligned_coord(w),
        -60 < u - w < 60,
    ensures
        u == w,
{
    lemma_fundamental_div_mod(u, 60);
    lemma_fundamental_div_mod(w, 60);
    let qu = u / 60;
    let qw = w / 60;
    assert(u - w == 60 * (qu - qw)) by {
        lemma_mul_is_distributive_sub(60, qu, qw);
    };
    if qu - qw >= 1 {
        lemma_mul_inequality(1, qu - qw, 60);
        lemma_mul_is_commutative(qu - qw, 60);
        assert(false);
    }
    if qw - qu >= 1 {
        lemma_mul_inequality(1, qw - qu, 60);
        lemma_mul_is_commutative(qw - qu, 60);
        assert(false);
    }
}

impl Point {
    /// Construct a point with coordinates `x`, `y`.
    pub fn new(x: i32, y: i32) -> (r: Self)
        ensures
            r == (Point { x, y }),
    {
        Point { x, y }
    }

    /// The nearest grid point, under the fixed truncating policy of
    /// `align_coord`.
    pub fn align_to_grid(&self) -> (r: Point)
        ensures
            r == spec_align(*self),
            r.x as int == align_coord(self.x as int),
            r.y as int == align_coord(self.y as int),
    {
        Point { x: align_coord_exec(self.x), y: align_coord_exec(self.y) }
    }

    /// Whether the point equals `(0, 0)`.
    pub fn is_zero(&self) -> (r: bool)
        ensures
            r == (self.x == 0 && self.y == 0),
    {
        self.x == 0 && self.y == 0
    }

    /// Length of the vector: the larger coordinate magnitude.
    pub fn length(&self) -> (r: i32)
        requires
            self.x > i32::MIN,
            self.y > i32::MIN,
        ensures
            r as int == spec_length(*self),
    {
        let ax: i32 = if self.x < 0 {
            -self.x
        } else {
            self.x
        };
        let ay: i32 = if self.y < 0 {
            -self.y
        } else {
            self.y
        };
        if ax > ay {
            ax
        } else {
            ay
        }
    }

    /// Abstract direction N/W/S/E of the vector.
    pub fn cardinal_direction(&self) -> (r: Option<Direction>)
        ensures
            r == spec_cardinal(*self),
    {
        if self.x < 0 {
            Some(Direction::W)
        } else if self.x > 0 {
            Some(Direction::E)
        } else if self.y < 0 {
            Some(Direction::N)
        } else if self.y > 0 {
            Some(Direction::S)
        } else {
            None
        }
    }

    /// The vector clipped, axis by axis, to magnitude `length`.
    pub fn clip_length(&self, length: i32) -> (r: Point)
        requires
            length > i32::MIN,
        ensures
            r.x as int == clip_coord(self.x as int, length as int),
            r.y as int == clip_coord(self.y as int, length as int),
    {
        Point {
            x: clip_coord_exec(self.x, length),
            y: clip_coord_exec(self.y, length),
        }
    }

    /// The point as a tuple `(x, y)`.
    pub fn to_tuple(&self) -> (r: (i32, i32))
        ensures
            r == (self.x, self.y),
    {
        (self.x, self.y)
    }

    /// The vector from this point toward the nearest grid point.
    pub fn vector_toward_grid(&self) -> (r: Point)
        ensures
            r.x as int == align_coord(self.x as int) - self.x,
            r.y as int == align_coord(self.y as int) - self.y,
    {
        proof {
            lemma_align_coord_bounds(self.x as int);
            lemma_align_coord_bounds(self.y as int);
            lemma_align_coord_fits(self.x as int);
            lemma_align_coord_fits(self.y as int);
        }
        let g = self.align_to_grid();
        Point {
            x: (g.x as i64 - self.x as i64) as i32,
            y: (g.y as i64 - self.y as i64) as i32,
        }
    }

    /// Whether the GS x GS squares at the two points strictly overlap.
    pub fn collides_with(&self, pnt: Point) -> (r: bool)
        ensures
            r == spec_collides(*self, pnt),
    {
        let dx: i64 = self.x as i64 - pnt.x as i64;
        let dy: i64 = self.y as i64 - pnt.y as i64;
        -(GS as i64) < dx && dx < GS as i64 && -(GS as i64) < dy && dy < GS as i64
    }

    /// Adjust a movement vector so that it steers toward the nearest
    /// grid point whenever it already points at most 90 degrees away
    /// from it (the inner product with the to-grid vector is
    /// non-negative), clipped axis by axis to the original length;
    /// otherwise, or when there is nothing to correct, the vector is
    /// returned unchanged.
    pub fn adjust_vector_to_grid(&self, v: Point) -> (r: Point)
        ensures
            r == spec_adjust(*self, v),
    {
        let gv = self.vector_toward_grid();
        if (v.x == 0 && v.y == 0) || (gv.x == 0 && gv.y == 0) {
            return v;
        }
        proof {
            lemma_align_coord_bounds(self.x as int);
            lemma_align_coord_bounds(self.y as int);
            lemma_mul_mag_bound(gv.x as int, v.x as int, 90, 0x8000_0000);
            lemma_mul_mag_bound(gv.y as int, v.y as int, 90, 0x8000_0000);
        }
        let dot: i64 = gv.x as i64 * v.x as i64 + gv.y as i64 * v.y as i64;
        if dot >= 0 {
            let ax = exec_mag64(v.x);
            let ay = exec_mag64(v.y);
            let speed: i64 = if ax > ay {
                ax
            } else {
                ay
            };
            let cx: i64 = clip64(gv.x as i64, speed);
            let cy: i64 = clip64(gv.y as i64, speed);
            proof {
                let gx = align_coord(self.x as int) - self.x;
                let gy = align_coord(self.y as int) - self.y;
                let sp = speed as int;
                assert(sp >= 0);
                assert(sgn(gx) * sp == if gx < 0 { -sp } else if gx > 0 { sp } else { 0int });
                assert(sgn(gy) * sp == if gy < 0 { -sp } else if gy > 0 { sp } else { 0int });
                assert(-90 < clip_coord(gx, sp) < 90);
                assert(-90 < clip_coord(gy, sp) < 90);
            }
            Point { x: cx as i32, y: cy as i32 }
        } else {
            v
        }
    }
}

/// One coordinate clipped to magnitude `l`, in wide arithmetic.
fn clip64(v: i64, l: i64) -> (r: i64)
    requires
        -0x8000_0000i64 <= v <= 0x8000_0000i64,
        0 <= l <= 0x8000_0000i64,
    ensures
        r as int == clip_coord(v as int, l as int),
{
    let av: i64 = if v < 0 {
        -v
    } else {
        v
    };
    if av > l {
        if v > 0 {
            l
        } else if v < 0 {
            -l
        } else {
            0
        }
    } else {
        v
    }
}

/// The coordinate snapped to the nearest multiple of `GS`.
fn align_coord_exec(v: i32) -> (r: i32)
    ensures
        r as int == align_coord(v as int),
{
    proof {
        lemma_align_coord_fits(v as int);
    }
    let t: i64 = v as i64 + (GS as i64) / 2;
    let q: i64 = if t >= 0 {
        t / (GS as i64)
    } else {
        -((-t) / (GS as i64))
    };
    (q * (GS as i64)) as i32
}

/// Magnitude of a coordinate, widened so that `i32::MIN` needs no
/// special case.
fn exec_mag64(v: i32) -> (r: i64)
    ensures
        r as int == mag(v as int),
{
    if v < 0 {
        -(v as i64)
    } else {
        v as i64
    }
}

/// One coordinate of a vector clipped to magnitude `l`.
fn clip_coord_exec(v: i32, l: i32) -> (r: i32)
    requires
        l > i32::MIN,
    ensures
        r as int == clip_coord(v as int, l as int),
{
    let av: i64 = exec_mag64(v);
    if av > l as i64 {
        if v > 0 {
            l
        } else if v < 0 {
            -l
        } else {
            0
        }
    } else {
        v
    }
}

} // verus!
