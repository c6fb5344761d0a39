//! Lines on the grid: the interpolated line, which may step diagonally, and
//! the orthogonal line, which never does.
use vstd::prelude::*;
use crate::geometry::grid_rect::GridRect;
use crate::geometry::grid_shape::{
    GridShape, GridShapeIterator, PointIter, lemma_touches, spec_encloses, spec_touches,
};
use crate::math::{
    isqrt, lemma_round_div_between, lemma_round_div_exact, lemma_round_div_step, round_div,
    spec_isqrt, spec_round_div,
};
use crate::point::{GridPoint, fits_i32};

verus! {

/// The distance between two coordinates.
pub open spec fn spec_span(a: int, b: int) -> int {
    if a <= b {
        b - a
    } else {
        a - b
    }
}

/// The number of steps of the interpolated line from `start` to `end`: the
/// larger of the distances along the two axes.
pub open spec fn spec_steps(start: GridPoint, end: GridPoint) -> int {
    let nx = spec_span(start.x as int, end.x as int);
    let ny = spec_span(start.y as int, end.y as int);
    if nx >= ny {
        nx
    } else {
        ny
    }
}

/// One coordinate of the `i`-th cell of a line of `steps` steps from `a` to
/// `b`: the exact position `a + (b − a)·i / steps`, rounded to the nearest
/// integer, a position halfway between two integers going to the one
/// farther from zero.
pub open spec fn spec_lerp(a: int, b: int, i: int, steps: int) -> int {
    spec_round_div(a * steps + (b - a) * i, steps)
}

/// The `i`-th cell of the interpolated line from `start` to `end`.
pub open spec fn spec_line_point(start: GridPoint, end: GridPoint, i: int) -> GridPoint {
    let steps = spec_steps(start, end);
    if steps == 0 {
        start
    } else {
        GridPoint {
            x: spec_lerp(start.x as int, end.x as int, i, steps) as i32,
            y: spec_lerp(start.y as int, end.y as int, i, steps) as i32,
        }
    }
}

/// The cells of the interpolated line from `start` to `end`, both included.
pub open spec fn spec_line_points(start: GridPoint, end: GridPoint) -> Seq<GridPoint> {
    Seq::new((spec_steps(start, end) + 1) as nat, |i: int| spec_line_point(start, end, i))
}

/// An interpolated coordinate lies between the two coordinates it
/// interpolates, and it is the first of them at step `0` and the second at
/// the last step.
pub proof fn lemma_lerp_between(a: int, b: int, i: int, steps: int)
    requires
        0 <= i <= steps,
        0 < steps,
    ensures
        a <= b ==> a <= spec_lerp(a, b, i, steps) <= b,
        b <= a ==> b <= spec_lerp(a, b, i, steps) <= a,
        i == 0 ==> spec_lerp(a, b, i, steps) == a,
        i == steps ==> spec_lerp(a, b, i, steps) == b,
{
    let n = a * steps + (b - a) * i;
    if a <= b {
        assert(a * steps <= n <= b * steps) by (nonlinear_arith)
            requires
                n == a * steps + (b - a) * i,
                0 <= i <= steps,
                a <= b,
        ;
        lemma_round_div_between(n, steps, a, b);
    } else {
        assert(b * steps <= n <= a * steps) by (nonlinear_arith)
            requires
                n == a * steps + (b - a) * i,
                0 <= i <= steps,
                b <= a,
        ;
        lemma_round_div_between(n, steps, b, a);
    }
    if i == 0 {
        assert(n == a * steps) by (nonlinear_arith)
            requires
                n == a * steps + (b - a) * i,
                i == 0,
        ;
        lemma_round_div_exact(a, steps);
    }
    if i == steps {
        assert(n == b * steps) by (nonlinear_arith)
            requires
                n == a * steps + (b - a) * i,
                i == steps,
        ;
        lemma_round_div_exact(b, steps);
    }
}

/// The interpolated line starts at `start`, ends at `end`, and has one cell
/// more than the larger of the distances along the two axes.
pub proof fn lemma_line_endpoints(start: GridPoint, end: GridPoint)
    ensures
        spec_line_points(start, end).len() == spec_steps(start, end) + 1,
        spec_line_points(start, end).first() == start,
        spec_line_points(start, end).last() == end,
{
    let steps = spec_steps(start, end);
    if steps > 0 {
        lemma_lerp_between(start.x as int, end.x as int, 0, steps);
        lemma_lerp_between(start.y as int, end.y as int, 0, steps);
        lemma_lerp_between(start.x as int, end.x as int, steps, steps);
        lemma_lerp_between(start.y as int, end.y as int, steps, steps);
    }
}

/// The distance between two coordinates.
fn span(a: i32, b: i32) -> (d: i64)
    ensures
        d == spec_span(a as int, b as int),
        0 <= d <= 0xffff_ffff,
{
    if a <= b {
        b as i64 - a as i64
    } else {
        a as i64 - b as i64
    }
}

/// The number of steps of the interpolated line between two cells.
fn diag_distance(from: GridPoint, to: GridPoint) -> (d: i64)
    ensures
        d == spec_steps(from, to),
        0 <= d <= 0xffff_ffff,
{
    let nx: i64 = span(from.x, to.x);
    let ny: i64 = span(from.y, to.y);
    if nx >= ny {
        nx
    } else {
        ny
    }
}

/// One interpolated coordinate.
fn lerp(a: i32, b: i32, i: i64, steps: i64) -> (r: i32)
    requires
        0 <= i <= steps,
        0 < steps <= 0xffff_ffff,
    ensures
        r == spec_lerp(a as int, b as int, i as int, steps as int),
{
    let delta: i128 = b as i128 - a as i128;
    proof {
        lemma_lerp_between(a as int, b as int, i as int, steps as int);
        assert(-0x8000_0000 * 0xffff_ffff <= a * steps <= 0x8000_0000 * 0xffff_ffff)
            by (nonlinear_arith)
            requires
                -0x8000_0000 <= a <= 0x8000_0000,
                0 < steps <= 0xffff_ffff,
        ;
        assert(-0xffff_ffff * 0xffff_ffff <= delta * i <= 0xffff_ffff * 0xffff_ffff)
            by (nonlinear_arith)
            requires
                -0xffff_ffff <= delta <= 0xffff_ffff,
                0 <= i <= 0xffff_ffff,
        ;
    }
    let n: i128 = a as i128 * steps as i128 + delta * i as i128;
    let q: i128 = round_div(n, steps as i128);
    q as i32
}

/// The `i`-th cell of the interpolated line.
fn lerp_pos(from: GridPoint, to: GridPoint, i: i64, steps: i64) -> (p: GridPoint)
    requires
        steps == spec_steps(from, to),
        0 <= i <= steps,
    ensures
        p == spec_line_point(from, to, i as int),
{
    if steps == 0 {
        from
    } else {
        GridPoint { x: lerp(from.x, to.x, i, steps), y: lerp(from.y, to.y, i, steps) }
    }
}

/// An interpolated line between two cells.
#[derive(Clone, Copy, Debug, PartialEq, Eq, Structural, Hash)]
pub struct GridLine {
    pub start: GridPoint,
    pub end: GridPoint,
}

impl Default for GridLine {
    fn default() -> (l: GridLine)
        ensures
            l == (GridLine { start: GridPoint { x: 0, y: 0 }, end: GridPoint { x: 0, y: 0 } }),
    {
        GridLine { start: GridPoint { x: 0, y: 0 }, end: GridPoint { x: 0, y: 0 } }
    }
}

impl GridLine {
    /// The cells of the line, from `start` to `end`.
    pub open spec fn spec_points(&self) -> Seq<GridPoint> {
        spec_line_points(self.start, self.end)
    }

    /// The whole part of the Euclidean distance between the two ends.
    pub open spec fn spec_length(&self) -> nat {
        spec_isqrt(
            ((self.end.x - self.start.x) * (self.end.x - self.start.x) + (self.end.y
                - self.start.y) * (self.end.y - self.start.y)) as nat,
        )
    }

    /// A line from `start` to `end`; `end` is part of the line.
    pub fn new(start: GridPoint, end: GridPoint) -> (l: GridLine)
        ensures
            l.start == start,
            l.end == end,
    {
        GridLine { start, end }
    }

    /// A line from the origin to `end`.
    pub fn origin(end: GridPoint) -> (l: GridLine)
        ensures
            l.start == (GridPoint { x: 0, y: 0 }),
            l.end == end,
    {
        GridLine { start: GridPoint { x: 0, y: 0 }, end }
    }

    /// The whole part of the Euclidean distance between the two ends.
    pub fn length(&self) -> (n: usize)
        requires
            self.spec_length() <= usize::MAX,
        ensures
            n == self.spec_length(),
    {
        let dx: i128 = self.end.x as i128 - self.start.x as i128;
        let dy: i128 = self.end.y as i128 - self.start.y as i128;
        assert(0 <= dx * dx <= 0x1_0000_0000_0000_0000) by (nonlinear_arith)
            requires
                -0x1_0000_0000 <= dx <= 0x1_0000_0000,
        ;
        assert(0 <= dy * dy <= 0x1_0000_0000_0000_0000) by (nonlinear_arith)
            requires
                -0x1_0000_0000 <= dy <= 0x1_0000_0000,
        ;
        let s: u128 = isqrt((dx * dx + dy * dy) as u128);
        s as usize
    }

    /// A cursor over the cells of the line.
    pub fn into_iter(self) -> (it: GridLineIter)
        ensures
            it.remaining() == self.spec_points(),
    {
        GridLineIter::new(self.start, self.end)
    }
}

/// A cursor over the cells of an interpolated line.
#[derive(Clone, Copy, Debug)]
pub struct GridLineIter {
    start: GridPoint,
    dist: i64,
    step: i64,
    end: GridPoint,
}

impl GridLineIter {
    #[verifier::type_invariant]
    spec fn inv(self) -> bool {
        &&& self.dist == spec_steps(self.start, self.end)
        &&& 0 <= self.step <= self.dist + 1
    }

    /// A cursor that stands before `start`.
    pub fn new(start: GridPoint, end: GridPoint) -> (it: GridLineIter)
        ensures
            it.remaining() == spec_line_points(start, end),
    {
        let it = GridLineIter { start, end, step: 0, dist: diag_distance(start, end) };
        assert(it.remaining() =~= spec_line_points(start, end));
        it
    }
}

impl PointIter for GridLineIter {
    closed spec fn remaining(&self) -> Seq<GridPoint> {
        spec_line_points(self.start, self.end).skip(self.step as int)
    }

    fn next(&mut self) -> (r: Option<GridPoint>) {
        proof {
            use_type_invariant(&*self);
        }
        if self.step > self.dist {
            return None;
        }
        let i: i64 = self.step;
        let p = lerp_pos(self.start, self.end, i, self.dist);
        self.step = i + 1;
        assert(self.remaining() =~= old(self).remaining().skip(1));
        Some(p)
    }
}

/// The sign of the step from `a` towards `b`.
pub open spec fn spec_signum(a: int, b: int) -> int {
    if a < b {
        1
    } else if a > b {
        -1
    } else {
        0
    }
}

/// Whether the orthogonal line steps along the x axis next, having made
/// `ix` of `nx` steps along x and `iy` of `ny` steps along y.
///
/// It steps along the axis on which it has made less progress, where the
/// progress is measured at the middle of the coming step:
/// `(ix + ½) / nx < (iy + ½) / ny`. An axis without steps has made all its
/// progress; when both have made the same, the line steps along y.
pub open spec fn spec_ortho_goes_x(nx: int, ny: int, ix: int, iy: int) -> bool {
    (2 * ix + 1) * ny < (2 * iy + 1) * nx
}

/// How many of the first `k` steps of the orthogonal line go along the x
/// axis.
pub open spec fn spec_ortho_x_steps(nx: int, ny: int, k: nat) -> int
    decreases k,
{
    if k == 0 {
        0
    } else {
        let ix = spec_ortho_x_steps(nx, ny, (k - 1) as nat);
        if spec_ortho_goes_x(nx, ny, ix, k - 1 - ix) {
            ix + 1
        } else {
            ix
        }
    }
}

/// The cell that the orthogonal line from `start` to `end` reaches after
/// `k` steps.
pub open spec fn spec_ortho_point(start: GridPoint, end: GridPoint, k: int) -> GridPoint {
    let nx = spec_span(start.x as int, end.x as int);
    let ny = spec_span(start.y as int, end.y as int);
    let ix = spec_ortho_x_steps(nx, ny, k as nat);
    GridPoint {
        x: (start.x + spec_signum(start.x as int, end.x as int) * ix) as i32,
        y: (start.y + spec_signum(start.y as int, end.y as int) * (k - ix)) as i32,
    }
}

/// The cells of the orthogonal line from `start` to `end`, both included.
pub open spec fn spec_ortho_points(start: GridPoint, end: GridPoint) -> Seq<GridPoint> {
    Seq::new(
        (spec_span(start.x as int, end.x as int) + spec_span(start.y as int, end.y as int)
            + 1) as nat,
        |k: int| spec_ortho_point(start, end, k),
    )
}

/// Along neither axis does the orthogonal line make more steps than lie
/// between its two ends.
pub proof fn lemma_ortho_steps_bounded(nx: int, ny: int, k: nat)
    requires
        0 <= nx,
        0 <= ny,
        k <= nx + ny,
    ensures
        0 <= spec_ortho_x_steps(nx, ny, k) <= nx,
        0 <= k - spec_ortho_x_steps(nx, ny, k) <= ny,
    decreases k,
{
    if k > 0 {
        lemma_ortho_steps_bounded(nx, ny, (k - 1) as nat);
        let ix = spec_ortho_x_steps(nx, ny, (k - 1) as nat);
        let iy = k - 1 - ix;
        if spec_ortho_goes_x(nx, ny, ix, iy) {
            if ix == nx {
                assert(false) by (nonlinear_arith)
                    requires
                        (2 * nx + 1) * ny < (2 * iy + 1) * nx,
                        0 <= iy < ny,
                        0 <= nx,
                ;
            }
        } else {
            if iy == ny {
                assert(false) by (nonlinear_arith)
                    requires
                        (2 * ix + 1) * ny >= (2 * ny + 1) * nx,
                        0 <= ix < nx,
                        0 <= ny,
                ;
            }
        }
    }
}

/// The orthogonal line starts at `start`, ends at `end`, and has one cell
/// more than the sum of the distances along the two axes.
pub proof fn lemma_ortho_endpoints(start: GridPoint, end: GridPoint)
    ensures
        spec_ortho_points(start, end).len() == spec_span(start.x as int, end.x as int) + spec_span(
            start.y as int,
            end.y as int,
        ) + 1,
        spec_ortho_points(start, end).first() == start,
        spec_ortho_points(start, end).last() == end,
{
    let nx = spec_span(start.x as int, end.x as int);
    let ny = spec_span(start.y as int, end.y as int);
    lemma_ortho_steps_bounded(nx, ny, (nx + ny) as nat);
    let sx = spec_signum(start.x as int, end.x as int);
    let sy = spec_signum(start.y as int, end.y as int);
    assert(start.x + sx * nx == end.x) by (nonlinear_arith)
        requires
            nx == spec_span(start.x as int, end.x as int),
            sx == spec_signum(start.x as int, end.x as int),
    ;
    assert(start.y + sy * ny == end.y) by (nonlinear_arith)
        requires
            ny == spec_span(start.y as int, end.y as int),
            sy == spec_signum(start.y as int, end.y as int),
    ;
    assert(sx * 0 == 0 && sy * 0 == 0);
    assert(spec_ortho_x_steps(nx, ny, 0) == 0);
}

/// Each step of the orthogonal line moves by one cell along exactly one
/// axis: no two consecutive cells differ on both axes.
pub proof fn lemma_ortho_steps_are_orthogonal(start: GridPoint, end: GridPoint, k: int)
    requires
        0 <= k,
        k + 1 < spec_ortho_points(start, end).len(),
    ensures
        spec_ortho_points(start, end)[k].spec_taxi_dist(spec_ortho_points(start, end)[k + 1]) == 1,
        spec_ortho_points(start, end)[k].x == spec_ortho_points(start, end)[k + 1].x
            || spec_ortho_points(start, end)[k].y == spec_ortho_points(start, end)[k + 1].y,
{
    let nx = spec_span(start.x as int, end.x as int);
    let ny = spec_span(start.y as int, end.y as int);
    let sx = spec_signum(start.x as int, end.x as int);
    let sy = spec_signum(start.y as int, end.y as int);
    lemma_ortho_steps_bounded(nx, ny, k as nat);
    lemma_ortho_steps_bounded(nx, ny, (k + 1) as nat);
    let ix = spec_ortho_x_steps(nx, ny, k as nat);
    let jx = spec_ortho_x_steps(nx, ny, (k + 1) as nat);
    lemma_ortho_offsets(start.x as int, end.x as int, ix);
    lemma_ortho_offsets(start.x as int, end.x as int, jx);
    lemma_ortho_offsets(start.y as int, end.y as int, k - ix);
    lemma_ortho_offsets(start.y as int, end.y as int, k + 1 - jx);
    if jx == ix + 1 {
        assert(sx * jx == sx * ix + sx) by (nonlinear_arith)
            requires
                jx == ix + 1,
        ;
        assert(sx != 0);
    } else {
        assert(sy * (k + 1 - jx) == sy * (k - ix) + sy) by (nonlinear_arith)
            requires
                jx == ix,
        ;
        assert(sy != 0);
    }
}

/// A coordinate that has made `i` of its steps towards `b` lies between `a`
/// and `b`.
pub proof fn lemma_ortho_offsets(a: int, b: int, i: int)
    requires
        0 <= i <= spec_span(a, b),
    ensures
        a <= b ==> a <= a + spec_signum(a, b) * i <= b,
        b <= a ==> b <= a + spec_signum(a, b) * i <= a,
        a + spec_signum(a, b) * i == (if a <= b {
            a + i
        } else {
            a - i
        }),
{
    let s = spec_signum(a, b);
    assert(s * i == (if a < b {
        i
    } else if a > b {
        -i
    } else {
        0
    })) by (nonlinear_arith)
        requires
            s == spec_signum(a, b),
            0 <= i <= spec_span(a, b),
    ;
}

/// An orthogonal line between two cells: a line whose consecutive cells
/// always share an edge.
#[derive(Clone, Copy, Debug, PartialEq, Eq, Structural, Hash)]
pub struct GridLineOrtho {
    pub start: GridPoint,
    pub end: GridPoint,
}

impl Default for GridLineOrtho {
    fn default() -> (l: GridLineOrtho)
        ensures
            l == (GridLineOrtho { start: GridPoint { x: 0, y: 0 }, end: GridPoint { x: 0, y: 0 } }),
    {
        GridLineOrtho { start: GridPoint { x: 0, y: 0 }, end: GridPoint { x: 0, y: 0 } }
    }
}

impl GridLineOrtho {
    /// The cells of the line, from `start` to `end`.
    pub open spec fn spec_points(&self) -> Seq<GridPoint> {
        spec_ortho_points(self.start, self.end)
    }

    /// An orthogonal line from `start` to `end`; `end` is part of the line.
    pub fn new(start: GridPoint, end: GridPoint) -> (l: GridLineOrtho)
        ensures
            l.start == start,
            l.end == end,
    {
        GridLineOrtho { start, end }
    }

    /// An orthogonal line from the origin to `end`.
    pub fn origin(end: GridPoint) -> (l: GridLineOrtho)
        ensures
            l.start == (GridPoint { x: 0, y: 0 }),
            l.end == end,
    {
        GridLineOrtho { start: GridPoint { x: 0, y: 0 }, end }
    }

    /// A cursor over the cells of the line.
    pub fn into_iter(self) -> (it: GridLineOrthoIter)
        ensures
            it.remaining() == self.spec_points(),
    {
        GridLineOrthoIter::new(self.start, self.end)
    }
}

/// Whether the next step goes along the x axis.
fn next_dir(ix: i64, iy: i64, nx: i64, ny: i64) -> (b: bool)
    requires
        0 <= ix <= nx <= 0xffff_ffff,
        0 <= iy <= ny <= 0xffff_ffff,
    ensures
        b == spec_ortho_goes_x(nx as int, ny as int, ix as int, iy as int),
{
    let ax: i128 = 2 * ix as i128 + 1;
    let ay: i128 = 2 * iy as i128 + 1;
    assert(0 <= ax * ny <= 0x1_ffff_ffff * 0xffff_ffff) by (nonlinear_arith)
        requires
            0 <= ax <= 0x1_ffff_ffff,
            0 <= ny <= 0xffff_ffff,
    ;
    assert(0 <= ay * nx <= 0x1_ffff_ffff * 0xffff_ffff) by (nonlinear_arith)
        requires
            0 <= ay <= 0x1_ffff_ffff,
            0 <= nx <= 0xffff_ffff,
    ;
    ax * (ny as i128) < ay * (nx as i128)
}

/// A cursor over the cells of an orthogonal line.
#[derive(Clone, Copy, Debug)]
pub struct GridLineOrthoIter {
    start: GridPoint,
    end: GridPoint,
    /// The number of steps to make along each axis.
    nx: i64,
    ny: i64,
    /// The number of steps made along each axis to reach the next cell.
    ix: i64,
    iy: i64,
    /// Whether `end` has been yielded.
    done: bool,
}

impl GridLineOrthoIter {
    #[verifier::type_invariant]
    spec fn inv(self) -> bool {
        &&& self.nx == spec_span(self.start.x as int, self.end.x as int)
        &&& self.ny == spec_span(self.start.y as int, self.end.y as int)
        &&& 0 <= self.ix <= self.nx
        &&& 0 <= self.iy <= self.ny
        &&& self.ix == spec_ortho_x_steps(
            self.nx as int,
            self.ny as int,
            (self.ix + self.iy) as nat,
        )
    }

    /// A cursor that stands before `start`.
    pub fn new(start: GridPoint, end: GridPoint) -> (it: GridLineOrthoIter)
        ensures
            it.remaining() == spec_ortho_points(start, end),
    {
        let nx: i64 = span(start.x, end.x);
        let ny: i64 = span(start.y, end.y);
        let it = GridLineOrthoIter { start, end, nx, ny, ix: 0, iy: 0, done: false };
        assert(it.remaining() =~= spec_ortho_points(start, end));
        it
    }
}

impl PointIter for GridLineOrthoIter {
    closed spec fn remaining(&self) -> Seq<GridPoint> {
        if self.done {
            Seq::empty()
        } else {
            spec_ortho_points(self.start, self.end).skip(self.ix + self.iy)
        }
    }

    fn next(&mut self) -> (r: Option<GridPoint>) {
        proof {
            use_type_invariant(&*self);
        }
        if self.done {
            return None;
        }
        let ix: i64 = self.ix;
        let iy: i64 = self.iy;
        proof {
            lemma_ortho_offsets(self.start.x as int, self.end.x as int, ix as int);
            lemma_ortho_offsets(self.start.y as int, self.end.y as int, iy as int);
        }
        let x: i64 = if self.start.x <= self.end.x {
            self.start.x as i64 + ix
        } else {
            self.start.x as i64 - ix
        };
        let y: i64 = if self.start.y <= self.end.y {
            self.start.y as i64 + iy
        } else {
            self.start.y as i64 - iy
        };
        let p = GridPoint { x: x as i32, y: y as i32 };
        assert(spec_ortho_points(self.start, self.end)[ix + iy] == p);
        if ix == self.nx && iy == self.ny {
            *self = GridLineOrthoIter {
                start: self.start,
                end: self.end,
                nx: self.nx,
                ny: self.ny,
                ix,
                iy,
                done: true,
            };
            assert(self.remaining() =~= old(self).remaining().skip(1));
        } else {
            proof {
                lemma_ortho_steps_bounded(self.nx as int, self.ny as int, (ix + iy + 1) as nat);
            }
            let goes_x = next_dir(ix, iy, self.nx, self.ny);
            *self = GridLineOrthoIter {
                start: self.start,
                end: self.end,
                nx: self.nx,
                ny: self.ny,
                ix: if goes_x { ix + 1 } else { ix },
                iy: if goes_x { iy } else { iy + 1 },
                done: false,
            };
            assert(self.remaining() =~= old(self).remaining().skip(1));
        }
        Some(p)
    }
}

/// The end of a line that has been moved so that it starts at `pos`.
pub open spec fn spec_moved_end(start: GridPoint, end: GridPoint, pos: GridPoint) -> GridPoint {
    GridPoint { x: (pos.x + end.x - start.x) as i32, y: (pos.y + end.y - start.y) as i32 }
}

/// Whether a line can be moved so that it starts at `pos`.
pub open spec fn spec_line_movable(start: GridPoint, end: GridPoint, pos: GridPoint) -> bool {
    fits_i32(pos.x + end.x - start.x) && fits_i32(pos.y + end.y - start.y)
}

/// The end of a line that has been moved so that it starts at `pos`.
fn moved_end(start: GridPoint, end: GridPoint, pos: GridPoint) -> (p: GridPoint)
    requires
        spec_line_movable(start, end, pos),
    ensures
        p == spec_moved_end(start, end, pos),
{
    let x: i64 = pos.x as i64 + end.x as i64 - start.x as i64;
    let y: i64 = pos.y as i64 + end.y as i64 - start.y as i64;
    GridPoint { x: x as i32, y: y as i32 }
}

/// Every cell of the interpolated line lies in the rectangle that its two
/// ends span.
pub proof fn lemma_line_enclosed(start: GridPoint, end: GridPoint)
    requires
        GridRect::span_fits(start, end),
    ensures
        spec_encloses(GridRect::spec_from_points(start, end), spec_line_points(start, end)),
{
    let b = GridRect::spec_from_points(start, end);
    let points = spec_line_points(start, end);
    let steps = spec_steps(start, end);
    assert forall|i: int| 0 <= i < points.len() implies b.spec_contains_point(
        #[trigger] points[i],
    ) by {
        if steps > 0 {
            lemma_lerp_between(start.x as int, end.x as int, i, steps);
            lemma_lerp_between(start.y as int, end.y as int, i, steps);
        }
    }
}

/// Every cell of the orthogonal line lies in the rectangle that its two
/// ends span.
pub proof fn lemma_ortho_enclosed(start: GridPoint, end: GridPoint)
    requires
        GridRect::span_fits(start, end),
    ensures
        spec_encloses(GridRect::spec_from_points(start, end), spec_ortho_points(start, end)),
{
    let b = GridRect::spec_from_points(start, end);
    let points = spec_ortho_points(start, end);
    let nx = spec_span(start.x as int, end.x as int);
    let ny = spec_span(start.y as int, end.y as int);
    assert forall|k: int| 0 <= k < points.len() implies b.spec_contains_point(
        #[trigger] points[k],
    ) by {
        lemma_ortho_steps_bounded(nx, ny, k as nat);
        let ix = spec_ortho_x_steps(nx, ny, k as nat);
        lemma_ortho_offsets(start.x as int, end.x as int, ix);
        lemma_ortho_offsets(start.y as int, end.y as int, k - ix);
    }
}

impl GridShape for GridLine {
    open spec fn shape_points(&self) -> Seq<GridPoint> {
        self.spec_points()
    }

    open spec fn shape_pos(&self) -> GridPoint {
        self.start
    }

    open spec fn shape_bounds(&self) -> GridRect {
        GridRect::spec_from_points(self.start, self.end)
    }

    open spec fn shape_in_range(&self) -> bool {
        GridRect::span_fits(self.start, self.end)
    }

    open spec fn shape_moved(&self, pos: GridPoint) -> GridLine {
        GridLine { start: pos, end: spec_moved_end(self.start, self.end, pos) }
    }

    open spec fn shape_movable(&self, pos: GridPoint) -> bool {
        spec_line_movable(self.start, self.end, pos)
    }

    fn iter(&self) -> (it: GridShapeIterator) {
        GridShapeIterator::Line(GridLineIter::new(self.start, self.end))
    }

    fn pos(&self) -> (p: GridPoint) {
        self.start
    }

    fn set_pos(&mut self, pos: GridPoint) {
        let end = moved_end(self.start, self.end, pos);
        self.start = pos;
        self.end = end;
    }

    fn bounds(&self) -> (b: GridRect) {
        proof {
            lemma_line_enclosed(self.start, self.end);
            lemma_line_endpoints(self.start, self.end);
            lemma_ends_touch(self.start, self.end, self.spec_points());
        }
        GridRect::from_points(self.start, self.end)
    }
}

impl GridShape for GridLineOrtho {
    open spec fn shape_points(&self) -> Seq<GridPoint> {
        self.spec_points()
    }

    open spec fn shape_pos(&self) -> GridPoint {
        self.start
    }

    open spec fn shape_bounds(&self) -> GridRect {
        GridRect::spec_from_points(self.start, self.end)
    }

    open spec fn shape_in_range(&self) -> bool {
        GridRect::span_fits(self.start, self.end)
    }

    open spec fn shape_moved(&self, pos: GridPoint) -> GridLineOrtho {
        GridLineOrtho { start: pos, end: spec_moved_end(self.start, self.end, pos) }
    }

    open spec fn shape_movable(&self, pos: GridPoint) -> bool {
        spec_line_movable(self.start, self.end, pos)
    }

    fn iter(&self) -> (it: GridShapeIterator) {
        GridShapeIterator::LineOrtho(GridLineOrthoIter::new(self.start, self.end))
    }

    fn pos(&self) -> (p: GridPoint) {
        self.start
    }

    fn set_pos(&mut self, pos: GridPoint) {
        let end = moved_end(self.start, self.end, pos);
        self.start = pos;
        self.end = end;
    }

    fn bounds(&self) -> (b: GridRect) {
        proof {
            lemma_ortho_enclosed(self.start, self.end);
            lemma_ortho_endpoints(self.start, self.end);
            lemma_ends_touch(self.start, self.end, self.spec_points());
        }
        GridRect::from_points(self.start, self.end)
    }
}

/// From one step to the next an interpolated coordinate moves by one at
/// most, and it moves towards the end: a coordinate that spans as many cells
/// as the line has steps moves by exactly one.
pub proof fn lemma_lerp_step(a: int, b: int, i: int, steps: int)
    requires
        0 <= i < steps,
        spec_span(a, b) <= steps,
    ensures
        a <= b ==> spec_lerp(a, b, i, steps) <= spec_lerp(a, b, i + 1, steps) <= spec_lerp(
            a,
            b,
            i,
            steps,
        ) + 1,
        b <= a ==> spec_lerp(a, b, i, steps) - 1 <= spec_lerp(a, b, i + 1, steps) <= spec_lerp(
            a,
            b,
            i,
            steps,
        ),
        spec_span(a, b) == steps ==> spec_lerp(a, b, i + 1, steps) != spec_lerp(a, b, i, steps),
{
    let n = a * steps + (b - a) * i;
    let m = a * steps + (b - a) * (i + 1);
    assert(m == n + (b - a)) by (nonlinear_arith)
        requires
            n == a * steps + (b - a) * i,
            m == a * steps + (b - a) * (i + 1),
    ;
    if spec_span(a, b) == steps {
        if a <= b {
            assert(n == (a + i) * steps && m == (a + i + 1) * steps) by (nonlinear_arith)
                requires
                    n == a * steps + (b - a) * i,
                    m == n + (b - a),
                    b - a == steps,
            ;
            lemma_round_div_exact(a + i, steps);
            lemma_round_div_exact(a + i + 1, steps);
        } else {
            assert(n == (a - i) * steps && m == (a - i - 1) * steps) by (nonlinear_arith)
                requires
                    n == a * steps + (b - a) * i,
                    m == n + (b - a),
                    a - b == steps,
            ;
            lemma_round_div_exact(a - i, steps);
            lemma_round_div_exact(a - i - 1, steps);
        }
    } else if a <= b {
        lemma_round_div_step(n, b - a, steps);
    } else {
        lemma_round_div_step(m, a - b, steps);
    }
}

/// The interpolated line has no gaps: from each cell to the next it moves
/// by one cell at most along each axis, and by exactly one along the axis
/// on which its two ends lie farther apart.
pub proof fn lemma_line_has_no_gaps(start: GridPoint, end: GridPoint, i: int)
    requires
        0 <= i,
        i + 1 < spec_line_points(start, end).len(),
    ensures
        ({
            let p = spec_line_points(start, end)[i];
            let q = spec_line_points(start, end)[i + 1];
            &&& -1 <= q.x - p.x <= 1
            &&& -1 <= q.y - p.y <= 1
            &&& p != q
        }),
{
    let steps = spec_steps(start, end);
    lemma_lerp_step(start.x as int, end.x as int, i, steps);
    lemma_lerp_step(start.y as int, end.y as int, i, steps);
    lemma_lerp_between(start.x as int, end.x as int, i, steps);
    lemma_lerp_between(start.y as int, end.y as int, i, steps);
    lemma_lerp_between(start.x as int, end.x as int, i + 1, steps);
    lemma_lerp_between(start.y as int, end.y as int, i + 1, steps);
}

/// A sequence of cells that starts at `start` and ends at `end` touches all
/// four edges of the rectangle that the two span.
pub proof fn lemma_ends_touch(start: GridPoint, end: GridPoint, points: Seq<GridPoint>)
    requires
        GridRect::span_fits(start, end),
        points.len() > 0,
        points.first() == start,
        points.last() == end,
    ensures
        spec_touches(GridRect::spec_from_points(start, end), points),
{
    assert(points.contains(start));
    assert(points[points.len() - 1] == end);
    assert(points.contains(end));
    let left = if start.x <= end.x { start } else { end };
    let right = if start.x >= end.x { start } else { end };
    let bottom = if start.y <= end.y { start } else { end };
    let top = if start.y >= end.y { start } else { end };
    lemma_touches(GridRect::spec_from_points(start, end), points, left, right, bottom, top);
}

/// A line is the same set of cells whichever end it is drawn from: drawn
/// from `end` to `start`, its cells come in the reverse order.
pub proof fn lemma_line_reversal(start: GridPoint, end: GridPoint)
    ensures
        spec_line_points(end, start) == spec_line_points(start, end).reverse(),
{
    let steps = spec_steps(start, end);
    let forward = spec_line_points(start, end);
    let backward = spec_line_points(end, start);
    assert(spec_steps(end, start) == steps);
    assert forall|i: int| 0 <= i < backward.len() implies backward[i] == forward[steps - i] by {
        if steps > 0 {
            lemma_lerp_reversal(start.x as int, end.x as int, i, steps);
            lemma_lerp_reversal(start.y as int, end.y as int, i, steps);
        }
    }
    assert(backward =~= forward.reverse());
}

/// Step `i` from `b` towards `a` is step `steps − i` from `a` towards `b`.
pub proof fn lemma_lerp_reversal(a: int, b: int, i: int, steps: int)
    ensures
        spec_lerp(b, a, i, steps) == spec_lerp(a, b, steps - i, steps),
{
    assert(b * steps + (a - b) * i == a * steps + (b - a) * (steps - i)) by (nonlinear_arith);
}

} // verus!
