use vstd::prelude::*;

verus! {

/// Side length of the square canvas, in fixed-point units.
pub const CANVAS: i128 = 200_000_000_000;

/// The width at which the chevron's sides become vertical, in thousandths.
pub const DEGENERATE_MILLI: i32 = 20_000;

/// A stroke width, written as a whole number of thousandths.
#[derive(Clone, Copy, Debug, PartialEq, Eq, Structural)]
pub struct Width {
    pub milli: i32,
}

/// A point of the canvas in fixed-point units: a stored integer `v` stands for
/// `v / 10^10` (origin top-left, y downward).
#[derive(Clone, Copy, Debug, PartialEq, Eq, Structural)]
pub struct Point {
    pub x: i128,
    pub y: i128,
}

/// Which vertical edge of the canvas a bar hugs.
#[derive(Clone, Copy, Debug, PartialEq, Eq, Structural)]
pub enum BarPosition {
    Left,
    Right,
}

/// An infinite line `y = slope * x + intercept`.
pub struct Line {
    pub slope: real,
    pub intercept: real,
}

pub open spec fn width_real(w: Width) -> real {
    (w.milli as int) as real / 1000real
}

pub open spec fn coord_real(v: i128) -> real {
    (v as int) as real / 10000000000real
}

pub open spec fn point_real(p: Point) -> (real, real) {
    (coord_real(p.x), coord_real(p.y))
}

/// The line through `(x1, y1)` and `(x2, y2)`; meaningful when `x1 != x2`.
pub open spec fn line_through(x1: real, y1: real, x2: real, y2: real) -> Line {
    let slope = (y2 - y1) / (x2 - x1);
    Line { slope, intercept: y1 - slope * x1 }
}

/// The same line moved down the y axis by `d` (its intercept decreased by `d`).
pub open spec fn lowered(l: Line, d: real) -> Line {
    Line { slope: l.slope, intercept: l.intercept - d }
}

/// The meeting point of two lines; meaningful when their slopes differ.
pub open spec fn intersection(a: Line, b: Line) -> (real, real) {
    let x = (b.intercept - a.intercept) / (a.slope - b.slope);
    (x, a.slope * x + a.intercept)
}

/// The horizontal line `y = c`, as two points of it give it.
pub open spec fn horizontal(c: real) -> Line {
    line_through(0real, c, 20real, c)
}

/// The left side of the T: the chevron's left line moved down by `2.5 * w`.
pub open spec fn t_left_line(w: real) -> Line {
    lowered(line_through(w / 2real, 0real, 10real, 20real), w * 5real / 2real)
}

/// The right side of the T: the chevron's right line moved down by `2.5 * w`.
pub open spec fn t_right_line(w: real) -> Line {
    lowered(line_through(20real - w / 2real, 0real, 10real, 20real), w * 5real / 2real)
}

pub open spec fn spike_bottom(w: real) -> (real, real) {
    intersection(t_left_line(w), t_right_line(w))
}

/// The nine corners of the T glyph, in drawing order.
pub open spec fn t_outline(w: real) -> Seq<(real, real)> {
    let left = t_left_line(w);
    let right = t_right_line(w);
    let bottom = spike_bottom(w);
    let upper = horizontal(w);
    let lower = horizontal(bottom.1 - w);
    let spike_left = intersection(left, lower);
    let spike_right = intersection(right, lower);
    seq![
        intersection(left, horizontal(0real)),
        intersection(right, horizontal(0real)),
        intersection(right, upper),
        (spike_right.0, w),
        spike_right,
        bottom,
        spike_left,
        (spike_left.0, w),
        intersection(left, upper),
    ]
}

pub open spec fn points_real(ps: Seq<Point>) -> Seq<(real, real)> {
    ps.map_values(|p: Point| point_real(p))
}


/// Where a lowered chevron side meets the horizontal line `y = c`, measured
/// from the left edge (the right side meets it as far from the right edge).
pub open spec fn side_x(w: real, c: real) -> real {
    w / 2real + (c + w * 5real / 2real) * (20real - w) / 40real
}

proof fn lemma_div_cancel(a: real, b: real)
    requires
        b != 0real,
    ensures
        (a / b) * b == a,
{
    assert((a / b) * b == a) by (nonlinear_arith)
        requires b != 0real;
}

proof fn lemma_horizontal(c: real)
    ensures
        horizontal(c).slope == 0real,
        horizontal(c).intercept == c,
{
    assert((c - c) / (20real - 0real) == 0real);
}

proof fn lemma_side_slopes(w: real)
    requires
        w != 20real,
    ensures
        t_left_line(w).slope * (20real - w) == 40real,
        t_right_line(w).slope == -t_left_line(w).slope,
        t_left_line(w).intercept == -t_left_line(w).slope * (w / 2real) - w * 5real / 2real,
        t_right_line(w).intercept == t_left_line(w).slope * (20real - w / 2real) - w * 5real / 2real,
{
    let m = t_left_line(w).slope;
    assert(m == 20real / (10real - w / 2real));
    lemma_div_cancel(20real, 10real - w / 2real);
    assert(m * (20real - w) == 40real) by (nonlinear_arith)
        requires m * (10real - w / 2real) == 20real;
    let mr = t_right_line(w).slope;
    assert(mr == 20real / (w / 2real - 10real));
    lemma_div_cancel(20real, w / 2real - 10real);
    assert(mr == -m) by (nonlinear_arith)
        requires
            mr * (w / 2real - 10real) == 20real,
            m * (10real - w / 2real) == 20real,
            w != 20real,
    ;
    let bl = t_left_line(w).intercept;
    let br = t_right_line(w).intercept;
    assert(bl == (0real - m * (w / 2real)) - w * 5real / 2real);
    assert(bl == -m * (w / 2real) - w * 5real / 2real) by (nonlinear_arith)
        requires bl == (0real - m * (w / 2real)) - w * 5real / 2real;
    assert(br == (0real - mr * (20real - w / 2real)) - w * 5real / 2real);
    assert(br == m * (20real - w / 2real) - w * 5real / 2real) by (nonlinear_arith)
        requires
            br == (0real - mr * (20real - w / 2real)) - w * 5real / 2real,
            mr == -m,
    ;
}

proof fn lemma_meets_horizontal(w: real, c: real)
    requires
        w != 20real,
    ensures
        intersection(t_left_line(w), horizontal(c)) == (side_x(w, c), c),
        intersection(t_right_line(w), horizontal(c)) == (20real - side_x(w, c), c),
{
    lemma_horizontal(c);
    lemma_side_slopes(w);
    let m = t_left_line(w).slope;
    let bl = t_left_line(w).intercept;
    let br = t_right_line(w).intercept;
    let x = side_x(w, c);
    assert(m != 0real) by (nonlinear_arith)
        requires m * (20real - w) == 40real;
    let xl = (c - bl) / (m - 0real);
    lemma_div_cancel(c - bl, m - 0real);
    assert(xl * m == c - bl);
    assert(xl == x) by (nonlinear_arith)
        requires
            xl * m == c - bl,
            m * (20real - w) == 40real,
            bl == -m * (w / 2real) - w * 5real / 2real,
            x == w / 2real + (c + w * 5real / 2real) * (20real - w) / 40real,
            m != 0real,
    ;
    assert(m * xl + bl == c) by (nonlinear_arith)
        requires xl * m == c - bl;
    let xr = (c - br) / (-m - 0real);
    lemma_div_cancel(c - br, -m - 0real);
    assert(xr * (-m) == c - br);
    assert(xr == 20real - x) by (nonlinear_arith)
        requires
            xr * (-m) == c - br,
            m * (20real - w) == 40real,
            br == m * (20real - w / 2real) - w * 5real / 2real,
            x == w / 2real + (c + w * 5real / 2real) * (20real - w) / 40real,
            m != 0real,
    ;
    assert(-m * xr + br == c) by (nonlinear_arith)
        requires xr * (-m) == c - br;
}

proof fn lemma_spike_bottom(w: real)
    requires
        w != 20real,
    ensures
        spike_bottom(w) == (10real, 20real - w * 5real / 2real),
{
    lemma_side_slopes(w);
    let m = t_left_line(w).slope;
    let bl = t_left_line(w).intercept;
    let br = t_right_line(w).intercept;
    assert(m != 0real) by (nonlinear_arith)
        requires m * (20real - w) == 40real;
    let x = (br - bl) / (m - -m);
    lemma_div_cancel(br - bl, m - -m);
    assert(x * (m - -m) == br - bl);
    assert(x == 10real) by (nonlinear_arith)
        requires
            x * (m - -m) == br - bl,
            bl == -m * (w / 2real) - w * 5real / 2real,
            br == m * (20real - w / 2real) - w * 5real / 2real,
            m != 0real,
    ;
    assert(m * 10real + bl == 20real - w * 5real / 2real) by (nonlinear_arith)
        requires
            m * (20real - w) == 40real,
            bl == -m * (w / 2real) - w * 5real / 2real,
    ;
}


/// The T corners in fixed point, for a width of `n` thousandths.
pub open spec fn t_outline_fixed(n: int) -> Seq<(int, int)> {
    let k = 20000 - n;
    let w = 10_000_000 * n;
    let top_left = 5_000_000 * n + 625 * n * k;
    let inner_left = 5_000_000 * n + 875 * n * k;
    let spike_left = 5_000_000 * n + 250 * k * k;
    let spike_y = 200_000_000_000 - 35_000_000 * n;
    seq![
        (top_left, 0),
        (200_000_000_000 - top_left, 0),
        (200_000_000_000 - inner_left, w),
        (200_000_000_000 - spike_left, w),
        (200_000_000_000 - spike_left, spike_y),
        (100_000_000_000, 200_000_000_000 - 25_000_000 * n),
        (spike_left, spike_y),
        (spike_left, w),
        (inner_left, w),
    ]
}

proof fn lemma_t_fixed(n: int)
    requires
        n != 20000,
    ensures
        t_outline_fixed(n).map_values(|p: (int, int)| ((p.0 as real) / 10000000000real, (p.1 as real) / 10000000000real))
            == t_outline((n as real) / 1000real),
{
    let w = (n as real) / 1000real;
    let k = 20000 - n;
    assert(w != 20real);
    lemma_meets_horizontal(w, 0real);
    lemma_meets_horizontal(w, w);
    lemma_spike_bottom(w);
    let c = (20real - w * 5real / 2real) - w;
    lemma_meets_horizontal(w, c);
    lemma_horizontal(0real);
    let top_left = 5_000_000 * n + 625 * n * k;
    let inner_left = 5_000_000 * n + 875 * n * k;
    let spike_left = 5_000_000 * n + 250 * k * k;
    let nr = n as real;
    assert((top_left as real) == side_x(w, 0real) * 10000000000real) by (nonlinear_arith)
        requires
            top_left == 5_000_000 * n + 625 * n * (20000 - n),
            w == nr / 1000real,
            nr == n as real,
    ;
    assert((inner_left as real) == side_x(w, w) * 10000000000real) by (nonlinear_arith)
        requires
            inner_left == 5_000_000 * n + 875 * n * (20000 - n),
            w == nr / 1000real,
            nr == n as real,
    ;
    assert((spike_left as real) == side_x(w, c) * 10000000000real) by (nonlinear_arith)
        requires
            spike_left == 5_000_000 * n + 250 * (20000 - n) * (20000 - n),
            w == nr / 1000real,
            nr == n as real,
            c == (20real - w * 5real / 2real) - w,
    ;
    let fixed = t_outline_fixed(n).map_values(|p: (int, int)| ((p.0 as real) / 10000000000real, (p.1 as real) / 10000000000real));
    assert(fixed =~= t_outline(w));
}


/// A bar's corners in fixed point, clockwise from the top-left.
pub open spec fn bar_corners(width: Width, position: BarPosition) -> Seq<Point> {
    let w = 10_000_000 * width.milli;
    let x = match position {
        BarPosition::Left => 0int,
        BarPosition::Right => 200_000_000_000 - w,
    };
    seq![
        Point { x: x as i128, y: 0 },
        Point { x: (x + w) as i128, y: 0 },
        Point { x: (x + w) as i128, y: 200_000_000_000 },
        Point { x: x as i128, y: 200_000_000_000 },
    ]
}

/// The chevron's points in fixed point.
pub open spec fn chevron_points(width: Width) -> Seq<Point> {
    let half = 5_000_000 * width.milli;
    seq![
        Point { x: half as i128, y: 0 },
        Point { x: 100_000_000_000, y: 200_000_000_000 },
        Point { x: (200_000_000_000 - half) as i128, y: 0 },
    ]
}

/// The T's corners in fixed point.
pub open spec fn t_corners(width: Width) -> Seq<Point> {
    t_outline_fixed(width.milli as int).map_values(|p: (int, int)| Point { x: p.0 as i128, y: p.1 as i128 })
}

/// The x of a bar's left edge.
pub open spec fn bar_start(w: real, position: BarPosition) -> real {
    match position {
        BarPosition::Left => 0real,
        BarPosition::Right => 20real - w,
    }
}

/// A bar's corners: clockwise from its top-left corner.
pub open spec fn bar_outline(w: real, position: BarPosition) -> Seq<(real, real)> {
    let x = bar_start(w, position);
    seq![(x, 0real), (x + w, 0real), (x + w, 20real), (x, 20real)]
}

/// The chevron's three points: top-left end, apex, top-right end.
pub open spec fn v_outline(w: real) -> Seq<(real, real)> {
    seq![(w / 2real, 0real), (10real, 20real), (20real - w / 2real, 0real)]
}

/// The open three-point stroke that draws the V.
pub struct Chevron {
    pub points: Vec<Point>,
    /// Stroke thickness, in fixed-point units.
    pub stroke: i128,
}

proof fn lemma_coord_linear(a: int, b: int, n: int)
    requires
        -0x1_0000_0000_0000_0000 < a + b * n < 0x1_0000_0000_0000_0000,
    ensures
        coord_real((a + b * n) as i128) == (a as real) / 10000000000real + (b as real) * ((n as real) / 1000real) / 10000000real,
{
    let v = a + b * n;
    assert((v as real) == (a as real) + (b as real) * (n as real)) by (nonlinear_arith)
        requires v == a + b * n;
    assert((v as real) / 10000000000real == (a as real) / 10000000000real + (b as real) * ((n as real) / 1000real) / 10000000real) by (nonlinear_arith)
        requires (v as real) == (a as real) + (b as real) * (n as real);
}

/// The fixed-point form of a width.
pub fn width_units(width: Width) -> (r: i128)
    ensures
        coord_real(r) == width_real(width),
        r == 10_000_000 * width.milli,
{
    proof {
        lemma_coord_linear(0, 10_000_000, width.milli as int);
    }
    10_000_000 * (width.milli as i128)
}

/// The rectangle of a side bar: `width` wide, full canvas height, against the
/// left or the right edge.
pub fn create_bar(width: Width, position: BarPosition) -> (r: Vec<Point>)
    ensures
        r@ == bar_corners(width, position),
        points_real(r@) == bar_outline(width_real(width), position),
{
    let w = width_units(width);
    let x: i128 = match position {
        BarPosition::Left => 0,
        BarPosition::Right => CANVAS - w,
    };
    proof {
        let n = width.milli as int;
        lemma_coord_linear(0, 0, n);
        lemma_coord_linear(200_000_000_000, -10_000_000, n);
        lemma_coord_linear(200_000_000_000, 0, n);
        lemma_coord_linear(0, 10_000_000, n);
    }
    let end = x + w;
    let r = vec![Point { x, y: 0 }, Point { x: end, y: 0 }, Point { x: end, y: CANVAS }, Point { x, y: CANVAS }];
    assert(points_real(r@) =~= bar_outline(width_real(width), position));
    assert(r@ =~= bar_corners(width, position));
    r
}

/// The V: a polyline from `(w/2, 0)` down to `(10, 20)` and up to `(20 - w/2, 0)`,
/// stroked `w` thick.
pub fn create_v(width: Width) -> (r: Chevron)
    ensures
        r.points@ == chevron_points(width),
        points_real(r.points@) == v_outline(width_real(width)),
        coord_real(r.stroke) == width_real(width),
{
    let w = width_units(width);
    let half = 5_000_000 * (width.milli as i128);
    proof {
        let n = width.milli as int;
        lemma_coord_linear(0, 5_000_000, n);
        lemma_coord_linear(200_000_000_000, -5_000_000, n);
        lemma_coord_linear(100_000_000_000, 0, n);
        lemma_coord_linear(200_000_000_000, 0, n);
        lemma_coord_linear(0, 0, n);
    }
    let mid = CANVAS / 2;
    let far = CANVAS - half;
    let points = vec![Point { x: half, y: 0 }, Point { x: mid, y: CANVAS }, Point { x: far, y: 0 }];
    assert(points_real(points@) =~= v_outline(width_real(width)));
    assert(points@ =~= chevron_points(width));
    Chevron { points, stroke: w }
}


/// The T: a nine-corner polygon cut from the chevron's sides moved down by
/// `2.5 * w`, the horizontals `y = 0` and `y = w`, and the horizontal `w` above
/// the spike's tip. `None` when `w` is 20: the chevron's sides are then
/// vertical and have no slope.
pub fn create_t(width: Width) -> (r: Option<Vec<Point>>)
    ensures
        r is None <==> width.milli == DEGENERATE_MILLI,
        r matches Some(ps) ==> ps.len() == 9 && ps@ == t_corners(width) && points_real(ps@) == t_outline(
            width_real(width),
        ),
{
    if width.milli == DEGENERATE_MILLI {
        return None;
    }
    let n = width.milli as i128;
    let k: i128 = 20000 - n;
    proof {
        assert(-0x8000_0000 <= n < 0x8000_0000);
        assert(-0x1_0000_0000_0000_0000 < n * k < 0x1_0000_0000_0000_0000) by (nonlinear_arith)
            requires
                -0x8000_0000 <= n < 0x8000_0000,
                k == 20000 - n,
        ;
        assert(0 <= k * k < 0x1_0000_0000_0000_0000_0000) by (nonlinear_arith)
            requires
                -0x8000_0000 <= n < 0x8000_0000,
                k == 20000 - n,
        ;
    }
    let nk = n * k;
    let kk = k * k;
    let w = 10_000_000 * n;
    let top_left = 5_000_000 * n + 625 * nk;
    let inner_left = 5_000_000 * n + 875 * nk;
    let spike_left = 5_000_000 * n + 250 * kk;
    let spike_y = CANVAS - 35_000_000 * n;
    let tip_y = CANVAS - 25_000_000 * n;
    let top_right = CANVAS - top_left;
    let inner_right = CANVAS - inner_left;
    let spike_right = CANVAS - spike_left;
    let mid = CANVAS / 2;
    let ps = vec![
        Point { x: top_left, y: 0 },
        Point { x: top_right, y: 0 },
        Point { x: inner_right, y: w },
        Point { x: spike_right, y: w },
        Point { x: spike_right, y: spike_y },
        Point { x: mid, y: tip_y },
        Point { x: spike_left, y: spike_y },
        Point { x: spike_left, y: w },
        Point { x: inner_left, y: w },
    ];
    proof {
        let ni = width.milli as int;
        lemma_t_fixed(ni);
        let fixed = t_outline_fixed(ni);
        let ki = 20000 - ni;
        assert(625 * nk == 625 * ni * ki && 875 * nk == 875 * ni * ki) by (nonlinear_arith)
            requires nk == ni * ki;
        assert(250 * kk == 250 * ki * ki) by (nonlinear_arith)
            requires kk == ki * ki;
        assert(ps@.map_values(|p: Point| (p.x as int, p.y as int)) =~= fixed);
        assert(ps@ =~= t_corners(width));
        assert(points_real(ps@) =~= fixed.map_values(
            |p: (int, int)| ((p.0 as real) / 10000000000real, (p.1 as real) / 10000000000real),
        ));
    }
    Some(ps)
}


/// The two side bars mirror each other about `x = 10`: reflecting the left
/// bar's corners gives the right bar's, and the same holds of the fixed-point
/// corners.
pub proof fn bars_mirror(width: Width)
    ensures
        forall|i: int|
            0 <= i < 4 ==> {
                let l = bar_outline(width_real(width), BarPosition::Left)[#[trigger] mirror_corner(i)];
                let r = bar_outline(width_real(width), BarPosition::Right)[i];
                r == (20real - l.0, l.1)
            },
        forall|i: int|
            0 <= i < 4 ==> {
                let l = bar_corners(width, BarPosition::Left)[#[trigger] mirror_corner(i)];
                let r = bar_corners(width, BarPosition::Right)[i];
                r.x == CANVAS - l.x && r.y == l.y
            },
{
}

/// The corner that a reflection about the vertical centre line sends to
/// corner `i` of a bar (top-left and top-right swap, as do the bottom ones).
pub open spec fn mirror_corner(i: int) -> int {
    if i == 0 {
        1
    } else if i == 1 {
        0
    } else if i == 2 {
        3
    } else {
        2
    }
}

/// Between two widths, each bar grows exactly by what the width grows by;
/// the T's spike tip stays on the centre line and rises by `2.5` for each
/// unit of width.
pub proof fn scaling(a: Width, b: Width)
    requires
        a.milli != DEGENERATE_MILLI,
        b.milli != DEGENERATE_MILLI,
    ensures
        forall|position: BarPosition|
            #![auto]
            bar_outline(width_real(b), position)[1].0 - bar_outline(width_real(b), position)[0].0
                - (bar_outline(width_real(a), position)[1].0 - bar_outline(width_real(a), position)[0].0)
                == width_real(b) - width_real(a),
        t_outline(width_real(a))[5].0 == 10real,
        t_outline(width_real(b))[5].0 == 10real,
        t_outline(width_real(b))[5].1 - t_outline(width_real(a))[5].1 == (width_real(a) - width_real(b)) * 5real
            / 2real,
{
    lemma_spike_bottom(width_real(a));
    lemma_spike_bottom(width_real(b));
}

/// For widths strictly between 0 and 40/9 the T's corners stand in the order
/// of a T: a top bar between `y = 0` and `y = w` whose lower edge steps in to a
/// stem, the stem's walls vertical from `y = w` down to the spike's shoulders,
/// and the spike's tip on the centre line below them, everything inside the
/// canvas.
pub proof fn t_corner_order(width: Width)
    requires
        0 < width.milli,
        9 * width.milli < 40000,
    ensures
        ({
            let p = t_corners(width);
            let w = 10_000_000 * width.milli;
            &&& 0 < p[0].x < p[8].x < p[7].x < 100_000_000_000
            &&& 100_000_000_000 < p[3].x < p[2].x < p[1].x < CANVAS
            &&& p[0].y == 0 && p[1].y == 0
            &&& p[2].y == w && p[3].y == w && p[7].y == w && p[8].y == w
            &&& p[4].x == p[3].x && p[6].x == p[7].x && p[5].x == 100_000_000_000
            &&& p[4].y == p[6].y && w < p[6].y < p[5].y < CANVAS
        }),
{
    let n = width.milli as int;
    let k = 20000 - n;
    assert(0 < 625 * n * k < 875 * n * k) by (nonlinear_arith)
        requires 0 < n, 9 * n < 40000, k == 20000 - n;
    assert(875 * n * k < 250 * k * k) by (nonlinear_arith)
        requires 0 < n, 9 * n < 40000, k == 20000 - n;
    assert(5_000_000 * n + 250 * k * k < 100_000_000_000) by (nonlinear_arith)
        requires 0 < n, 9 * n < 40000, k == 20000 - n;
}


/// The point that divides the way from `a` to `b` in the ratio `t`.
pub open spec fn between(a: (real, real), b: (real, real), t: real) -> (real, real) {
    (a.0 + t * (b.0 - a.0), a.1 + t * (b.1 - a.1))
}

/// `p` lies on the closed segment from `a` to `b`.
pub open spec fn on_segment(p: (real, real), a: (real, real), b: (real, real)) -> bool {
    exists|t: real| 0real <= t <= 1real && p == #[trigger] between(a, b, t)
}

/// The `i`-th edge of the closed polygon `ps` contains `p`.
pub open spec fn on_edge(ps: Seq<(real, real)>, i: int, p: (real, real)) -> bool {
    on_segment(p, ps[i], ps[(i + 1) % (ps.len() as int)])
}

/// A closed polygon is simple: its corners are distinct, two edges that do
/// not follow each other share no point, and two that do share only their
/// common corner.
pub open spec fn is_simple_polygon(ps: Seq<(real, real)>) -> bool {
    &&& forall|i: int, j: int| 0 <= i < j < ps.len() ==> ps[i] != ps[j]
    &&& forall|i: int, j: int, p: (real, real)|
        0 <= i < j < ps.len() && #[trigger] on_edge(ps, i, p) && #[trigger] on_edge(ps, j, p) ==> (j == i + 1
            && p == ps[j]) || (i == 0 && j == ps.len() - 1 && p == ps[0])
}

proof fn lemma_on_segment(p: (real, real), a: (real, real), b: (real, real))
    requires
        on_segment(p, a, b),
    ensures
        (a.0 <= p.0 <= b.0) || (b.0 <= p.0 <= a.0),
        (a.1 <= p.1 <= b.1) || (b.1 <= p.1 <= a.1),
        p.1 == a.1 && a.1 != b.1 ==> p == a,
        p.1 == b.1 && a.1 != b.1 ==> p == b,
        p.0 == a.0 && a.0 != b.0 ==> p == a,
        p.0 == b.0 && a.0 != b.0 ==> p == b,
{
    let t = choose|t: real| 0real <= t <= 1real && p == #[trigger] between(a, b, t);
    assert((a.0 <= p.0 <= b.0) || (b.0 <= p.0 <= a.0)) by (nonlinear_arith)
        requires 0real <= t <= 1real, p.0 == a.0 + t * (b.0 - a.0);
    assert((a.1 <= p.1 <= b.1) || (b.1 <= p.1 <= a.1)) by (nonlinear_arith)
        requires 0real <= t <= 1real, p.1 == a.1 + t * (b.1 - a.1);
    if (p.1 == a.1 && a.1 != b.1) || (p.0 == a.0 && a.0 != b.0) {
        assert(t == 0real) by (nonlinear_arith)
            requires
                p.0 == a.0 + t * (b.0 - a.0),
                p.1 == a.1 + t * (b.1 - a.1),
                (p.1 == a.1 && a.1 != b.1) || (p.0 == a.0 && a.0 != b.0),
        ;
        assert(p.0 == a.0 && p.1 == a.1) by (nonlinear_arith)
            requires t == 0real, p.0 == a.0 + t * (b.0 - a.0), p.1 == a.1 + t * (b.1 - a.1);
    }
    if (p.1 == b.1 && a.1 != b.1) || (p.0 == b.0 && a.0 != b.0) {
        assert(t == 1real) by (nonlinear_arith)
            requires
                p.0 == a.0 + t * (b.0 - a.0),
                p.1 == a.1 + t * (b.1 - a.1),
                (p.1 == b.1 && a.1 != b.1) || (p.0 == b.0 && a.0 != b.0),
        ;
        assert(p.0 == b.0 && p.1 == b.1) by (nonlinear_arith)
            requires t == 1real, p.0 == a.0 + t * (b.0 - a.0), p.1 == a.1 + t * (b.1 - a.1);
    }
}

/// For widths strictly between 0 and 40/9 the T is a simple polygon.
pub proof fn t_is_simple(width: Width)
    requires
        0 < width.milli,
        9 * width.milli < 40000,
    ensures
        is_simple_polygon(t_outline(width_real(width))),
{
    let n = width.milli as int;
    let k = 20000 - n;
    lemma_t_fixed(n);
    let ps = t_outline(width_real(width));
    let fixed = t_outline_fixed(n);
    assert(width_real(width) == (n as real) / 1000real);
    assert(0 < 625 * n * k < 875 * n * k) by (nonlinear_arith)
        requires 0 < n, 9 * n < 40000, k == 20000 - n;
    assert(875 * n * k < 250 * k * k) by (nonlinear_arith)
        requires 0 < n, 9 * n < 40000, k == 20000 - n;
    assert(5_000_000 * n + 250 * k * k < 100_000_000_000) by (nonlinear_arith)
        requires 0 < n, 9 * n < 40000, k == 20000 - n;
    let scaled = fixed.map_values(|p: (int, int)| ((p.0 as real) / 10000000000real, (p.1 as real) / 10000000000real));
    assert(ps == scaled);
    let x0 = ps[0].0; let x1 = ps[1].0; let x2 = ps[2].0; let x3 = ps[3].0; let x5 = ps[5].0; let x7 = ps[7].0; let x8 = ps[8].0;
    let y0 = ps[0].1; let w = ps[2].1; let y4 = ps[4].1; let y5 = ps[5].1;
    assert(x0 < x8 < x7 < x5 < x3 < x2 < x1);
    assert(y0 == ps[1].1 && y0 < w && w == ps[3].1 && w == ps[7].1 && w == ps[8].1);
    assert(w < y4 && y4 == ps[6].1 && y4 < y5);
    assert(ps[4].0 == x3 && ps[6].0 == x7);
    assert(ps.len() == 9);
    assert forall|i: int, j: int, p: (real, real)|
        0 <= i < j < ps.len() && #[trigger] on_edge(ps, i, p) && #[trigger] on_edge(ps, j, p) implies (j == i + 1
            && p == ps[j]) || (i == 0 && j == ps.len() - 1 && p == ps[0]) by {
        lemma_on_segment(p, ps[i], ps[(i + 1) % 9]);
        lemma_on_segment(p, ps[j], ps[(j + 1) % 9]);
    }
}

} // verus!
