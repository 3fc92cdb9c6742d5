use vstd::prelude::*;

use crate::geometry::Point;

verus! {

/// Number of fractional digits that a fixed-point coordinate carries.
pub const PLACES: u32 = 10;

pub const DENOMINATOR: u128 = 10_000_000_000;

pub open spec fn digit_char(d: int) -> char {
    if d == 0 {
        '0'
    } else if d == 1 {
        '1'
    } else if d == 2 {
        '2'
    } else if d == 3 {
        '3'
    } else if d == 4 {
        '4'
    } else if d == 5 {
        '5'
    } else if d == 6 {
        '6'
    } else if d == 7 {
        '7'
    } else if d == 8 {
        '8'
    } else {
        '9'
    }
}

/// Decimal digits of `v`, most significant first, without leading zeros.
pub open spec fn whole_text(v: nat) -> Seq<char>
    decreases v,
{
    if v < 10 {
        seq![digit_char(v as int)]
    } else {
        whole_text(v / 10) + seq![digit_char((v % 10) as int)]
    }
}

/// The last `places` decimal digits of `f`, zero-padded.
pub open spec fn padded_text(f: nat, places: nat) -> Seq<char>
    decreases places,
{
    if places == 0 {
        Seq::empty()
    } else {
        padded_text(f / 10, (places - 1) as nat) + seq![digit_char((f % 10) as int)]
    }
}

/// `f` as a fraction of `places` digits with its trailing zeros dropped:
/// the digits that remain, and how many.
pub open spec fn significant(f: nat, places: nat) -> (nat, nat)
    decreases places,
{
    if places > 0 && f % 10 == 0 {
        significant(f / 10, (places - 1) as nat)
    } else {
        (f, places)
    }
}

pub open spec fn magnitude(v: int) -> nat {
    if v < 0 {
        (-v) as nat
    } else {
        v as nat
    }
}

/// The shortest decimal text of the fixed-point value `v / 10^10`: a minus
/// sign when negative, the whole part, and the fraction only when not zero.
pub open spec fn fixed_text(v: int) -> Seq<char> {
    let a = magnitude(v);
    let sign = if v < 0 { seq!['-'] } else { Seq::empty() };
    let (f, p) = significant(a % 10_000_000_000, 10);
    let fraction = if p == 0 { Seq::empty() } else { seq!['.'] + padded_text(f, p) };
    sign + whole_text(a / 10_000_000_000) + fraction
}

fn digit(d: u128) -> (r: &'static str)
    requires
        d < 10,
    ensures
        r@ == seq![digit_char(d as int)],
{
    if d == 0 {
        proof { reveal_strlit("0"); }
        "0"
    } else if d == 1 {
        proof { reveal_strlit("1"); }
        "1"
    } else if d == 2 {
        proof { reveal_strlit("2"); }
        "2"
    } else if d == 3 {
        proof { reveal_strlit("3"); }
        "3"
    } else if d == 4 {
        proof { reveal_strlit("4"); }
        "4"
    } else if d == 5 {
        proof { reveal_strlit("5"); }
        "5"
    } else if d == 6 {
        proof { reveal_strlit("6"); }
        "6"
    } else if d == 7 {
        proof { reveal_strlit("7"); }
        "7"
    } else if d == 8 {
        proof { reveal_strlit("8"); }
        "8"
    } else {
        proof { reveal_strlit("9"); }
        "9"
    }
}

fn push_whole(s: &mut String, v: u128)
    ensures
        final(s)@ == old(s)@ + whole_text(v as nat),
    decreases v,
{
    if v >= 10 {
        push_whole(s, v / 10);
    }
    s.append(digit(v % 10));
    assert(final(s)@ =~= old(s)@ + whole_text(v as nat));
}

fn push_padded(s: &mut String, f: u128, places: u32)
    ensures
        final(s)@ == old(s)@ + padded_text(f as nat, places as nat),
    decreases places,
{
    if places > 0 {
        push_padded(s, f / 10, places - 1);
        s.append(digit(f % 10));
        assert(final(s)@ =~= old(s)@ + padded_text(f as nat, places as nat));
    }
}

fn trim_zeros(f: u128, places: u32) -> (r: (u128, u32))
    ensures
        (r.0 as nat, r.1 as nat) == significant(f as nat, places as nat),
{
    let mut g = f;
    let mut p = places;
    while p > 0 && g % 10 == 0
        invariant
            significant(g as nat, p as nat) == significant(f as nat, places as nat),
        decreases p,
    {
        g = g / 10;
        p = p - 1;
    }
    (g, p)
}

/// Writes the fixed-point value `v / 10^10` in the shortest decimal form
/// ("6", "8.4", "-0.5").
pub fn format_fixed(v: i128) -> (r: String)
    ensures
        r@ == fixed_text(v as int),
{
    let a: u128 = if v < 0 {
        ((-(v + 1)) as u128) + 1
    } else {
        v as u128
    };
    let mut s = String::new();
    if v < 0 {
        proof { reveal_strlit("-"); }
        s.append("-");
    }
    push_whole(&mut s, a / DENOMINATOR);
    let (f, p) = trim_zeros(a % DENOMINATOR, PLACES);
    if p > 0 {
        proof { reveal_strlit("."); }
        s.append(".");
        push_padded(&mut s, f, p);
    }
    assert(s@ =~= fixed_text(v as int));
    s
}


/// `x,y`: a point as path data writes it.
pub open spec fn pair_text(p: Point) -> Seq<char> {
    fixed_text(p.x as int) + seq![','] + fixed_text(p.y as int)
}

/// ` Lx,y` for each point, in order.
pub open spec fn lines_text(ps: Seq<Point>) -> Seq<char>
    decreases ps.len(),
{
    if ps.len() == 0 {
        Seq::empty()
    } else {
        lines_text(ps.drop_last()) + seq![' ', 'L'] + pair_text(ps.last())
    }
}

/// Path data of a closed polygon: move to the first corner, a straight line
/// to each of the others, close.
pub open spec fn polygon_path_text(ps: Seq<Point>) -> Seq<char> {
    seq!['M'] + pair_text(ps[0]) + lines_text(ps.subrange(1, ps.len() as int)) + seq![' ', 'z']
}

/// Path data of an axis-aligned rectangle given by its four corners,
/// clockwise from the top-left: move, horizontal, vertical, horizontal, close.
pub open spec fn rectangle_path_text(ps: Seq<Point>) -> Seq<char> {
    seq!['M'] + pair_text(ps[0]) + seq![' ', 'H'] + fixed_text(ps[1].x as int) + seq![' ', 'V']
        + fixed_text(ps[2].y as int) + seq![' ', 'H'] + fixed_text(ps[3].x as int) + seq![' ', 'z']
}

/// `x y` for each point, separated by single spaces.
pub open spec fn spaced_text(ps: Seq<Point>) -> Seq<char>
    decreases ps.len(),
{
    if ps.len() == 0 {
        Seq::empty()
    } else if ps.len() == 1 {
        fixed_text(ps[0].x as int) + seq![' '] + fixed_text(ps[0].y as int)
    } else {
        spaced_text(ps.drop_last()) + seq![' '] + fixed_text(ps.last().x as int) + seq![' ']
            + fixed_text(ps.last().y as int)
    }
}

fn push_pair(s: &mut String, p: Point, sep: &str)
    ensures
        final(s)@ == old(s)@ + fixed_text(p.x as int) + sep@ + fixed_text(p.y as int),
{
    s.append(format_fixed(p.x).as_str());
    s.append(sep);
    s.append(format_fixed(p.y).as_str());
}

/// Path data of the closed polygon through `ps`.
pub fn polygon_path(ps: &Vec<Point>) -> (r: String)
    requires
        ps.len() >= 1,
    ensures
        r@ == polygon_path_text(ps@),
{
    let mut s = String::new();
    proof { reveal_strlit("M"); reveal_strlit(","); }
    s.append("M");
    push_pair(&mut s, ps[0], ",");
    let ghost head = s@;
    let mut i: usize = 1;
    while i < ps.len()
        invariant
            1 <= i <= ps.len(),
            s@ == head + lines_text(ps@.subrange(1, i as int)),
            head == seq!['M'] + pair_text(ps@[0]),
        decreases ps.len() - i,
    {
        proof { reveal_strlit(" L"); reveal_strlit(","); }
        s.append(" L");
        push_pair(&mut s, ps[i], ",");
        proof {
            assert(ps@.subrange(1, i + 1).drop_last() =~= ps@.subrange(1, i as int));
        }
        i = i + 1;
        assert(s@ =~= head + lines_text(ps@.subrange(1, i as int)));
    }
    proof { reveal_strlit(" z"); }
    s.append(" z");
    assert(s@ =~= polygon_path_text(ps@));
    s
}

/// Path data of a rectangle from its corners, clockwise from the top-left.
pub fn rectangle_path(ps: &Vec<Point>) -> (r: String)
    requires
        ps.len() == 4,
    ensures
        r@ == rectangle_path_text(ps@),
{
    let mut s = String::new();
    proof {
        reveal_strlit("M");
        reveal_strlit(",");
        reveal_strlit(" H");
        reveal_strlit(" V");
        reveal_strlit(" z");
    }
    s.append("M");
    push_pair(&mut s, ps[0], ",");
    s.append(" H");
    s.append(format_fixed(ps[1].x).as_str());
    s.append(" V");
    s.append(format_fixed(ps[2].y).as_str());
    s.append(" H");
    s.append(format_fixed(ps[3].x).as_str());
    s.append(" z");
    assert(s@ =~= rectangle_path_text(ps@));
    s
}

/// The coordinates of `ps` as a list of numbers separated by spaces.
pub fn spaced_points(ps: &Vec<Point>) -> (r: String)
    ensures
        r@ == spaced_text(ps@),
{
    let mut s = String::new();
    let mut i: usize = 0;
    while i < ps.len()
        invariant
            i <= ps.len(),
            s@ == spaced_text(ps@.subrange(0, i as int)),
        decreases ps.len() - i,
    {
        proof { reveal_strlit(" "); }
        if i > 0 {
            s.append(" ");
        }
        push_pair(&mut s, ps[i], " ");
        proof {
            assert(ps@.subrange(0, i + 1).drop_last() =~= ps@.subrange(0, i as int));
        }
        i = i + 1;
        assert(s@ =~= spaced_text(ps@.subrange(0, i as int)));
    }
    assert(ps@.subrange(0, ps@.len() as int) =~= ps@);
    s
}

} // verus!
