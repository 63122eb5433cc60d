use vstd::prelude::*;

verus! {

/// Fixed-point scale of a direction component: `DIR_SCALE` stands for 1.
pub const DIR_SCALE: i64 = 10000;

/// How far the squared length of a direction may stray from `DIR_SCALE * DIR_SCALE`
/// through the rounding of its components.
pub const DIR_TOLERANCE: i64 = 20000;

/// A direction `(dx, dy)` is a unit vector, up to the rounding of the fixed-point scale.
pub open spec fn is_unit(dx: int, dy: int) -> bool {
    &&& -DIR_SCALE <= dx <= DIR_SCALE
    &&& -DIR_SCALE <= dy <= DIR_SCALE
    &&& DIR_SCALE * DIR_SCALE - DIR_TOLERANCE <= dx * dx + dy * dy
    &&& dx * dx + dy * dy <= DIR_SCALE * DIR_SCALE + DIR_TOLERANCE
}

/// Reversing either component of a direction keeps its length exactly, so a direction
/// stays a unit vector through any number of reflections.
pub proof fn lemma_reflection_keeps_unit(dx: int, dy: int)
    ensures
        (-dx) * (-dx) + dy * dy == dx * dx + dy * dy,
        dx * dx + (-dy) * (-dy) == dx * dx + dy * dy,
        is_unit(dx, dy) ==> is_unit(-dx, dy),
        is_unit(dx, dy) ==> is_unit(dx, -dy),
{
    assert((-dx) * (-dx) == dx * dx) by (nonlinear_arith);
    assert((-dy) * (-dy) == dy * dy) by (nonlinear_arith);
}

/// Cosine and sine of `d` whole degrees, `0 <= d <= 90`, rounded to `DIR_SCALE`.
pub open spec fn quarter_turn(d: int) -> (int, int) {
        if d == 0 {
            (10000, 0)
        } else if d == 1 {
            (9998, 175)
        } else if d == 2 {
            (9994, 349)
        } else if d == 3 {
            (9986, 523)
        } else if d == 4 {
            (9976, 698)
        } else if d == 5 {
            (9962, 872)
        } else if d == 6 {
            (9945, 1045)
        } else if d == 7 {
            (9925, 1219)
        } else if d == 8 {
            (9903, 1392)
        } else if d == 9 {
            (9877, 1564)
        } else if d == 10 {
            (9848, 1736)
        } else if d == 11 {
            (9816, 1908)
        } else if d == 12 {
            (9781, 2079)
        } else if d == 13 {
            (9744, 2250)
        } else if d == 14 {
            (9703, 2419)
        } else if d == 15 {
            (9659, 2588)
        } else if d == 16 {
            (9613, 2756)
        } else if d == 17 {
            (9563, 2924)
        } else if d == 18 {
            (9511, 3090)
        } else if d == 19 {
            (9455, 3256)
        } else if d == 20 {
            (9397, 3420)
        } else if d == 21 {
            (9336, 3584)
        } else if d == 22 {
            (9272, 3746)
        } else if d == 23 {
            (9205, 3907)
        } else if d == 24 {
            (9135, 4067)
        } else if d == 25 {
            (9063, 4226)
        } else if d == 26 {
            (8988, 4384)
        } else if d == 27 {
            (8910, 4540)
        } else if d == 28 {
            (8829, 4695)
        } else if d == 29 {
            (8746, 4848)
        } else if d == 30 {
            (8660, 5000)
        } else if d == 31 {
            (8572, 5150)
        } else if d == 32 {
            (8480, 5299)
        } else if d == 33 {
            (8387, 5446)
        } else if d == 34 {
            (8290, 5592)
        } else if d == 35 {
            (8192, 5736)
        } else if d == 36 {
            (8090, 5878)
        } else if d == 37 {
            (7986, 6018)
        } else if d == 38 {
            (7880, 6157)
        } else if d == 39 {
            (7771, 6293)
        } else if d == 40 {
            (7660, 6428)
        } else if d == 41 {
            (7547, 6561)
        } else if d == 42 {
            (7431, 6691)
        } else if d == 43 {
            (7314, 6820)
        } else if d == 44 {
            (7193, 6947)
        } else if d == 45 {
            (7071, 7071)
        } else if d == 46 {
            (6947, 7193)
        } else if d == 47 {
            (6820, 7314)
        } else if d == 48 {
            (6691, 7431)
        } else if d == 49 {
            (6561, 7547)
        } else if d == 50 {
            (6428, 7660)
        } else if d == 51 {
            (6293, 7771)
        } else if d == 52 {
            (6157, 7880)
        } else if d == 53 {
            (6018, 7986)
        } else if d == 54 {
            (5878, 8090)
        } else if d == 55 {
            (5736, 8192)
        } else if d == 56 {
            (5592, 8290)
        } else if d == 57 {
            (5446, 8387)
        } else if d == 58 {
            (5299, 8480)
        } else if d == 59 {
            (5150, 8572)
        } else if d == 60 {
            (5000, 8660)
        } else if d == 61 {
            (4848, 8746)
        } else if d == 62 {
            (4695, 8829)
        } else if d == 63 {
            (4540, 8910)
        } else if d == 64 {
            (4384, 8988)
        } else if d == 65 {
            (4226, 9063)
        } else if d == 66 {
            (4067, 9135)
        } else if d == 67 {
            (3907, 9205)
        } else if d == 68 {
            (3746, 9272)
        } else if d == 69 {
            (3584, 9336)
        } else if d == 70 {
            (3420, 9397)
        } else if d == 71 {
            (3256, 9455)
        } else if d == 72 {
            (3090, 9511)
        } else if d == 73 {
            (2924, 9563)
        } else if d == 74 {
            (2756, 9613)
        } else if d == 75 {
            (2588, 9659)
        } else if d == 76 {
            (2419, 9703)
        } else if d == 77 {
            (2250, 9744)
        } else if d == 78 {
            (2079, 9781)
        } else if d == 79 {
            (1908, 9816)
        } else if d == 80 {
            (1736, 9848)
        } else if d == 81 {
            (1564, 9877)
        } else if d == 82 {
            (1392, 9903)
        } else if d == 83 {
            (1219, 9925)
        } else if d == 84 {
            (1045, 9945)
        } else if d == 85 {
            (872, 9962)
        } else if d == 86 {
            (698, 9976)
        } else if d == 87 {
            (523, 9986)
        } else if d == 88 {
            (349, 9994)
        } else if d == 89 {
            (175, 9998)
        } else {
            (0, 10000)
        }
}

/// Every entry of the quarter-turn table is a unit vector with non-negative components.
pub proof fn lemma_quarter_turn_unit(d: int)
    requires
        0 <= d <= 90,
    ensures
        is_unit(quarter_turn(d).0, quarter_turn(d).1),
        0 <= quarter_turn(d).0,
        0 <= quarter_turn(d).1,
        quarter_turn(d).0 > 0 <==> d < 90,
        d >= 30 ==> quarter_turn(d).1 >= DIR_SCALE / 2,
        d >= 31 ==> quarter_turn(d).1 > DIR_SCALE / 2,
{
}

/// Cosines fall as the angle grows, one degree at a time.
proof fn lemma_quarter_turn_step(d: int)
    requires
        0 <= d < 90,
    ensures
        quarter_turn(d + 1).0 < quarter_turn(d).0,
{
}

/// Cosines fall as the angle grows.
pub proof fn lemma_quarter_turn_falls(a: int, b: int)
    requires
        0 <= a <= b <= 90,
    ensures
        quarter_turn(b).0 <= quarter_turn(a).0,
        a < b ==> quarter_turn(b).0 < quarter_turn(a).0,
    decreases b - a,
{
    if a < b {
        lemma_quarter_turn_step(b - 1);
        lemma_quarter_turn_falls(a, b - 1);
    }
}

/// The horizontal component of a heading falls as the heading grows, from rightwards
/// at 0 degrees to leftwards at 180.
pub proof fn lemma_heading_dx_falls(a: int, b: int)
    requires
        0 <= a <= b <= 180,
    ensures
        heading_dir(b).0 <= heading_dir(a).0,
        a < b ==> heading_dir(b).0 < heading_dir(a).0,
{
    if b <= 90 {
        lemma_quarter_turn_falls(a, b);
    } else if a > 90 {
        lemma_quarter_turn_falls(180 - b, 180 - a);
    } else {
        lemma_quarter_turn_unit(a);
        lemma_quarter_turn_unit(180 - b);
    }
}

/// The screen direction of heading `deg` (in degrees, `0 <= deg <= 180`, counted
/// anticlockwise from rightwards): `x` grows rightwards and `y` grows downwards, so a
/// heading in `(0, 180)` moves up the screen.
pub open spec fn heading_dir(deg: int) -> (int, int) {
    if deg <= 90 {
        let q = quarter_turn(deg);
        (q.0, -q.1)
    } else {
        let q = quarter_turn(180 - deg);
        (-q.0, -q.1)
    }
}

fn quarter_turn_exec(d: u32) -> (r: (i64, i64))
    requires
        d <= 90,
    ensures
        r.0 as int == quarter_turn(d as int).0,
        r.1 as int == quarter_turn(d as int).1,
        is_unit(r.0 as int, r.1 as int),
        0 <= r.0 && 0 <= r.1,
        r.0 > 0 <==> d < 90,
        r.1 > 0 <==> d > 0,
        d >= 30 ==> r.1 >= DIR_SCALE / 2,
        d >= 31 ==> r.1 > DIR_SCALE / 2,
{
    match d {
        0 => (10000, 0),
        1 => (9998, 175),
        2 => (9994, 349),
        3 => (9986, 523),
        4 => (9976, 698),
        5 => (9962, 872),
        6 => (9945, 1045),
        7 => (9925, 1219),
        8 => (9903, 1392),
        9 => (9877, 1564),
        10 => (9848, 1736),
        11 => (9816, 1908),
        12 => (9781, 2079),
        13 => (9744, 2250),
        14 => (9703, 2419),
        15 => (9659, 2588),
        16 => (9613, 2756),
        17 => (9563, 2924),
        18 => (9511, 3090),
        19 => (9455, 3256),
        20 => (9397, 3420),
        21 => (9336, 3584),
        22 => (9272, 3746),
        23 => (9205, 3907),
        24 => (9135, 4067),
        25 => (9063, 4226),
        26 => (8988, 4384),
        27 => (8910, 4540),
        28 => (8829, 4695),
        29 => (8746, 4848),
        30 => (8660, 5000),
        31 => (8572, 5150),
        32 => (8480, 5299),
        33 => (8387, 5446),
        34 => (8290, 5592),
        35 => (8192, 5736),
        36 => (8090, 5878),
        37 => (7986, 6018),
        38 => (7880, 6157),
        39 => (7771, 6293),
        40 => (7660, 6428),
        41 => (7547, 6561),
        42 => (7431, 6691),
        43 => (7314, 6820),
        44 => (7193, 6947),
        45 => (7071, 7071),
        46 => (6947, 7193),
        47 => (6820, 7314),
        48 => (6691, 7431),
        49 => (6561, 7547),
        50 => (6428, 7660),
        51 => (6293, 7771),
        52 => (6157, 7880),
        53 => (6018, 7986),
        54 => (5878, 8090),
        55 => (5736, 8192),
        56 => (5592, 8290),
        57 => (5446, 8387),
        58 => (5299, 8480),
        59 => (5150, 8572),
        60 => (5000, 8660),
        61 => (4848, 8746),
        62 => (4695, 8829),
        63 => (4540, 8910),
        64 => (4384, 8988),
        65 => (4226, 9063),
        66 => (4067, 9135),
        67 => (3907, 9205),
        68 => (3746, 9272),
        69 => (3584, 9336),
        70 => (3420, 9397),
        71 => (3256, 9455),
        72 => (3090, 9511),
        73 => (2924, 9563),
        74 => (2756, 9613),
        75 => (2588, 9659),
        76 => (2419, 9703),
        77 => (2250, 9744),
        78 => (2079, 9781),
        79 => (1908, 9816),
        80 => (1736, 9848),
        81 => (1564, 9877),
        82 => (1392, 9903),
        83 => (1219, 9925),
        84 => (1045, 9945),
        85 => (872, 9962),
        86 => (698, 9976),
        87 => (523, 9986),
        88 => (349, 9994),
        89 => (175, 9998),
        _ => (0, 10000),
    }
}

/// The heading a paddle gives the ball that strikes it `offset` units from its left
/// end, on a paddle `span` units wide: 45 degrees at the left end, 135 at the right
/// end, rounded down in between.
pub open spec fn hit_angle_spec(offset: int, span: int) -> int {
    45 + 90 * offset / span
}

/// Every heading gives a unit vector that does not point down the screen; one that
/// leans at least 30 degrees from the horizontal rises at least half as fast as it moves,
/// and one that leans more rises faster than that.
pub proof fn lemma_heading_unit(deg: int)
    requires
        0 <= deg <= 180,
    ensures
        is_unit(heading_dir(deg).0, heading_dir(deg).1),
        heading_dir(deg).1 <= 0,
        deg < 90 ==> heading_dir(deg).0 > 0,
        deg == 90 ==> heading_dir(deg).0 == 0,
        deg > 90 ==> heading_dir(deg).0 < 0,
        30 <= deg <= 150 ==> heading_dir(deg).1 <= -(DIR_SCALE / 2),
        30 < deg < 150 ==> heading_dir(deg).1 < -(DIR_SCALE / 2),
{
    if deg <= 90 {
        lemma_quarter_turn_unit(deg);
        let q = quarter_turn(deg);
        lemma_reflection_keeps_unit(q.0, q.1);
    } else {
        lemma_quarter_turn_unit(180 - deg);
        let q = quarter_turn(180 - deg);
        lemma_reflection_keeps_unit(q.0, q.1);
        lemma_reflection_keeps_unit(-q.0, q.1);
    }
}

/// The screen direction of the heading `deg`, see [`heading_dir`].
pub fn heading_direction(deg: u32) -> (r: (i64, i64))
    requires
        deg <= 180,
    ensures
        r.0 as int == heading_dir(deg as int).0,
        r.1 as int == heading_dir(deg as int).1,
        is_unit(r.0 as int, r.1 as int),
        r.1 <= 0,
        deg < 90 ==> r.0 > 0,
        deg == 90 ==> r.0 == 0,
        deg > 90 ==> r.0 < 0,
        30 <= deg <= 150 ==> r.1 <= -(DIR_SCALE / 2),
        30 < deg < 150 ==> r.1 < -(DIR_SCALE / 2),
{
    if deg <= 90 {
        let q = quarter_turn_exec(deg);
        proof {
            lemma_reflection_keeps_unit(q.0 as int, q.1 as int);
        }
        (q.0, -q.1)
    } else {
        let q = quarter_turn_exec(180 - deg);
        proof {
            lemma_reflection_keeps_unit(q.0 as int, q.1 as int);
            lemma_reflection_keeps_unit(-q.0, q.1 as int);
        }
        (-q.0, -q.1)
    }
}

/// The angle of the bounce off a paddle `span` units wide, struck `offset` units from
/// its left end.
pub fn hit_angle(offset: u32, span: u32) -> (r: u32)
    requires
        0 < span,
        offset <= span,
    ensures
        r as int == hit_angle_spec(offset as int, span as int),
        45 <= r <= 135,
{
    proof {
        assert(90 * offset as int / span as int <= 90) by (nonlinear_arith)
            requires offset <= span, 0 < span;
        assert(90 * offset as int / span as int >= 0) by (nonlinear_arith)
            requires offset >= 0, 0 < span;
    }
    let q: u64 = (90 * offset as u64) / span as u64;
    45 + q as u32
}

/// The bounce angle grows with the point of impact: 45 degrees at the paddle's left
/// end, 135 at its right end, and a right angle at its centre when the width is even.
pub proof fn lemma_hit_angle_monotonic(a: int, b: int, span: int)
    requires
        0 <= a <= b <= span,
        0 < span,
    ensures
        hit_angle_spec(a, span) <= hit_angle_spec(b, span),
        hit_angle_spec(0, span) == 45,
        hit_angle_spec(span, span) == 135,
        span % 2 == 0 ==> hit_angle_spec(span / 2, span) == 90,
{
    assert(90 * a / span <= 90 * b / span) by (nonlinear_arith)
        requires a <= b, 0 < span, 0 <= a;
    assert(90 * span / span == 90) by (nonlinear_arith)
        requires 0 < span;
    assert(90 * 0int / span == 0) by (nonlinear_arith)
        requires 0 < span;
    assert(span % 2 == 0 ==> 90 * (span / 2) / span == 45) by (nonlinear_arith)
        requires 0 < span;
}

} // verus!
