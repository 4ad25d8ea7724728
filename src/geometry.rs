use vstd::prelude::*;

verus! {

/// Every coordinate that a drawing operation produces stays below this bound.
pub const COORD_LIMIT: usize = 0x4000_0000;

/// A cell address: column `x`, row `y`.
#[derive(Clone, Copy, Debug, PartialEq, Eq, Structural)]
pub struct Pos {
    pub x: usize,
    pub y: usize,
}

impl Pos {
    pub fn new(x: usize, y: usize) -> (r: Pos)
        ensures
            r == (Pos { x, y }),
    {
        Pos { x, y }
    }
}

/// True iff both coordinates of `p` lie below `COORD_LIMIT`.
pub open spec fn in_canvas(p: Pos) -> bool {
    p.x < COORD_LIMIT && p.y < COORD_LIMIT
}

/// Euclid's algorithm on natural numbers.
pub open spec fn gcd_nat(a: nat, b: nat) -> nat
    decreases b,
{
    if b == 0 {
        a
    } else {
        gcd_nat(b, a % b)
    }
}

pub open spec fn abs(a: int) -> nat {
    if a < 0 {
        (-a) as nat
    } else {
        a as nat
    }
}

pub open spec fn sign(a: int) -> int {
    if a < 0 {
        -1
    } else if a == 0 {
        0
    } else {
        1
    }
}

/// The greatest common divisor divides both of its arguments.
pub proof fn lemma_gcd_divides(a: nat, b: nat)
    ensures
        gcd_nat(a, b) > 0 ==> a % gcd_nat(a, b) == 0 && b % gcd_nat(a, b) == 0,
        gcd_nat(a, b) == 0 ==> a == 0 && b == 0,
    decreases b,
{
    if b != 0 {
        lemma_gcd_divides(b, a % b);
        let g = gcd_nat(b, a % b);
        if g > 0 {
            let q = a / b;
            let r = a % b;
            assert(a == q * b + r) by (nonlinear_arith)
                requires
                    q == a / b,
                    r == a % b,
                    b > 0,
            ;
            let kb = b / g;
            let kr = r / g;
            assert(b == kb * g) by (nonlinear_arith)
                requires
                    kb == b / g,
                    b % g == 0,
                    g > 0,
            ;
            assert(r == kr * g) by (nonlinear_arith)
                requires
                    kr == r / g,
                    r % g == 0,
                    g > 0,
            ;
            assert(a == (q * kb + kr) * g) by (nonlinear_arith)
                requires
                    a == q * b + r,
                    b == kb * g,
                    r == kr * g,
            ;
            assert(a % g == 0) by (nonlinear_arith)
                requires
                    a == (q * kb + kr) * g,
                    g > 0,
                    q * kb + kr >= 0,
            {
                vstd::arithmetic::div_mod::lemma_mod_multiples_basic((q * kb + kr) as int, g as int);
            }
        } else {
            assert(b == 0);
        }
    } else if a > 0 {
        vstd::arithmetic::div_mod::lemma_mod_self_0(a as int);
        vstd::arithmetic::div_mod::lemma_small_mod(0, a);
    }
}

/// Returns the greatest common divisor of `a` and `b`, which is never negative.
pub fn gcd(a: isize, b: isize) -> (r: isize)
    requires
        a > isize::MIN,
        b > isize::MIN,
    ensures
        r == gcd_nat(abs(a as int), abs(b as int)),
        r >= 0,
{
    let mut x: usize = if a < 0 {
        (-a) as usize
    } else {
        a as usize
    };
    let mut y: usize = if b < 0 {
        (-b) as usize
    } else {
        b as usize
    };
    while y != 0
        invariant
            gcd_nat(x as nat, y as nat) == gcd_nat(abs(a as int), abs(b as int)),
            x <= isize::MAX,
            y <= isize::MAX,
        decreases y,
    {
        let t = y;
        y = x % y;
        x = t;
    }
    x as isize
}

/// Returns the absolute difference between `a` and `b`.
pub fn diff(a: usize, b: usize) -> (r: usize)
    ensures
        r == abs(a - b),
{
    if a >= b {
        a - b
    } else {
        b - a
    }
}

/// The direction from `src` to `dst`, divided by the greatest common divisor
/// of its two components.
pub open spec fn slope_spec(src: Pos, dst: Pos) -> (int, int) {
    let dx = dst.x - src.x;
    let dy = dst.y - src.y;
    let g = gcd_nat(abs(dx), abs(dy));
    if g == 0 {
        (0, 0)
    } else {
        (sign(dx) * (abs(dx) / g) as int, sign(dy) * (abs(dy) / g) as int)
    }
}

/// A reduced slope has the signs of the difference it was taken from, and a
/// straight move reduces to a unit step.
pub proof fn lemma_slope_signs(src: Pos, dst: Pos)
    ensures
        sign(slope_spec(src, dst).0) == sign(dst.x - src.x),
        sign(slope_spec(src, dst).1) == sign(dst.y - src.y),
        dst.x == src.x && dst.y != src.y ==> slope_spec(src, dst) == (0int, sign(dst.y - src.y)),
        dst.y == src.y && dst.x != src.x ==> slope_spec(src, dst) == (sign(dst.x - src.x), 0int),
{
    let dx = dst.x - src.x;
    let dy = dst.y - src.y;
    let ax = abs(dx);
    let ay = abs(dy);
    let g = gcd_nat(ax, ay);
    lemma_gcd_divides(ax, ay);
    if g > 0 {
        if ax > 0 {
            assert(ax / g >= 1) by (nonlinear_arith)
                requires
                    ax % g == 0,
                    ax > 0,
                    g > 0,
            {
                vstd::arithmetic::div_mod::lemma_fundamental_div_mod(ax as int, g as int);
            }
        }
        if ay > 0 {
            assert(ay / g >= 1) by (nonlinear_arith)
                requires
                    ay % g == 0,
                    ay > 0,
                    g > 0,
            {
                vstd::arithmetic::div_mod::lemma_fundamental_div_mod(ay as int, g as int);
            }
        }
        if ax == 0 && ay > 0 {
            assert(gcd_nat(0, ay) == gcd_nat(ay, 0nat % ay));
            assert(g == ay);
            vstd::arithmetic::div_mod::lemma_div_basics(ay as int);
        }
        if ay == 0 && ax > 0 {
            assert(g == ax);
            vstd::arithmetic::div_mod::lemma_div_basics(ax as int);
        }
    }
}

/// Returns the slope between `src` and `dst`, reduced to its simplest terms.
pub fn line_slope(src: Pos, dst: Pos) -> (r: (isize, isize))
    requires
        in_canvas(src),
        in_canvas(dst),
    ensures
        r.0 == slope_spec(src, dst).0,
        r.1 == slope_spec(src, dst).1,
        sign(r.0 as int) == sign(dst.x - src.x),
        sign(r.1 as int) == sign(dst.y - src.y),
        dst.x == src.x && dst.y != src.y ==> r.0 == 0 && r.1 as int == sign(dst.y - src.y),
        dst.y == src.y && dst.x != src.x ==> r.1 == 0 && r.0 as int == sign(dst.x - src.x),
{
    proof {
        lemma_slope_signs(src, dst);
    }
    let dx: isize = dst.x as isize - src.x as isize;
    let dy: isize = dst.y as isize - src.y as isize;
    let g = gcd(dx, dy);
    if g == 0 {
        (0, 0)
    } else {
        let ax: isize = if dx < 0 { -dx } else { dx };
        let ay: isize = if dy < 0 { -dy } else { dy };
        let qx: isize = ax / g;
        let qy: isize = ay / g;
        proof {
            assert(qx <= ax) by (nonlinear_arith)
                requires qx == ax / g, g > 0, ax >= 0;
            assert(qy <= ay) by (nonlinear_arith)
                requires qy == ay / g, g > 0, ay >= 0;
        }
        let rx: isize = if dx < 0 { -qx } else if dx == 0 { 0 } else { qx };
        let ry: isize = if dy < 0 { -qy } else if dy == 0 { 0 } else { qy };
        (rx, ry)
    }
}

/// The elbow of a 45-degree connector from `src` to `dst`.
pub open spec fn snap45_spec(src: Pos, dst: Pos) -> Pos {
    let dx = dst.x - src.x;
    let dy = dst.y - src.y;
    let d: int = if abs(dy) <= abs(dx) { abs(dy) as int } else { abs(dx) as int };
    if dx < 0 && dy < 0 {
        Pos { x: (dst.x + d) as usize, y: (dst.y + d) as usize }
    } else if dx > 0 && dy < 0 {
        Pos { x: (dst.x - d) as usize, y: (dst.y + d) as usize }
    } else if dx < 0 && dy > 0 {
        Pos { x: (dst.x + d) as usize, y: (dst.y - d) as usize }
    } else if dx > 0 && dy > 0 {
        Pos { x: (dst.x - d) as usize, y: (dst.y - d) as usize }
    } else {
        dst
    }
}

/// Returns the elbow point for a 45-degree connector: `dst` moved back toward
/// `src` along the diagonal by the shorter of the two distances (not at all
/// when the two share a row or a column).
pub fn snap45(src: Pos, dst: Pos) -> (r: Pos)
    ensures
        r == snap45_spec(src, dst),
        in_canvas(src) && in_canvas(dst) ==> in_canvas(r),
{
    let dy = diff(src.y, dst.y);
    let dx = diff(src.x, dst.x);
    let d = if dy <= dx { dy } else { dx };
    if dst.x < src.x && dst.y < src.y {
        Pos { x: dst.x + d, y: dst.y + d }
    } else if dst.x > src.x && dst.y < src.y {
        Pos { x: dst.x - d, y: dst.y + d }
    } else if dst.x < src.x && dst.y > src.y {
        Pos { x: dst.x + d, y: dst.y - d }
    } else if dst.x > src.x && dst.y > src.y {
        Pos { x: dst.x - d, y: dst.y - d }
    } else {
        dst
    }
}

/// Returns the scroll offset `x` after the pointer moved from `old` to `new`:
/// the content follows the pointer, stopping at zero.
pub fn drag(x: usize, new: usize, old: usize) -> (r: usize)
    requires
        new <= old ==> x + (old - new) <= usize::MAX,
    ensures
        new > old ==> r == (if x >= new - old { x - (new - old) } else { 0 }),
        new <= old ==> r == x + (old - new),
{
    if new > old {
        let d = new - old;
        if x >= d {
            x - d
        } else {
            0
        }
    } else {
        x + (old - new)
    }
}

} // verus!
