use vstd::prelude::*;
use vstd::arithmetic::div_mod::{
    lemma_div_is_ordered, lemma_div_nonincreasing, lemma_div_pos_is_pos,
    lemma_fundamental_div_mod, lemma_mod_multiples_basic, lemma_mod_self_0,
};

verus! {

/// A rational number `num/den` of seconds, the duration of one timestamp
/// tick.  The pipeline uses three of them: the decode time base `1/1000`
/// (packet timestamps are whole milliseconds), the encode time base derived
/// from the smallest frame delay, and the container's fixed `1/90000`.
#[derive(Clone, Copy, Debug, PartialEq, Eq, Structural)]
pub struct TimeBase {
    pub num: i64,
    pub den: i64,
}

impl TimeBase {
    /// Every time base the pipeline builds has a positive numerator and
    /// denominator, each small enough that rescaling arithmetic stays in
    /// range.
    pub open spec fn wf(self) -> bool {
        &&& 1 <= self.num <= u32::MAX
        &&& 1 <= self.den <= u32::MAX
    }

    pub open spec fn invert_spec(self) -> TimeBase {
        TimeBase { num: self.den, den: self.num }
    }

    /// The reciprocal rational; the frame rate is the inverse of the encode
    /// time base.
    pub fn invert(self) -> (r: TimeBase)
        ensures
            r == self.invert_spec(),
    {
        TimeBase { num: self.den, den: self.num }
    }
}

pub open spec fn decode_tb_spec() -> TimeBase {
    TimeBase { num: 1 as i64, den: 1000 as i64 }
}

/// The fixed decode time base `1/1000`: packet timestamps entering the
/// decoder are expressed in whole milliseconds.
pub fn decode_time_base() -> (t: TimeBase)
    ensures
        t == decode_tb_spec(),
        t.wf(),
{
    TimeBase { num: 1, den: 1000 }
}

pub open spec fn output_tb_spec() -> TimeBase {
    TimeBase { num: 1 as i64, den: 90000 as i64 }
}

/// The fixed container time base `1/90000`.
pub fn output_time_base() -> (t: TimeBase)
    ensures
        t == output_tb_spec(),
        t.wf(),
{
    TimeBase { num: 1, den: 90000 }
}

/// Euclid's greatest common divisor, on non-negative arguments.
pub open spec fn gcd(a: int, b: int) -> int
    decreases b,
{
    if b <= 0 {
        a
    } else {
        gcd(b, a % b)
    }
}

/// For positive `a` and non-negative `b`, `gcd(a, b)` is positive, divides
/// both arguments, and is no larger than either positive argument.
pub proof fn lemma_gcd_properties(a: int, b: int)
    requires
        a >= 1,
        b >= 0,
    ensures
        1 <= gcd(a, b) <= a,
        a % gcd(a, b) == 0,
        b % gcd(a, b) == 0,
        b >= 1 ==> gcd(a, b) <= b,
    decreases b,
{
    let g = gcd(a, b);
    if b <= 0 {
        lemma_mod_self_0(a);
        assert(0int % a == 0) by {
            vstd::arithmetic::div_mod::lemma_small_mod(0nat, a as nat);
        }
    } else {
        lemma_gcd_properties(b, a % b);
        assert(g == gcd(b, a % b));
        // g divides b and a % b; a == b * (a / b) + a % b, so g divides a.
        lemma_fundamental_div_mod(a, b);
        lemma_fundamental_div_mod(b, g);
        lemma_fundamental_div_mod(a % b, g);
        let k = (b / g) * (a / b) + (a % b) / g;
        assert(a == g * k) by (nonlinear_arith)
            requires
                a == b * (a / b) + a % b,
                b == g * (b / g) + 0,
                a % b == g * ((a % b) / g) + 0,
                k == (b / g) * (a / b) + (a % b) / g,
        {}
        lemma_mod_multiples_basic(k, g);
        assert(a % g == (g * k) % g);
        assert(k >= 1 && g * k >= g) by (nonlinear_arith)
            requires
                a == g * k,
                a >= 1,
                g >= 1,
        {}
    }
}

/// Euclid's algorithm.
pub fn gcd_u32(a: u32, b: u32) -> (g: u32)
    requires
        1 <= a,
    ensures
        g as int == gcd(a as int, b as int),
        1 <= g,
{
    let mut x: u32 = a;
    let mut y: u32 = b;
    while y != 0
        invariant
            1 <= x,
            gcd(x as int, y as int) == gcd(a as int, b as int),
        decreases y,
    {
        let r: u32 = x % y;
        x = y;
        y = r;
    }
    proof {
        lemma_gcd_properties(a as int, b as int);
    }
    x
}

/// The encode time base for a run whose smallest frame delay is `ld`
/// milliseconds: the rational `ld/1000`, reduced by the greatest common
/// divisor.
pub open spec fn encode_tb_spec(ld: int) -> TimeBase {
    TimeBase {
        num: (ld / gcd(ld, 1000)) as i64,
        den: (1000int / gcd(ld, 1000)) as i64,
    }
}

/// Derives the encode time base from the smallest delay of the run.  The
/// result is the reduced form of `lowest_delay/1000`; in particular its
/// denominator is `1000 / gcd(lowest_delay, 1000)`, and inverting it gives a
/// frame rate exactly equal to `1000 / lowest_delay` frames per second.
pub fn encode_time_base(lowest_delay: u32) -> (t: TimeBase)
    requires
        1 <= lowest_delay,
    ensures
        t == encode_tb_spec(lowest_delay as int),
        t.wf(),
        t.num * 1000 == t.den * lowest_delay,
        t.den == 1000int / gcd(lowest_delay as int, 1000),
        t.num == lowest_delay as int / gcd(lowest_delay as int, 1000),
{
    proof {
        lemma_gcd_properties(lowest_delay as int, 1000);
    }
    let g: u32 = gcd_u32(lowest_delay, 1000);
    let num: u32 = lowest_delay / g;
    let den: u32 = 1000 / g;
    proof {
        let ldi = lowest_delay as int;
        let gi = g as int;
        lemma_fundamental_div_mod(ldi, gi);
        lemma_fundamental_div_mod(1000int, gi);
        lemma_div_pos_is_pos(ldi, gi);
        lemma_div_pos_is_pos(1000int, gi);
        lemma_div_nonincreasing(ldi, gi);
        // ld == g * num and 1000 == g * den, hence num * 1000 == den * ld.
        assert(num as int >= 1 && den as int >= 1 && num as int * 1000 == den as int * ldi)
            by (nonlinear_arith)
            requires
                ldi == gi * (num as int),
                1000int == gi * (den as int),
                ldi >= 1,
                1000int >= 1,
                gi >= 1,
                num as int >= 0,
                den as int >= 0,
        {}
    }
    TimeBase { num: num as i64, den: den as i64 }
}

/// The derived encode time base is well formed, reduced from `ld/1000`,
/// and exactly equal to it as a rational.
pub proof fn lemma_encode_tb_spec_props(ld: int)
    requires
        1 <= ld <= u32::MAX,
    ensures
        encode_tb_spec(ld).wf(),
        1 <= encode_tb_spec(ld).num <= ld,
        1 <= encode_tb_spec(ld).den <= 1000,
        encode_tb_spec(ld).num * 1000 == encode_tb_spec(ld).den * ld,
{
    lemma_gcd_properties(ld, 1000);
    let g = gcd(ld, 1000);
    lemma_fundamental_div_mod(ld, g);
    lemma_fundamental_div_mod(1000int, g);
    lemma_div_pos_is_pos(ld, g);
    lemma_div_pos_is_pos(1000int, g);
    lemma_div_nonincreasing(ld, g);
    lemma_div_nonincreasing(1000int, g);
    let num = ld / g;
    let den = 1000int / g;
    assert(num >= 1 && den >= 1 && num * 1000 == den * ld) by (nonlinear_arith)
        requires
            ld == g * num,
            1000int == g * den,
            ld >= 1,
            1000int >= 1,
            g >= 1,
            num >= 0,
            den >= 0,
    {}
}

/// Integer division of `n` by positive `d`, rounded to the nearest integer
/// with ties away from zero.
pub open spec fn round_div_near(n: int, d: int) -> int
    recommends
        d >= 1,
{
    if n >= 0 {
        (n + d / 2) / d
    } else {
        -(((-n) + d / 2) / d)
    }
}

/// `v` ticks of `from` expressed in ticks of `to`: `v * from / to` as
/// correctly rounded integer arithmetic.
pub open spec fn rescale_spec(v: int, from: TimeBase, to: TimeBase) -> int {
    round_div_near(v * from.num * to.den, from.den * to.num)
}

/// The magnitude bound under which `rescale` is free of overflow.
pub open spec fn rescale_in_range(v: int, from: TimeBase, to: TimeBase) -> bool {
    let m = if v >= 0 { v } else { -v };
    m * from.num * to.den + (from.den * to.num) / 2 <= i64::MAX
}

/// Converts a timestamp or duration between two time bases with rounding to
/// nearest, ties away from zero.
pub fn rescale(v: i64, from: TimeBase, to: TimeBase) -> (r: i64)
    requires
        from.wf(),
        to.wf(),
        rescale_in_range(v as int, from, to),
    ensures
        r == rescale_spec(v as int, from, to),
        v >= 0 ==> r >= 0,
        v < 0 ==> r <= 0,
{
    proof {
        let m = if v as int >= 0 { v as int } else { -(v as int) };
        assert(m <= m * from.num * to.den) by (nonlinear_arith)
            requires
                m >= 0,
                from.num >= 1,
                to.den >= 1,
        {}
    }
    let neg: bool = v < 0;
    let m: u64 = if neg {
        (-v) as u64
    } else {
        v as u64
    };
    let d: u64 = (from.den as u64) * (to.num as u64);
    proof {
        assert(from.den * to.num >= 1) by (nonlinear_arith)
            requires
                from.den >= 1,
                to.num >= 1,
        {}
        let mi = m as int;
        assert(mi * from.num <= mi * from.num * to.den) by (nonlinear_arith)
            requires
                mi >= 0,
                from.num >= 1,
                to.den >= 1,
        {}
        assert(mi * from.num >= 0) by (nonlinear_arith)
            requires
                mi >= 0,
                from.num >= 1,
        {}
    }
    let n: u64 = m * (from.num as u64) * (to.den as u64);
    let q: u64 = (n + d / 2) / d;
    proof {
        lemma_div_pos_is_pos((n + d / 2) as int, d as int);
        lemma_div_nonincreasing((n + d / 2) as int, d as int);
    }
    let qi: i64 = q as i64;
    proof {
        let vi = v as int;
        if neg {
            assert(vi * from.num * to.den == -((-vi) * from.num * to.den)) by (nonlinear_arith) {}
            assert(vi * from.num * to.den <= vi) by (nonlinear_arith)
                requires
                    vi < 0,
                    from.num >= 1,
                    to.den >= 1,
            {}
        }
    }
    if neg {
        -qi
    } else {
        qi
    }
}

/// Rounded division by a fixed positive divisor preserves order.
pub proof fn lemma_round_div_near_ordered(n1: int, n2: int, d: int)
    requires
        d >= 1,
        n1 <= n2,
    ensures
        round_div_near(n1, d) <= round_div_near(n2, d),
{
    let h = d / 2;
    lemma_div_pos_is_pos(h, d);
    if n1 >= 0 {
        lemma_div_is_ordered(n1 + h, n2 + h, d);
    } else if n2 >= 0 {
        lemma_div_pos_is_pos((-n1) + h, d);
        lemma_div_pos_is_pos(n2 + h, d);
    } else {
        lemma_div_is_ordered((-n2) + h, (-n1) + h, d);
    }
}

/// Rescaling between fixed well-formed time bases preserves order.
pub proof fn lemma_rescale_monotone(v1: int, v2: int, from: TimeBase, to: TimeBase)
    requires
        from.wf(),
        to.wf(),
        v1 <= v2,
    ensures
        rescale_spec(v1, from, to) <= rescale_spec(v2, from, to),
{
    let f = from.num * to.den;
    assert(f >= 1 && v1 * from.num * to.den == v1 * f && v2 * from.num * to.den == v2 * f
        && v1 * f <= v2 * f) by (nonlinear_arith)
        requires
            from.num >= 1,
            to.den >= 1,
            v1 <= v2,
            f == from.num * to.den,
    {}
    assert(from.den * to.num >= 1) by (nonlinear_arith)
        requires
            from.den >= 1,
            to.num >= 1,
    {}
    lemma_round_div_near_ordered(v1 * f, v2 * f, from.den * to.num);
}

} // verus!
