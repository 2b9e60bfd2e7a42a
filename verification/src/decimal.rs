//! Exact decimal numbers: the runtime number type of the language.
//!
//! A `Decimal` holds an integer mantissa `m` and a power-of-ten scale `s`
//! and stands for the value `m / 10^s`. Every `Decimal` handed out by this
//! module is canonical: the fraction carries no trailing zero digit, so each
//! value has exactly one representation and equality is field equality.
//! Arithmetic is exact; a result whose mantissa would leave the symmetric
//! `i128` range is reported as an overflow instead of being rounded.

use vstd::prelude::*;

verus! {

use vstd::math::abs;
use crate::text::digits_pad;
use crate::text::digits_text;
use crate::text::div_pow10;
use crate::text::div_pow10_e;
use crate::text::push_digits;
use crate::text::push_digits_pad;

/// Mathematical model of a decimal: the value `m / 10^s`.
pub struct DecModel {
    pub m: int,
    pub s: nat,
}

/// Mantissas are kept in the symmetric range `[-i128::MAX, i128::MAX]`,
/// so negation of a well-formed mantissa never overflows.
pub open spec fn fits(m: int) -> bool {
    -(i128::MAX as int) <= m <= i128::MAX as int
}

/// Canonical form: no trailing zero digit in the fraction. The value zero
/// is represented as mantissa 0 with scale 0.
pub open spec fn canonical(d: DecModel) -> bool {
    d.s == 0 || abs(d.m) % 10 != 0
}

pub open spec fn dec_model_wf(d: DecModel) -> bool {
    fits(d.m) && canonical(d)
}

/// Strip trailing zero digits from a non-negative mantissa.
pub open spec fn norm_mag(n: int, s: nat) -> (int, nat)
    decreases s,
{
    if s > 0 && n % 10 == 0 {
        norm_mag(n / 10, (s - 1) as nat)
    } else {
        (n, s)
    }
}

/// Canonicalize a signed mantissa and scale.
pub open spec fn norm(m: int, s: nat) -> DecModel {
    let (nm, ns) = norm_mag(abs(m) as int, s);
    DecModel { m: if m < 0 { -nm } else { nm }, s: ns }
}

/// Multiply a mantissa by ten `k` times, failing where a step leaves the
/// symmetric mantissa range.
pub open spec fn scale_up(m: int, k: nat) -> Option<int>
    decreases k,
{
    if k == 0 {
        Some(m)
    } else {
        match scale_up(m, (k - 1) as nat) {
            Some(x) => if fits(10 * x) {
                Some(10 * x)
            } else {
                None
            },
            None => None,
        }
    }
}

/// Mantissas aligned to the larger of the two scales, so that sums,
/// differences and order can be read off the mantissas directly.
pub open spec fn dec_align(a: DecModel, b: DecModel) -> Option<(int, int)> {
    let s = if a.s >= b.s {
        a.s
    } else {
        b.s
    };
    match (scale_up(a.m, (s - a.s) as nat), scale_up(b.m, (s - b.s) as nat)) {
        (Some(x), Some(y)) => Some((x, y)),
        _ => None,
    }
}

/// The exact sum, or `None` where a mantissa leaves the representable range.
pub open spec fn dec_sum(a: DecModel, b: DecModel) -> Option<DecModel> {
    let s = if a.s >= b.s {
        a.s
    } else {
        b.s
    };
    match dec_align(a, b) {
        Some((x, y)) => if fits(x + y) {
            Some(norm(x + y, s))
        } else {
            None
        },
        None => None,
    }
}

/// The exact difference, or `None` where a mantissa leaves the range.
pub open spec fn dec_difference(a: DecModel, b: DecModel) -> Option<DecModel> {
    let s = if a.s >= b.s {
        a.s
    } else {
        b.s
    };
    match dec_align(a, b) {
        Some((x, y)) => if fits(x - y) {
            Some(norm(x - y, s))
        } else {
            None
        },
        None => None,
    }
}

/// The exact product, or `None` where the mantissa or the scale overflows.
pub open spec fn dec_product(a: DecModel, b: DecModel) -> Option<DecModel> {
    if fits(a.m * b.m) && a.s + b.s <= u32::MAX {
        Some(norm(a.m * b.m, (a.s + b.s) as nat))
    } else {
        None
    }
}

/// Negation is total on well-formed decimals.
pub open spec fn dec_negated(a: DecModel) -> DecModel {
    DecModel { m: -a.m, s: a.s }
}

/// `a < b` over the aligned mantissas, or `None` where alignment overflows.
pub open spec fn dec_lt(a: DecModel, b: DecModel) -> Option<bool> {
    match dec_align(a, b) {
        Some((x, y)) => Some(x < y),
        None => None,
    }
}

/// `a <= b` over the aligned mantissas, or `None` where alignment overflows.
pub open spec fn dec_le(a: DecModel, b: DecModel) -> Option<bool> {
    match dec_align(a, b) {
        Some((x, y)) => Some(x <= y),
        None => None,
    }
}

/// How many times a dividend may be widened by a factor of ten while
/// searching for an exact quotient.
pub const DIV_FUEL: u32 = 60;

/// Long division on non-negative mantissas: widen the dividend by ten until
/// the division is exact, counting the widenings as the quotient's scale.
pub open spec fn div_steps(n: int, d: int, fuel: nat) -> Option<(int, nat)>
    decreases fuel,
{
    if n % d == 0 {
        Some((n / d, 0))
    } else if fuel == 0 {
        None
    } else if !fits(10 * n) {
        None
    } else {
        match div_steps(10 * n, d, (fuel - 1) as nat) {
            Some((q, s)) => Some((q, (s + 1) as nat)),
            None => None,
        }
    }
}

/// The exact quotient, or `None` where the quotient has no terminating
/// decimal form or a mantissa leaves the representable range.
/// A zero divisor is rejected by the callers before this is consulted.
pub open spec fn dec_quotient(a: DecModel, b: DecModel) -> Option<DecModel> {
    if b.m == 0 {
        None
    } else {
        match (scale_up(abs(a.m) as int, b.s), scale_up(abs(b.m) as int, a.s)) {
            (Some(an), Some(bn)) => match div_steps(an, bn, DIV_FUEL as nat) {
                Some((q, s)) => if (a.m < 0) != (b.m < 0) {
                    Some(norm(-q, s))
                } else {
                    Some(norm(q, s))
                },
                None => None,
            },
            _ => None,
        }
    }
}

/// The rendered decimal: an optional minus sign, the integer digits, and,
/// for a fractional value, a point followed by exactly `s` fraction digits.
pub open spec fn dec_text(d: DecModel) -> Seq<char> {
    let mag = abs(d.m) as int;
    let sign: Seq<char> = if d.m < 0 {
        seq!['-']
    } else {
        Seq::empty()
    };
    if d.s == 0 {
        sign + digits_text(mag)
    } else {
        sign + digits_text(div_pow10(mag, d.s)) + seq!['.'] + digits_pad(mag, d.s)
    }
}

pub open spec fn is_digit_c(c: char) -> bool {
    '0' as int <= c as int <= '9' as int
}

/// One pass over a numeric lexeme, accumulating the mantissa and counting
/// fraction digits after the one permitted point. Rejects any other
/// character, a second point, a lone trailing point, and a mantissa beyond
/// the representable range.
pub open spec fn parse_loop(s: Seq<char>, i: int, acc: int, sc: int, dot: bool) -> Option<
    (int, int),
>
    decreases s.len() - i,
{
    if i < 0 || i > s.len() {
        None
    } else if i == s.len() {
        if dot && sc == 0 {
            None
        } else {
            Some((acc, sc))
        }
    } else {
        let c = s[i];
        if c == '.' {
            if dot {
                None
            } else {
                parse_loop(s, i + 1, acc, sc, true)
            }
        } else if is_digit_c(c) {
            let a2 = 10 * acc + (c as int - '0' as int);
            if a2 > i128::MAX as int {
                None
            } else if dot {
                if sc >= u32::MAX {
                    None
                } else {
                    parse_loop(s, i + 1, a2, sc + 1, true)
                }
            } else {
                parse_loop(s, i + 1, a2, sc, false)
            }
        } else {
            None
        }
    }
}

/// The decimal a numeric lexeme stands for.
pub open spec fn dec_parse(s: Seq<char>) -> Option<DecModel> {
    match parse_loop(s, 0, 0, 0, false) {
        Some((m, sc)) => Some(norm(m, sc as nat)),
        None => None,
    }
}

/// `10^k`: the denominator a scale stands for.
pub open spec fn pow10(k: nat) -> int
    decreases k,
{
    if k == 0 {
        1
    } else {
        10 * pow10((k - 1) as nat)
    }
}

pub proof fn lemma_pow10_pos(k: nat)
    ensures
        pow10(k) >= 1,
    decreases k,
{
    if k > 0 {
        lemma_pow10_pos((k - 1) as nat);
    }
}

pub proof fn lemma_pow10_adds(j: nat, k: nat)
    ensures
        pow10(j + k) == pow10(j) * pow10(k),
    decreases j,
{
    if j == 0 {
        assert(pow10(k) == 1 * pow10(k)) by (nonlinear_arith);
    } else {
        lemma_pow10_adds((j - 1) as nat, k);
        assert(((j + k) - 1) as nat == (j - 1) as nat + k);
        assert(10 * (pow10((j - 1) as nat) * pow10(k)) == (10 * pow10((j - 1) as nat)) * pow10(
            k,
        )) by (nonlinear_arith);
    }
}

/// Law: widening a mantissa `k` times multiplies it by exactly `10^k`.
pub proof fn lemma_scale_up_exact(m: int, k: nat)
    ensures
        scale_up(m, k) matches Some(x) ==> x == m * pow10(k),
    decreases k,
{
    if k > 0 {
        lemma_scale_up_exact(m, (k - 1) as nat);
        match scale_up(m, (k - 1) as nat) {
            Some(x) => {
                assert(10 * (m * pow10((k - 1) as nat)) == m * (10 * pow10((k - 1) as nat)))
                    by (nonlinear_arith);
            },
            None => {},
        }
    }
}

proof fn lemma_norm_mag_value(n: int, s: nat)
    requires
        n >= 0,
    ensures
        norm_mag(n, s).0 * pow10(s) == n * pow10(norm_mag(n, s).1),
    decreases s,
{
    if s > 0 && n % 10 == 0 {
        lemma_norm_mag_value(n / 10, (s - 1) as nat);
        let (nm, ns) = norm_mag(n / 10, (s - 1) as nat);
        vstd::arithmetic::div_mod::lemma_fundamental_div_mod(n, 10);
        assert(n == 10 * (n / 10));
        assert(nm * (10 * pow10((s - 1) as nat)) == 10 * (nm * pow10((s - 1) as nat)))
            by (nonlinear_arith);
        assert(10 * ((n / 10) * pow10(ns)) == (10 * (n / 10)) * pow10(ns)) by (nonlinear_arith);
    }
}

/// Law: canonicalization keeps the value: `norm(m, s)` stands for the same
/// rational `m / 10^s`.
pub proof fn lemma_norm_value(m: int, s: nat)
    ensures
        norm(m, s).m * pow10(s) == m * pow10(norm(m, s).s),
{
    lemma_norm_mag_value(abs(m) as int, s);
    let (nm, ns) = norm_mag(abs(m) as int, s);
    if m < 0 {
        assert((-nm) * pow10(s) == -(nm * pow10(s))) by (nonlinear_arith);
        assert(-((abs(m) as int) * pow10(ns)) == m * pow10(ns)) by (nonlinear_arith)
            requires
                abs(m) as int == -m,
        ;
    }
}

/// Pure ring shuffling: from `cm * ps == u * pc` and `pab == ps * pt`,
/// conclude `cm * pab == (u * pt) * pc`.
proof fn lemma_shuffle(cm: int, u: int, ps: int, pt: int, pc: int, pab: int)
    requires
        cm * ps == u * pc,
        pab == ps * pt,
    ensures
        cm * pab == (u * pt) * pc,
{
    assert(cm * (ps * pt) == (cm * ps) * pt) by (nonlinear_arith);
    assert((u * pc) * pt == (u * pt) * pc) by (nonlinear_arith);
}

/// From `x == am * psa` and `pbs == psa * pt`, conclude `x * pt == am * pbs`.
proof fn lemma_aligned_pair(x: int, am: int, psa: int, pt: int, pbs: int)
    requires
        x == am * psa,
        pbs == psa * pt,
    ensures
        x * pt == am * pbs,
{
    assert((am * psa) * pt == am * (psa * pt)) by (nonlinear_arith);
}

proof fn lemma_distribute(x: int, y: int, pt: int)
    ensures
        (x + y) * pt == x * pt + y * pt,
        (x - y) * pt == x * pt - y * pt,
{
    assert((x + y) * pt == x * pt + y * pt) by (nonlinear_arith);
    assert((x - y) * pt == x * pt - y * pt) by (nonlinear_arith);
}

/// Law: a sum the evaluator accepts is the exact rational sum:
/// `c = a + b` read as `c.m / 10^c.s == a.m / 10^a.s + b.m / 10^b.s`,
/// cross-multiplied into integers.
pub proof fn lemma_sum_exact(a: DecModel, b: DecModel)
    ensures
        dec_sum(a, b) matches Some(c) ==> c.m * pow10(a.s + b.s) == (a.m * pow10(b.s) + b.m
            * pow10(a.s)) * pow10(c.s),
{
    let s = if a.s >= b.s {
        a.s
    } else {
        b.s
    };
    let sa = (s - a.s) as nat;
    let sb = (s - b.s) as nat;
    let t = ((a.s + b.s) - s) as nat;
    lemma_scale_up_exact(a.m, sa);
    lemma_scale_up_exact(b.m, sb);
    lemma_pow10_adds(s, t);
    lemma_pow10_adds(sa, t);
    lemma_pow10_adds(sb, t);
    match dec_align(a, b) {
        Some((x, y)) => {
            if fits(x + y) {
                let c = norm(x + y, s);
                lemma_norm_value(x + y, s);
                lemma_shuffle(c.m, x + y, pow10(s), pow10(t), pow10(c.s), pow10(a.s + b.s));
                lemma_distribute(x, y, pow10(t));
                lemma_aligned_pair(x, a.m, pow10(sa), pow10(t), pow10(b.s));
                lemma_aligned_pair(y, b.m, pow10(sb), pow10(t), pow10(a.s));
            }
        },
        None => {},
    }
}

/// Law: a difference the evaluator accepts is the exact rational difference.
pub proof fn lemma_difference_exact(a: DecModel, b: DecModel)
    ensures
        dec_difference(a, b) matches Some(c) ==> c.m * pow10(a.s + b.s) == (a.m * pow10(b.s) - b.m
            * pow10(a.s)) * pow10(c.s),
{
    let s = if a.s >= b.s {
        a.s
    } else {
        b.s
    };
    let sa = (s - a.s) as nat;
    let sb = (s - b.s) as nat;
    let t = ((a.s + b.s) - s) as nat;
    lemma_scale_up_exact(a.m, sa);
    lemma_scale_up_exact(b.m, sb);
    lemma_pow10_adds(s, t);
    lemma_pow10_adds(sa, t);
    lemma_pow10_adds(sb, t);
    match dec_align(a, b) {
        Some((x, y)) => {
            if fits(x - y) {
                let c = norm(x - y, s);
                lemma_norm_value(x - y, s);
                lemma_shuffle(c.m, x - y, pow10(s), pow10(t), pow10(c.s), pow10(a.s + b.s));
                lemma_distribute(x, y, pow10(t));
                lemma_aligned_pair(x, a.m, pow10(sa), pow10(t), pow10(b.s));
                lemma_aligned_pair(y, b.m, pow10(sb), pow10(t), pow10(a.s));
            }
        },
        None => {},
    }
}

/// Law: a product the evaluator accepts is the exact rational product.
pub proof fn lemma_product_exact(a: DecModel, b: DecModel)
    ensures
        dec_product(a, b) matches Some(c) ==> c.m * pow10(a.s + b.s) == (a.m * b.m) * pow10(c.s),
{
    if fits(a.m * b.m) && a.s + b.s <= u32::MAX {
        lemma_norm_value(a.m * b.m, (a.s + b.s) as nat);
    }
}

/// Law: an order verdict the evaluator accepts is the true rational order,
/// cross-multiplied into integers.
pub proof fn lemma_lt_exact(a: DecModel, b: DecModel)
    ensures
        dec_lt(a, b) matches Some(v) ==> (v <==> a.m * pow10(b.s) < b.m * pow10(a.s)),
        dec_le(a, b) matches Some(v) ==> (v <==> a.m * pow10(b.s) <= b.m * pow10(a.s)),
{
    let s = if a.s >= b.s {
        a.s
    } else {
        b.s
    };
    let sa = (s - a.s) as nat;
    let sb = (s - b.s) as nat;
    let t = ((a.s + b.s) - s) as nat;
    lemma_scale_up_exact(a.m, sa);
    lemma_scale_up_exact(b.m, sb);
    lemma_pow10_adds(sa, t);
    lemma_pow10_adds(sb, t);
    lemma_pow10_pos(t);
    match dec_align(a, b) {
        Some((x, y)) => {
            assert(x * pow10(t) == a.m * pow10(b.s)) by (nonlinear_arith)
                requires
                    x == a.m * pow10(sa),
                    pow10(b.s) == pow10(sa) * pow10(t),
            ;
            assert(y * pow10(t) == b.m * pow10(a.s)) by (nonlinear_arith)
                requires
                    y == b.m * pow10(sb),
                    pow10(a.s) == pow10(sb) * pow10(t),
            ;
            assert((x < y) <==> (x * pow10(t) < y * pow10(t))) by (nonlinear_arith)
                requires
                    pow10(t) >= 1,
            ;
            assert((x <= y) <==> (x * pow10(t) <= y * pow10(t))) by (nonlinear_arith)
                requires
                    pow10(t) >= 1,
            ;
        },
        None => {},
    }
}

/// From the long-division identity `q * bn == an * ps0` and the
/// canonicalization identity `cm * ps0 == q * pcs`, conclude the
/// cross-multiplied quotient identity on magnitudes.
proof fn lemma_quotient_shuffle(
    cm: int,
    q: int,
    bn: int,
    an: int,
    am: int,
    bm: int,
    pbs: int,
    ps0: int,
    pcs: int,
    pbcs: int,
    pas: int,
)
    requires
        cm * ps0 == q * pcs,
        q * bn == an * ps0,
        an == am * pbs,
        bn == bm * pas,
        pbcs == pbs * pcs,
        ps0 >= 1,
    ensures
        (cm * bm) * pas == am * pbcs,
{
    assert(((cm * bm) * pas) * ps0 == (cm * ps0) * (bm * pas)) by (nonlinear_arith);
    assert((q * pcs) * bn == (q * bn) * pcs) by (nonlinear_arith);
    assert((an * ps0) * pcs == (an * pcs) * ps0) by (nonlinear_arith);
    assert((am * pbs) * pcs == am * (pbs * pcs)) by (nonlinear_arith);
    assert(((cm * bm) * pas) * ps0 == (am * pbcs) * ps0);
    vstd::arithmetic::mul::lemma_mul_is_commutative((cm * bm) * pas, ps0);
    vstd::arithmetic::mul::lemma_mul_is_commutative(am * pbcs, ps0);
    vstd::arithmetic::mul::lemma_mul_equality_converse(ps0, (cm * bm) * pas, am * pbcs);
}

proof fn lemma_div_steps_exact(n: int, d: int, fuel: nat)
    requires
        n >= 0,
        d > 0,
    ensures
        div_steps(n, d, fuel) matches Some((q, s)) ==> q * d == n * pow10(s),
    decreases fuel,
{
    if n % d == 0 {
        vstd::arithmetic::div_mod::lemma_fundamental_div_mod(n, d);
        assert((n / d) * d == n * pow10(0)) by (nonlinear_arith)
            requires
                n == d * (n / d),
        ;
    } else if fuel > 0 && fits(10 * n) {
        lemma_div_steps_exact(10 * n, d, (fuel - 1) as nat);
        match div_steps(10 * n, d, (fuel - 1) as nat) {
            Some((q, s)) => {
                assert(q * d == n * pow10(s + 1)) by (nonlinear_arith)
                    requires
                        q * d == (10 * n) * pow10(s),
                        pow10(s + 1) == 10 * pow10(s),
                ;
            },
            None => {},
        }
    }
}

/// Law: a quotient the evaluator accepts is the exact rational quotient:
/// `c = a / b` read as `c.m / 10^c.s * b.m / 10^b.s == a.m / 10^a.s`,
/// cross-multiplied into integers.
pub proof fn lemma_quotient_exact(a: DecModel, b: DecModel)
    requires
        b.m != 0,
    ensures
        dec_quotient(a, b) matches Some(c) ==> (c.m * b.m) * pow10(a.s) == a.m * pow10(
            b.s + c.s,
        ),
{
    let am = abs(a.m) as int;
    let bm = abs(b.m) as int;
    lemma_scale_up_exact(am, b.s);
    lemma_scale_up_exact(bm, a.s);
    lemma_pow10_pos(b.s);
    lemma_pow10_pos(a.s);
    match (scale_up(am, b.s), scale_up(bm, a.s)) {
        (Some(an), Some(bn)) => {
            lemma_scale_up_pos(bm, a.s);
            assert(an >= 0) by (nonlinear_arith)
                requires
                    an == am * pow10(b.s),
                    am >= 0,
                    pow10(b.s) >= 1,
            ;
            lemma_div_steps_exact(an, bn, DIV_FUEL as nat);
            match div_steps(an, bn, DIV_FUEL as nat) {
                Some((q, s0)) => {
                    let neg = (a.m < 0) != (b.m < 0);
                    let qm: int = if neg {
                        -q
                    } else {
                        q
                    };
                    let c = norm(qm, s0);
                    lemma_norm_value(qm, s0);
                    lemma_pow10_adds(b.s, c.s);
                    lemma_pow10_pos(s0);
                    // The magnitude identity first, then the signs: `qm`
                    // carries the sign of `a.m / b.m`, and `q >= 0`.
                    if !neg {
                        lemma_quotient_shuffle(
                            c.m,
                            q,
                            bn,
                            an,
                            am,
                            bm,
                            pow10(b.s),
                            pow10(s0),
                            pow10(c.s),
                            pow10(b.s + c.s),
                            pow10(a.s),
                        );
                        assert((c.m * b.m) * pow10(a.s) == a.m * pow10(b.s + c.s)) by (
                        nonlinear_arith)
                            requires
                                (c.m * bm) * pow10(a.s) == am * pow10(b.s + c.s),
                                (a.m < 0) == (b.m < 0),
                                a.m < 0 ==> am == -a.m && bm == -b.m,
                                a.m >= 0 ==> am == a.m && bm == b.m,
                        ;
                    } else {
                        assert((-c.m) * pow10(s0) == q * pow10(c.s)) by (nonlinear_arith)
                            requires
                                c.m * pow10(s0) == (-q) * pow10(c.s),
                        ;
                        lemma_quotient_shuffle(
                            -c.m,
                            q,
                            bn,
                            an,
                            am,
                            bm,
                            pow10(b.s),
                            pow10(s0),
                            pow10(c.s),
                            pow10(b.s + c.s),
                            pow10(a.s),
                        );
                        assert((c.m * b.m) * pow10(a.s) == a.m * pow10(b.s + c.s)) by (
                        nonlinear_arith)
                            requires
                                ((-c.m) * bm) * pow10(a.s) == am * pow10(b.s + c.s),
                                (a.m < 0) != (b.m < 0),
                                a.m < 0 ==> am == -a.m,
                                a.m >= 0 ==> am == a.m,
                                b.m < 0 ==> bm == -b.m,
                                b.m >= 0 ==> bm == b.m,
                        ;
                    }
                },
                None => {},
            }
        },
        _ => {},
    }
}

proof fn lemma_canonical_unique_ordered(a: DecModel, b: DecModel)
    requires
        dec_model_wf(a),
        dec_model_wf(b),
        a.m * pow10(b.s) == b.m * pow10(a.s),
        a.s <= b.s,
    ensures
        a == b,
{
    let d = (b.s - a.s) as nat;
    lemma_pow10_adds(a.s, d);
    lemma_pow10_pos(a.s);
    lemma_pow10_pos(d);
    assert(pow10(a.s) * (a.m * pow10(d)) == pow10(a.s) * b.m) by (nonlinear_arith)
        requires
            a.m * (pow10(a.s) * pow10(d)) == b.m * pow10(a.s),
    ;
    vstd::arithmetic::mul::lemma_mul_equality_converse(pow10(a.s), a.m * pow10(d), b.m);
    if d > 0 {
        let w = a.m * pow10((d - 1) as nat);
        assert(b.m == w * 10) by (nonlinear_arith)
            requires
                b.m == a.m * (10 * pow10((d - 1) as nat)),
                w == a.m * pow10((d - 1) as nat),
        ;
        vstd::arithmetic::div_mod::lemma_mod_multiples_basic(w, 10);
        if b.m == 0 {
            assert(a.m == 0) by (nonlinear_arith)
                requires
                    a.m * pow10(d) == 0,
                    pow10(d) >= 1,
            ;
            // canonical zero forces scale zero on both sides, yet b.s > 0
            assert(false);
        } else {
            // b has a positive scale, so its canonical mantissa cannot be a
            // multiple of ten
            if b.m > 0 {
                assert(abs(b.m) % 10 == 0);
            } else {
                vstd::arithmetic::div_mod::lemma_mod_multiples_basic(-w, 10);
                assert(abs(b.m) == (-w) * 10) by (nonlinear_arith)
                    requires
                        abs(b.m) == -(w * 10),
                ;
                assert(abs(b.m) % 10 == 0);
            }
            assert(false);
        }
    } else {
        assert(a.m * pow10(0) == a.m) by (nonlinear_arith);
    }
}

/// Law: one value has one canonical representation. Two well-formed decimals
/// that stand for the same rational are equal, so the evaluator's field
/// equality on numbers is true value equality.
pub proof fn lemma_canonical_unique(a: DecModel, b: DecModel)
    requires
        dec_model_wf(a),
        dec_model_wf(b),
        a.m * pow10(b.s) == b.m * pow10(a.s),
    ensures
        a == b,
{
    if a.s <= b.s {
        lemma_canonical_unique_ordered(a, b);
    } else {
        lemma_canonical_unique_ordered(b, a);
    }
}

/// Law: negating a decimal twice gives back the decimal, so a chain of two
/// unary minus operators is the identity on numbers.
pub proof fn lemma_double_negation(d: DecModel)
    ensures
        dec_negated(dec_negated(d)) == d,
{
}

pub proof fn lemma_scale_up_pos(m: int, k: nat)
    requires
        m > 0,
    ensures
        scale_up(m, k) matches Some(y) ==> y > 0,
    decreases k,
{
    if k > 0 {
        lemma_scale_up_pos(m, (k - 1) as nat);
    }
}

pub proof fn lemma_norm_mag_bounds(n: int, s: nat)
    requires
        n >= 0,
    ensures
        ({
            let (nm, ns) = norm_mag(n, s);
            0 <= nm <= n && ns <= s && (ns == 0 || nm % 10 != 0)
        }),
    decreases s,
{
    if s > 0 && n % 10 == 0 {
        vstd::arithmetic::div_mod::lemma_div_is_ordered_by_denominator(n, 1, 10);
        vstd::arithmetic::div_mod::lemma_div_basics_1(n);
        vstd::arithmetic::div_mod::lemma_div_pos_is_pos(n, 10);
        lemma_norm_mag_bounds(n / 10, (s - 1) as nat);
    }
}

/// A canonicalized well-formed mantissa yields a well-formed decimal.
pub proof fn lemma_norm_wf(m: int, s: nat)
    requires
        fits(m),
    ensures
        dec_model_wf(norm(m, s)),
        abs(norm(m, s).m) <= abs(m),
{
    lemma_norm_mag_bounds(abs(m) as int, s);
}

/// The runtime number: an exact decimal in canonical form.
#[derive(Clone, Copy, Debug, PartialEq, Eq)]
pub struct Decimal {
    m: i128,
    s: u32,
}

impl View for Decimal {
    type V = DecModel;

    closed spec fn view(&self) -> DecModel {
        DecModel { m: self.m as int, s: self.s as nat }
    }
}

impl Decimal {
    pub open spec fn wf(&self) -> bool {
        dec_model_wf(self@)
    }

    /// Exposes the mantissa for contracts and tests.
    pub fn mantissa(&self) -> (r: i128)
        ensures
            r as int == self@.m,
    {
        self.m
    }

    /// Exposes the scale for contracts and tests.
    pub fn scale(&self) -> (r: u32)
        ensures
            r as nat == self@.s,
    {
        self.s
    }

    /// Builds the canonical decimal standing for `m / 10^s`.
    pub fn new(m: i128, s: u32) -> (r: Decimal)
        requires
            fits(m as int),
        ensures
            r@ == norm(m as int, s as nat),
            r.wf(),
    {
        proof {
            lemma_norm_wf(m as int, s as nat);
        }
        let neg = m < 0;
        let mag: u128 = if neg {
            (-m) as u128
        } else {
            m as u128
        };
        let (n2, s2) = norm_mag_e(mag, s);
        let m2: i128 = if neg {
            -(n2 as i128)
        } else {
            n2 as i128
        };
        Decimal { m: m2, s: s2 }
    }

    /// The decimal standing for a whole number.
    pub fn from_int(n: i64) -> (r: Decimal)
        ensures
            r@ == norm(n as int, 0),
            r.wf(),
    {
        Decimal::new(n as i128, 0)
    }

    /// Field equality; on canonical decimals this is value equality.
    pub fn same_value(&self, other: &Decimal) -> (r: bool)
        ensures
            r == (self@ == other@),
    {
        let r = self.m == other.m && self.s == other.s;
        proof {
            if self@.m == other@.m && self@.s == other@.s {
                assert(self@ == other@);
            }
        }
        r
    }

    pub fn is_zero(&self) -> (r: bool)
        ensures
            r == (self@.m == 0),
    {
        self.m == 0
    }

    /// Renders the decimal as its natural base-ten text.
    pub fn to_text(&self) -> (r: String)
        requires
            self.wf(),
        ensures
            r@ == dec_text(self@),
    {
        let mut out = String::new();
        if self.m < 0 {
            out.append("-");
        }
        proof {
            reveal_strlit("-");
            assert(out@ =~= (if self@.m < 0 {
                seq!['-']
            } else {
                Seq::<char>::empty()
            }));
        }
        let mag = iabs(self.m);
        if self.s == 0 {
            push_digits(&mut out, mag);
        } else {
            let ip = div_pow10_e(mag, self.s);
            push_digits(&mut out, ip);
            out.append(".");
            proof {
                reveal_strlit(".");
            }
            push_digits_pad(&mut out, mag, self.s);
        }
        proof {
            assert(out@ =~= dec_text(self@));
        }
        out
    }

    /// Reads a numeric lexeme (digits with at most one interior point).
    pub fn parse(s: &str) -> (r: Option<Decimal>)
        ensures
            match r {
                Some(c) => dec_parse(s@) == Some(c@) && c.wf(),
                None => dec_parse(s@) is None,
            },
    {
        let len = s.unicode_len();
        let mut i: usize = 0;
        let mut acc: u128 = 0;
        let mut sc: u32 = 0;
        let mut dot = false;
        while i < len
            invariant
                i <= len,
                len == s@.len(),
                acc <= i128::MAX as u128,
                parse_loop(s@, i as int, acc as int, sc as int, dot) == parse_loop(
                    s@,
                    0,
                    0,
                    0,
                    false,
                ),
            decreases len - i,
        {
            let c = s.get_char(i);
            if c == '.' {
                if dot {
                    return None;
                }
                dot = true;
            } else if ('0' as u32) <= (c as u32) && (c as u32) <= ('9' as u32) {
                let d = (c as u32 - '0' as u32) as u128;
                let acc10 = match acc.checked_mul(10) {
                    None => {
                        return None;
                    },
                    Some(x) => x,
                };
                let acc2 = match acc10.checked_add(d) {
                    None => {
                        return None;
                    },
                    Some(x) => x,
                };
                if acc2 > (i128::MAX as u128) {
                    return None;
                }
                acc = acc2;
                if dot {
                    if sc == u32::MAX {
                        return None;
                    }
                    sc = sc + 1;
                }
            } else {
                return None;
            }
            i = i + 1;
        }
        if dot && sc == 0 {
            return None;
        }
        Some(Decimal::new(acc as i128, sc))
    }

    /// Negative values are below zero; used to pick the sign when printing.
    pub fn is_negative(&self) -> (r: bool)
        ensures
            r == (self@.m < 0),
    {
        self.m < 0
    }

    fn align(&self, other: &Decimal) -> (r: Option<(i128, i128)>)
        requires
            self.wf(),
            other.wf(),
        ensures
            match r {
                Some(p) => dec_align(self@, other@) == Some((p.0 as int, p.1 as int)) && fits(
                    p.0 as int,
                ) && fits(p.1 as int),
                None => dec_align(self@, other@) is None,
            },
    {
        let s = if self.s >= other.s {
            self.s
        } else {
            other.s
        };
        let xa = scale_up_e(self.m, s - self.s);
        let xb = scale_up_e(other.m, s - other.s);
        match (xa, xb) {
            (Some(x), Some(y)) => Some((x, y)),
            _ => None,
        }
    }

    /// Exact addition; `None` reports overflow of the result's mantissa.
    pub fn add(&self, other: &Decimal) -> (r: Option<Decimal>)
        requires
            self.wf(),
            other.wf(),
        ensures
            match r {
                Some(c) => dec_sum(self@, other@) == Some(c@) && c.wf(),
                None => dec_sum(self@, other@) is None,
            },
    {
        let s = if self.s >= other.s {
            self.s
        } else {
            other.s
        };
        match self.align(other) {
            Some((x, y)) => match x.checked_add(y) {
                None => None,
                Some(t) => if t == i128::MIN {
                    None
                } else {
                    Some(Decimal::new(t, s))
                },
            },
            None => None,
        }
    }

    /// Exact subtraction; `None` reports overflow of the result's mantissa.
    pub fn sub(&self, other: &Decimal) -> (r: Option<Decimal>)
        requires
            self.wf(),
            other.wf(),
        ensures
            match r {
                Some(c) => dec_difference(self@, other@) == Some(c@) && c.wf(),
                None => dec_difference(self@, other@) is None,
            },
    {
        let s = if self.s >= other.s {
            self.s
        } else {
            other.s
        };
        match self.align(other) {
            Some((x, y)) => match x.checked_sub(y) {
                None => None,
                Some(t) => if t == i128::MIN {
                    None
                } else {
                    Some(Decimal::new(t, s))
                },
            },
            None => None,
        }
    }

    /// Exact multiplication; `None` reports overflow.
    pub fn mul(&self, other: &Decimal) -> (r: Option<Decimal>)
        requires
            self.wf(),
            other.wf(),
        ensures
            match r {
                Some(c) => dec_product(self@, other@) == Some(c@) && c.wf(),
                None => dec_product(self@, other@) is None,
            },
    {
        match self.m.checked_mul(other.m) {
            None => None,
            Some(p) => if p == i128::MIN {
                None
            } else {
                match self.s.checked_add(other.s) {
                    None => None,
                    Some(s) => Some(Decimal::new(p, s)),
                }
            },
        }
    }

    /// Negation; total on well-formed decimals.
    pub fn neg(&self) -> (r: Decimal)
        requires
            self.wf(),
        ensures
            r@ == dec_negated(self@),
            r.wf(),
    {
        proof {
            assert(abs(-self@.m) == abs(self@.m));
        }
        Decimal { m: -self.m, s: self.s }
    }

    /// `self < other`; `None` reports overflow while aligning the scales.
    pub fn lt(&self, other: &Decimal) -> (r: Option<bool>)
        requires
            self.wf(),
            other.wf(),
        ensures
            match r {
                Some(v) => dec_lt(self@, other@) == Some(v),
                None => dec_lt(self@, other@) is None,
            },
    {
        match self.align(other) {
            Some((x, y)) => Some(x < y),
            None => None,
        }
    }

    /// `self <= other`; `None` reports overflow while aligning the scales.
    pub fn le(&self, other: &Decimal) -> (r: Option<bool>)
        requires
            self.wf(),
            other.wf(),
        ensures
            match r {
                Some(v) => dec_le(self@, other@) == Some(v),
                None => dec_le(self@, other@) is None,
            },
    {
        match self.align(other) {
            Some((x, y)) => Some(x <= y),
            None => None,
        }
    }

    /// Exact division; `None` reports a quotient with no terminating decimal
    /// form, or overflow. The divisor must not be zero.
    pub fn div(&self, other: &Decimal) -> (r: Option<Decimal>)
        requires
            self.wf(),
            other.wf(),
            other@.m != 0,
        ensures
            match r {
                Some(c) => dec_quotient(self@, other@) == Some(c@) && c.wf(),
                None => dec_quotient(self@, other@) is None,
            },
    {
        let neg = (self.m < 0) != (other.m < 0);
        let amag = iabs(self.m);
        let bmag = iabs(other.m);
        let an = match scale_up_mag_e(amag, other.s) {
            None => {
                return None;
            },
            Some(v) => v,
        };
        let bn = match scale_up_mag_e(bmag, self.s) {
            None => {
                return None;
            },
            Some(v) => v,
        };
        proof {
            lemma_scale_up_pos(abs(other@.m) as int, self@.s);
        }
        match div_steps_e(an, bn, DIV_FUEL) {
            None => None,
            Some((q, s)) => {
                let qm: i128 = if neg {
                    -(q as i128)
                } else {
                    q as i128
                };
                Some(Decimal::new(qm, s))
            },
        }
    }
}

fn iabs(m: i128) -> (r: u128)
    requires
        fits(m as int),
    ensures
        r as int == abs(m as int),
{
    if m < 0 {
        (-m) as u128
    } else {
        m as u128
    }
}

fn scale_up_e(m: i128, k: u32) -> (r: Option<i128>)
    requires
        fits(m as int),
    ensures
        match r {
            Some(y) => scale_up(m as int, k as nat) == Some(y as int) && fits(y as int),
            None => scale_up(m as int, k as nat) is None,
        },
    decreases k,
{
    if k == 0 {
        Some(m)
    } else {
        match scale_up_e(m, k - 1) {
            None => None,
            Some(x) => match x.checked_mul(10) {
                None => None,
                Some(y) => if y == i128::MIN {
                    None
                } else {
                    Some(y)
                },
            },
        }
    }
}

fn scale_up_mag_e(n: u128, k: u32) -> (r: Option<u128>)
    requires
        n <= i128::MAX as u128,
    ensures
        match r {
            Some(y) => scale_up(n as int, k as nat) == Some(y as int) && y <= i128::MAX as u128,
            None => scale_up(n as int, k as nat) is None,
        },
    decreases k,
{
    if k == 0 {
        Some(n)
    } else {
        match scale_up_mag_e(n, k - 1) {
            None => None,
            Some(x) => match x.checked_mul(10) {
                None => None,
                Some(y) => if y > (i128::MAX as u128) {
                    None
                } else {
                    Some(y)
                },
            },
        }
    }
}

fn div_steps_e(n: u128, d: u128, fuel: u32) -> (r: Option<(u128, u32)>)
    requires
        d > 0,
        n <= i128::MAX as u128,
    ensures
        match r {
            Some(p) => div_steps(n as int, d as int, fuel as nat) == Some((p.0 as int, p.1 as nat))
                && p.0 <= i128::MAX as u128 && p.1 <= fuel,
            None => div_steps(n as int, d as int, fuel as nat) is None,
        },
    decreases fuel,
{
    if n % d == 0 {
        proof {
            vstd::arithmetic::div_mod::lemma_div_is_ordered_by_denominator(n as int, 1, d as int);
            vstd::arithmetic::div_mod::lemma_div_basics_1(n as int);
        }
        Some((n / d, 0))
    } else if fuel == 0 {
        None
    } else {
        match n.checked_mul(10) {
            None => None,
            Some(n10) => if n10 > (i128::MAX as u128) {
                None
            } else {
                match div_steps_e(n10, d, fuel - 1) {
                    Some((q, s)) => Some((q, s + 1)),
                    None => None,
                }
            },
        }
    }
}

fn norm_mag_e(n: u128, s: u32) -> (r: (u128, u32))
    ensures
        (r.0 as int, r.1 as nat) == norm_mag(n as int, s as nat),
        r.0 <= n,
    decreases s,
{
    if s > 0 && n % 10 == 0 {
        proof {
            vstd::arithmetic::div_mod::lemma_div_is_ordered_by_denominator(n as int, 1, 10);
            vstd::arithmetic::div_mod::lemma_div_basics_1(n as int);
        }
        norm_mag_e(n / 10, s - 1)
    } else {
        (n, s)
    }
}

} // verus!
