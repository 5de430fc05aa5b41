use vstd::prelude::*;
use vstd::arithmetic::div_mod::{lemma_add_mod_noop_right, lemma_fundamental_div_mod};

verus! {

/// `x` incremented `k` times with wrap-around at 2^64.
pub open spec fn add_wrapped(x: u64, k: int) -> u64 {
    ((x + k) % 0x1_0000_0000_0000_0000) as u64
}

/// One wrapping increment is `add_wrapped` by one.
pub proof fn lemma_wrapping_increment(x: u64)
    ensures
        x.wrapping_add(1) == add_wrapped(x, 1),
{
}

/// A wrapping addition of `y` is `add_wrapped` by `y`.
pub proof fn lemma_wrapping_add(x: u64, y: u64)
    ensures
        x.wrapping_add(y) == add_wrapped(x, y as int),
{
}

/// Adding zero changes nothing.
pub proof fn lemma_add_wrapped_zero(x: u64)
    ensures
        add_wrapped(x, 0) == x,
{
    assert((x + 0) % 0x1_0000_0000_0000_0000 == x as int);
}

/// Two wrapping increments by `p` and `q` are one by `p + q`.
pub proof fn lemma_add_wrapped_twice(x: u64, p: int, q: int)
    requires
        p >= 0,
        q >= 0,
    ensures
        add_wrapped(add_wrapped(x, p), q) == add_wrapped(x, p + q),
{
    let m: int = 0x1_0000_0000_0000_0000;
    lemma_add_mod_noop_right(q, x + p, m);
    assert((q + (x + p)) == x + (p + q));
}

/// Between two multiples of `s` lies at least `s`.
pub proof fn lemma_multiples_gap(a: int, b: int, s: int)
    requires
        s > 0,
        a % s == 0,
        b % s == 0,
        a < b,
    ensures
        a + s <= b,
{
    lemma_fundamental_div_mod(a, s);
    lemma_fundamental_div_mod(b, s);
    let qa = a / s;
    let qb = b / s;
    assert(a == s * qa);
    assert(b == s * qb);
    assert(qa < qb) by (nonlinear_arith)
        requires
            s > 0,
            a == s * qa,
            b == s * qb,
            a < b,
    ;
    assert(a + s <= b) by (nonlinear_arith)
        requires
            s > 0,
            a == s * qa,
            b == s * qb,
            qa + 1 <= qb,
    ;
}

/// Adding or removing `s` keeps a multiple of `s` a multiple of `s`.
pub proof fn lemma_multiple_shift(c: int, s: int)
    requires
        s > 0,
        c % s == 0,
    ensures
        (c + s) % s == 0,
        (c - s) % s == 0,
{
    vstd::arithmetic::div_mod::lemma_mod_add_multiples_vanish(c, s);
    vstd::arithmetic::div_mod::lemma_mod_sub_multiples_vanish(c, s);
}

} // verus!
