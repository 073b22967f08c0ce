use vstd::prelude::*;
use vstd::arithmetic::power2::{
    lemma2_to64_rest, lemma_pow2_pos, lemma_pow2_strictly_increases, lemma_pow2_unfold, pow2,
};
use vstd::arithmetic::div_mod::{lemma_fundamental_div_mod, lemma_mod_multiples_basic};
use crate::geometry::Shape;

verus! {

proof fn lemma_half_of_multiple(h: int, q: int)
    requires
        q > 0,
        h % (2 * q) == 0,
    ensures
        h % 2 == 0,
        (h / 2) % q == 0,
{
    let k = h / (2 * q);
    lemma_fundamental_div_mod(h, 2 * q);
    assert(h == 2 * (k * q)) by (nonlinear_arith)
        requires
            h == (2 * q) * k,
    ;
    lemma_mod_multiples_basic(k, q);
}

proof fn lemma_multiple_of_factor(h: int, m: int, p: int)
    requires
        m > 0,
        p > 0,
        h % (m * p) == 0,
    ensures
        h % m == 0,
{
    assert(m * p > 0) by (nonlinear_arith)
        requires
            m > 0,
            p > 0,
    ;
    let k = h / (m * p);
    lemma_fundamental_div_mod(h, m * p);
    assert(h == (p * k) * m) by (nonlinear_arith)
        requires
            h == (m * p) * k,
    ;
    lemma_mod_multiples_basic(p * k, m);
}

/// Where a triangle's height is a multiple of `m * 2^depth`, the height of
/// every triangle below it down to `depth` levels is a multiple of `m`.
///
/// With `m` at two, every triangle that a subdivision to `depth` levels
/// draws has a base width of exactly half its height. With `m` at four and
/// one level less, every triangle that such a subdivision divides in its
/// turn has a half base width of exactly a quarter of its height.
pub proof fn lemma_heights_below(s: Shape, depth: nat, m: int)
    requires
        m > 0,
        s.height % (m * pow2(depth)) == 0,
    ensures
        forall|i: int|
            0 <= i < s.descendants(depth).len() ==> (#[trigger] s.descendants(depth)[i]).height
                % m == 0,
        depth > 0 ==> 2 * s.half_height() == s.height,
    decreases depth,
{
    if depth > 0 {
        let below = (depth - 1) as nat;
        let q = m * pow2(below);
        lemma_pow2_unfold(depth);
        lemma_pow2_pos(below);
        assert(q > 0) by (nonlinear_arith)
            requires
                q == m * pow2(below),
                m > 0,
                pow2(below) > 0,
        ;
        assert(m * pow2(depth) == 2 * q) by (nonlinear_arith)
            requires
                q == m * pow2(below),
                pow2(depth) == 2 * pow2(below),
        ;
        lemma_half_of_multiple(s.height, q);
        lemma_multiple_of_factor(s.height / 2, m, pow2(below) as int);
        let (t, l, r) = (s.top_sub(), s.left_sub(), s.right_sub());
        lemma_heights_below(t, below, m);
        lemma_heights_below(l, below, m);
        lemma_heights_below(r, below, m);
        let first = seq![t] + t.descendants(below);
        let second = seq![l] + l.descendants(below);
        let third = seq![r] + r.descendants(below);
        assert(s.descendants(depth) =~= first + second + third);
        assert forall|i: int| 0 <= i < s.descendants(depth).len() implies (
        #[trigger] s.descendants(depth)[i]).height % m == 0 by {
            if i < first.len() {
                assert(s.descendants(depth)[i] == first[i]);
                if i > 0 {
                    assert(first[i] == t.descendants(below)[i - 1]);
                }
            } else if i < first.len() + second.len() {
                let j = i - first.len();
                assert(s.descendants(depth)[i] == second[j]);
                if j > 0 {
                    assert(second[j] == l.descendants(below)[j - 1]);
                }
            } else {
                let j = i - first.len() - second.len();
                assert(s.descendants(depth)[i] == third[j]);
                if j > 0 {
                    assert(third[j] == r.descendants(below)[j - 1]);
                }
            }
        }
    }
}

/// The number of grid units to give to one unit of a caller's own measure
/// so that a subdivision to `depth` levels of a triangle whose height is
/// whole in that measure halves without remainder: `2^(depth+1)`, where an
/// `i64` holds it.
pub fn exact_unit(depth: u64) -> (r: Option<i64>)
    ensures
        r.is_some() <==> depth < 62,
        r.is_some() ==> r.unwrap() == pow2((depth + 1) as nat),
{
    if depth >= 62 {
        return None;
    }
    let mut unit: i64 = 1;
    let mut level: u64 = 0;
    proof {
        vstd::arithmetic::power2::lemma2_to64();
    }
    while level <= depth
        invariant
            depth < 62,
            level <= depth + 1,
            unit == pow2(level as nat),
        decreases depth + 1 - level,
    {
        proof {
            lemma2_to64_rest();
            lemma_pow2_unfold((level + 1) as nat);
            if level + 1 < 62 {
                lemma_pow2_strictly_increases((level + 1) as nat, 62);
            }
        }
        unit = unit * 2;
        level = level + 1;
    }
    Some(unit)
}

} // verus!
