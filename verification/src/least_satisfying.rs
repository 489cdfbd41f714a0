//! Ternary-valued binary search over a chronologically ordered sequence of
//! probe points, tolerating runs of unknown (untestable) points.

use vstd::prelude::*;

verus! {

/// The ternary verdict of the predicate at one probed point.
#[derive(Copy, Clone, Debug, PartialEq, Eq, Structural)]
pub enum Satisfies {
    Yes,
    No,
    Unknown,
}

impl Satisfies {
    /// Returns the term matching the verdict.
    pub fn msg_with_context<'a>(&self, term_old: &'a str, term_new: &'a str) -> (r: &'a str)
        ensures
            *self == Satisfies::Yes ==> r@ == term_new@,
            *self == Satisfies::No ==> r@ == term_old@,
            *self == Satisfies::Unknown ==> r@ == "Unable to figure out if the condition matched"@,
    {
        match self {
            Satisfies::Yes => term_new,
            Satisfies::No => term_old,
            Satisfies::Unknown => "Unable to figure out if the condition matched",
        }
    }
}

impl core::convert::From<Option<bool>> for Satisfies {
    /// `Some(true)` marks a satisfying point, `Some(false)` a refuting one,
    /// and `None` a point that could not be tested.
    fn from(o: Option<bool>) -> (r: Satisfies) {
        match o {
            Some(true) => Satisfies::Yes,
            Some(false) => Satisfies::No,
            None => Satisfies::Unknown,
        }
    }
}

impl vstd::std_specs::convert::FromSpecImpl<Option<bool>> for Satisfies {
    open spec fn obeys_from_spec() -> bool {
        true
    }

    open spec fn from_spec(o: Option<bool>) -> Satisfies {
        match o {
            Some(true) => Satisfies::Yes,
            Some(false) => Satisfies::No,
            None => Satisfies::Unknown,
        }
    }
}

/// Number of trailing zero bits in `x`; the depth measure of the
/// left-heavy binary tree that the stabilized midpoint walks.
pub open spec fn trailing_zeros_of(x: nat) -> nat
    decreases x,
{
    if x == 0 {
        0
    } else if x % 2 == 1 {
        0
    } else {
        1 + trailing_zeros_of(x / 2)
    }
}

/// `trailing_zeros_of(x) >= k` exactly when `2^k` divides `x`.
proof fn lemma_tz_divides(x: nat, k: nat)
    requires
        x > 0,
    ensures
        trailing_zeros_of(x) >= k <==> x % vstd::arithmetic::power2::pow2(k) == 0,
    decreases k,
{
    vstd::arithmetic::power2::lemma_pow2_pos(k);
    if k == 0 {
        assert(vstd::arithmetic::power2::pow2(0) == 1) by {
            vstd::arithmetic::power2::lemma2_to64();
        }
    } else {
        let m = vstd::arithmetic::power2::pow2((k - 1) as nat);
        vstd::arithmetic::power2::lemma_pow2_pos((k - 1) as nat);
        assert(vstd::arithmetic::power2::pow2(k) == 2 * m) by {
            vstd::arithmetic::power2::lemma_pow2_unfold(k);
        }
        vstd::arithmetic::div_mod::lemma_mod_breakdown(x as int, 2, m as int);
        assert(x as int % (2 * m as int) == 2 * ((x as int / 2) % m as int) + x as int % 2);
        if x % 2 == 1 {
            // an odd number is not divisible by 2m
            assert(x % (2 * m) != 0);
        } else {
            lemma_tz_divides(x / 2, (k - 1) as nat);
        }
    }
}

/// Isolates the most significant set bit of `x`.
fn isolate_most_significant_one(x: u64) -> (r: u64)
    requires
        x >= 1,
    ensures
        r != 0,
        r & ((r - 1) as u64) == 0,
        r <= x,
        (x >> 1u64) < r,
        exists|k: nat| r == vstd::arithmetic::power2::pow2(k),
{
    let mut r: u64 = 1;
    proof {
        vstd::arithmetic::power2::lemma2_to64();
        assert(1u64 == vstd::arithmetic::power2::pow2(0));
        assert(1u64 & ((1u64 - 1) as u64) == 0) by (bit_vector);
    }
    while (x >> 1u64) >= r
        invariant
            x >= 1,
            1 <= r <= x,
            r & ((r - 1) as u64) == 0,
            exists|k: nat| r == vstd::arithmetic::power2::pow2(k),
        decreases x - r,
    {
        proof {
            assert((x >> 1u64) >= r ==> 2 * r <= x) by (bit_vector);
            assert(r & ((r - 1) as u64) == 0 && r >= 1 && 2 * r <= x ==> ((2 * r) as u64) & (((2
                * r) as u64 - 1) as u64) == 0) by (bit_vector);
            let k0 = choose|k: nat| r == vstd::arithmetic::power2::pow2(k);
            assert(2 * vstd::arithmetic::power2::pow2(k0) == vstd::arithmetic::power2::pow2(
                k0 + 1,
            )) by {
                vstd::arithmetic::power2::lemma_pow2_unfold(k0 + 1);
            }
        }
        r = r * 2;
    }
    r
}

/// The probe index that `least_satisfying` tests next, on one-based indices:
/// the unique index strictly between `left` and `right` whose trailing-zero
/// depth is maximal, so that overlapping searches revisit the same probes.
pub fn midpoint_stable(left: usize, right: usize) -> (mid: usize)
    requires
        1 <= left,
        left + 2 <= right,
        right <= usize::MAX / 2,
    ensures
        left < mid < right,
        forall|j: usize| left < j < right ==> trailing_zeros_of(j as nat) <= trailing_zeros_of(
            mid as nat,
        ),
{
    if left + 1 == right - 1 {
        return left + 1;
    }
    let l: u64 = left as u64;
    let q: u64 = (right - 1) as u64;
    let x: u64 = l ^ q;
    proof {
        assert(usize::MAX / 2 <= 0x7fff_ffff_ffff_ffff as int);
        assert(l >= 1 && l + 2 <= q && q <= 0x7fff_ffff_ffff_ffff ==> (l ^ q) >= 1)
            by (bit_vector);
    }
    let diff = isolate_most_significant_one(x);
    let mask = !(diff - 1);
    let m64 = (mask & l) | diff;
    proof {
        let ghost k = choose|k: nat| diff == vstd::arithmetic::power2::pow2(k);
        // The probe sits strictly between the endpoints, its bits below the
        // distinguishing bit are clear, and the distinguishing bit is set.
        assert(l < m64 && m64 <= q && m64 & ((diff - 1) as u64) == 0 && m64 & diff == diff && (
        diff | ((diff - 1) as u64)) == ((2 * diff - 1) as u64) && diff <= 0x7fff_ffff_ffff_ffff)
            by (bit_vector)
            requires
                1 <= l,
                l + 2 <= q,
                q <= 0x7fff_ffff_ffff_ffff,
                x == l ^ q,
                diff != 0,
                diff & ((diff - 1) as u64) == 0,
                diff <= x,
                (x >> 1u64) < diff,
                mask == !((diff - 1) as u64),
                m64 == (mask & l) | diff,
        ;
        vstd::arithmetic::power2::lemma2_to64_rest();
        assert(k < 63) by {
            if k >= 63 {
                vstd::arithmetic::power2::lemma_pow2_strictly_increases(63, k + 1);
                if k > 63 {
                    vstd::arithmetic::power2::lemma_pow2_strictly_increases(63, k);
                }
            }
        }
        assert(vstd::arithmetic::power2::pow2(k + 1) == 2 * diff) by {
            vstd::arithmetic::power2::lemma_pow2_unfold(k + 1);
        }
        // Bits below the distinguishing bit clear == divisible by 2^k;
        // the distinguishing bit set == not divisible by 2^(k+1).
        vstd::bits::lemma_u64_low_bits_mask_is_mod(m64, k);
        vstd::bits::lemma_u64_low_bits_mask_is_mod(m64, k + 1);
        lemma_tz_divides(m64 as nat, k);
        lemma_tz_divides(m64 as nat, k + 1);
        assert(m64 & ((vstd::bits::low_bits_mask(k + 1)) as u64) != 0) by {
            assert(m64 & diff == diff && diff != 0 && (diff | ((diff - 1) as u64)) == ((2 * diff
                - 1) as u64) ==> m64 & ((2 * diff - 1) as u64) != 0) by (bit_vector);
        }
        assert(trailing_zeros_of(m64 as nat) == k);
        assert forall|j: usize| left < j < right implies trailing_zeros_of(j as nat)
            <= trailing_zeros_of(m64 as nat) by {
            let j64 = j as u64;
            assert(j64 & ((2 * diff - 1) as u64) != 0) by (bit_vector)
                requires
                    1 <= l,
                    l + 2 <= q,
                    q <= 0x7fff_ffff_ffff_ffff,
                    l < j64,
                    j64 <= q,
                    x == l ^ q,
                    diff != 0,
                    diff & ((diff - 1) as u64) == 0,
                    diff <= x,
                    (x >> 1u64) < diff,
            ;
            vstd::bits::lemma_u64_low_bits_mask_is_mod(j64, k + 1);
            lemma_tz_divides(j64 as nat, k + 1);
        }
    }
    let mid = m64 as usize;
    mid
}

/// Law: the stabilized probe is the unique deepest index of its interval.
/// Any other candidate is strictly shallower, so after the interval narrows
/// to one side of the probe, the next probe's depth is strictly smaller:
/// successive decisive probes descend in depth, which bounds their number by
/// the depth of the first one.
pub proof fn lemma_stabilized_probe_unique(left: usize, right: usize, mid: usize, j: usize)
    requires
        left < mid < right,
        left < j < right,
        j != mid,
        forall|t: usize|
            left < t < right ==> trailing_zeros_of(t as nat) <= trailing_zeros_of(mid as nat),
    ensures
        trailing_zeros_of(j as nat) < trailing_zeros_of(mid as nat),
{
    let d = trailing_zeros_of(mid as nat);
    assert(trailing_zeros_of(j as nat) <= d);
    if trailing_zeros_of(j as nat) >= d {
        // both the probe and `j` would be odd multiples of 2^d; between two
        // such numbers lies a multiple of 2^(d+1), deeper than the probe
        vstd::arithmetic::power2::lemma_pow2_pos(d);
        vstd::arithmetic::power2::lemma_pow2_pos(d + 1);
        let p = vstd::arithmetic::power2::pow2(d) as int;
        assert(vstd::arithmetic::power2::pow2(d + 1) == 2 * p) by {
            vstd::arithmetic::power2::lemma_pow2_unfold(d + 1);
        }
        lemma_tz_divides(mid as nat, d);
        lemma_tz_divides(mid as nat, d + 1);
        lemma_tz_divides(j as nat, d);
        lemma_tz_divides(j as nat, d + 1);
        let lo: int = if j < mid {
            j as int
        } else {
            mid as int
        };
        let hi: int = if j < mid {
            mid as int
        } else {
            j as int
        };
        assert(lo % p == 0 && hi % p == 0 && lo % (2 * p) != 0 && hi % (2 * p) != 0);
        let u = lo / p;
        let v = hi / p;
        vstd::arithmetic::div_mod::lemma_fundamental_div_mod(lo, p);
        vstd::arithmetic::div_mod::lemma_fundamental_div_mod(hi, p);
        vstd::arithmetic::div_mod::lemma_mod_breakdown(lo, p, 2);
        vstd::arithmetic::div_mod::lemma_mod_breakdown(hi, p, 2);
        assert(lo == p * u + lo % p);
        assert(hi == p * v + hi % p);
        assert(u % 2 == 1) by {
            if u % 2 != 1 {
                assert(u % 2 == 0);
                assert(p * (u % 2) == 0) by (nonlinear_arith)
                    requires
                        u % 2 == 0,
                ;
                assert(lo % (p * 2) == 0);
            }
        }
        assert(v % 2 == 1) by {
            if v % 2 != 1 {
                assert(v % 2 == 0);
                assert(p * (v % 2) == 0) by (nonlinear_arith)
                    requires
                        v % 2 == 0,
                ;
                assert(hi % (p * 2) == 0);
            }
        }
        assert(u < v) by {
            if v <= u {
                vstd::arithmetic::mul::lemma_mul_inequality(v, u, p);
                vstd::arithmetic::mul::lemma_mul_is_commutative(v, p);
                vstd::arithmetic::mul::lemma_mul_is_commutative(u, p);
            }
        }
        assert(v != u + 1);
        assert(u + 2 <= v);
        let m = p * (u + 1);
        assert(m == lo + p) by {
            vstd::arithmetic::mul::lemma_mul_is_distributive_add(p, u, 1);
            assert(p * 1 == p) by (nonlinear_arith);
            assert(lo == p * u);
        }
        assert(m < hi) by {
            vstd::arithmetic::mul::lemma_mul_inequality(u + 2, v, p);
            vstd::arithmetic::mul::lemma_mul_is_commutative(u + 2, p);
            vstd::arithmetic::mul::lemma_mul_is_commutative(v, p);
            vstd::arithmetic::mul::lemma_mul_is_distributive_add(p, u, 2);
            assert(p * 2 == 2 * p);
            assert(hi >= p * (u + 2));
        }
        assert(m % p == 0) by {
            vstd::arithmetic::div_mod::lemma_mod_multiples_vanish(u + 1, 0, p);
        }
        assert(m / p == u + 1) by {
            vstd::arithmetic::div_mod::lemma_div_multiples_vanish(u + 1, p);
        }
        assert(m % (2 * p) == 0) by {
            vstd::arithmetic::div_mod::lemma_mod_breakdown(m, p, 2);
            assert((u + 1) % 2 == 0);
            assert(p * ((m / p) % 2) == 0) by (nonlinear_arith)
                requires
                    (m / p) % 2 == 0,
            ;
        }
        let mu = m as usize;
        assert(left < mu < right);
        lemma_tz_divides(mu as nat, d + 1);
        assert(trailing_zeros_of(mu as nat) >= d + 1);
        assert(trailing_zeros_of(mu as nat) <= d);
    }
}

/// The depth of slice index `i` in the one-based left-heavy tree that hangs
/// at `start_offset` inside the full history.
pub open spec fn tree_depth_at(start_offset: usize, i: usize) -> nat {
    trailing_zeros_of((i + start_offset + 1) as nat)
}

/// `midpoint_stable` on zero-based slice indices: the slice is regarded as a
/// one-based tree hanging at `start_offset` inside the full history, and the
/// probe is the index of maximal depth in that tree.
pub fn midpoint_stable_offset(start_offset: usize, left: usize, right: usize) -> (mid: usize)
    requires
        left + 2 <= right,
        start_offset + right + 1 <= usize::MAX / 2,
    ensures
        left < mid < right,
        forall|j: usize|
            left < j < right ==> #[trigger] tree_depth_at(start_offset, j) <= tree_depth_at(
                start_offset,
                mid,
            ),
{
    let base = start_offset + 1;
    let m = midpoint_stable(left + base, right + base);
    let mid = m - base;
    proof {
        assert forall|j: usize|
            left < j < right implies #[trigger] tree_depth_at(start_offset, j) <= tree_depth_at(
            start_offset,
            mid,
        ) by {
            let shifted = (j + base) as usize;
            assert(left + base < shifted < right + base);
            assert(trailing_zeros_of(shifted as nat) <= trailing_zeros_of(m as nat));
        }
    }
    mid
}

/// No point that satisfies the predicate is followed by one that does not:
/// the verdicts form a monotone sequence once `Unknown` entries are ignored.
pub open spec fn monotone_verdicts(s: Seq<Satisfies>) -> bool {
    forall|i: int, j: int| 0 <= i < j < s.len() && s[i] == Satisfies::Yes ==> s[j]
        != Satisfies::No
}

/// `k` is the smallest index whose verdict is `Yes`.
pub open spec fn is_first_yes(s: Seq<Satisfies>, k: int) -> bool {
    &&& 0 <= k < s.len()
    &&& s[k] == Satisfies::Yes
    &&& forall|j: int| 0 <= j < k ==> s[j] != Satisfies::Yes
}

/// Every verdict held in the memo cache was returned by the predicate.
pub open spec fn cache_wf<F: Fn(usize) -> Satisfies>(c: Seq<Option<Satisfies>>, f: F) -> bool {
    forall|j: int, v: Satisfies| 0 <= j < c.len() && c[j] == Some(v) ==> call_ensures(
        f,
        (j as usize,),
        v,
    )
}

/// `c2` is `c1` with possibly more verdicts memoized; nothing is overwritten.
pub open spec fn cache_extends(c2: Seq<Option<Satisfies>>, c1: Seq<Option<Satisfies>>) -> bool {
    &&& c2.len() == c1.len()
    &&& forall|j: int| 0 <= j < c1.len() && c1[j] is Some ==> c2[j] == c1[j]
}

/// A recorded run of unknown points: a non-empty all-`Unknown` stretch whose
/// neighbours on each side are either a sequence end or memoized non-`Unknown`.
pub open spec fn range_wf(rg: (usize, usize), c: Seq<Option<Satisfies>>) -> bool {
    &&& 1 <= rg.0 <= rg.1
    &&& rg.1 + 2 <= c.len()
    &&& forall|j: int| rg.0 <= j <= rg.1 ==> c[j] == Some(Satisfies::Unknown)
    &&& (rg.0 == 1 || (c[rg.0 - 1] is Some && c[rg.0 - 1] != Some(Satisfies::Unknown)))
    &&& (rg.1 + 2 == c.len() || (c[rg.1 + 1] is Some && c[rg.1 + 1] != Some(Satisfies::Unknown)))
}

pub open spec fn ranges_wf(rs: Seq<(usize, usize)>, c: Seq<Option<Satisfies>>) -> bool {
    forall|k: int| 0 <= k < rs.len() ==> range_wf(#[trigger] rs[k], c)
}

/// `j` lies inside one of the recorded unknown runs.
pub open spec fn covered(rs: Seq<(usize, usize)>, j: int) -> bool {
    exists|k: int| 0 <= k < rs.len() && (#[trigger] rs[k]).0 <= j <= rs[k].1
}

/// How many points have not been probed yet; the measure that shrinks when a
/// fresh unknown run is explored.
pub open spec fn none_count(c: Seq<Option<Satisfies>>, n: int) -> nat
    decreases n,
{
    if n <= 0 {
        0
    } else {
        none_count(c, n - 1) + if c[n - 1] is None {
            1nat
        } else {
            0nat
        }
    }
}

/// The search has pinned `r` down from below: some point `b` under `r`
/// refutes the condition (or is the sequence start), and everything strictly
/// between `b` and `r` tested `Unknown`.
pub open spec fn lower_blocked<F: Fn(usize) -> Satisfies>(f: F, b: usize, r: usize) -> bool {
    &&& b < r
    &&& b == 0 || call_ensures(f, (b,), Satisfies::No)
    &&& forall|j: usize| b < j < r ==> call_ensures(f, (j,), Satisfies::Unknown)
}

proof fn lemma_none_count_le(c1: Seq<Option<Satisfies>>, c2: Seq<Option<Satisfies>>, n: int)
    requires
        forall|j: int| 0 <= j < n ==> (c2[j] is None ==> c1[j] is None),
    ensures
        none_count(c2, n) <= none_count(c1, n),
    decreases n,
{
    if n > 0 {
        lemma_none_count_le(c1, c2, n - 1);
    }
}

proof fn lemma_none_count_lt(c1: Seq<Option<Satisfies>>, c2: Seq<Option<Satisfies>>, n: int, w: int)
    requires
        forall|j: int| 0 <= j < n ==> (c2[j] is None ==> c1[j] is None),
        0 <= w < n,
        c1[w] is None,
        c2[w] is Some,
    ensures
        none_count(c2, n) < none_count(c1, n),
    decreases n,
{
    if w == n - 1 {
        lemma_none_count_le(c1, c2, n - 1);
    } else {
        lemma_none_count_lt(c1, c2, n - 1, w);
    }
}

/// Evaluates the predicate at `i`, memoized: a point is never tested twice.
fn probe<F: Fn(usize) -> Satisfies>(f: &F, cache: &mut Vec<Option<Satisfies>>, i: usize) -> (v:
    Satisfies)
    requires
        i < old(cache)@.len(),
        call_requires(*f, (i,)),
        cache_wf(old(cache)@, *f),
    ensures
        final(cache)@.len() == old(cache)@.len(),
        cache_wf(final(cache)@, *f),
        cache_extends(final(cache)@, old(cache)@),
        call_ensures(*f, (i,), v),
        final(cache)@[i as int] == Some(v),
        forall|j: int|
            0 <= j < final(cache)@.len() && j != i ==> final(cache)@[j] == old(cache)@[j],
        old(cache)@[i as int] is Some ==> old(cache)@[i as int] == Some(v),
{
    let c = cache[i];
    match c {
        Some(v) => v,
        None => {
            let v = f(i);
            cache[i] = Some(v);
            v
        },
    }
}

/// Walks left from an unknown point to the nearest memoized non-unknown
/// neighbour, or to the start of the sequence.
fn walk_left<F: Fn(usize) -> Satisfies>(
    f: &F,
    cache: &mut Vec<Option<Satisfies>>,
    start: usize,
) -> (l: usize)
    requires
        1 <= start < old(cache)@.len(),
        forall|i: usize| i < old(cache)@.len() ==> call_requires(*f, (i,)),
        cache_wf(old(cache)@, *f),
        old(cache)@[start as int] == Some(Satisfies::Unknown),
    ensures
        final(cache)@.len() == old(cache)@.len(),
        cache_wf(final(cache)@, *f),
        cache_extends(final(cache)@, old(cache)@),
        l < start,
        l == 0 || (final(cache)@[l as int] is Some && final(cache)@[l as int] != Some(
            Satisfies::Unknown,
        )),
        forall|j: int| l < j <= start ==> final(cache)@[j] == Some(Satisfies::Unknown),
        forall|j: int|
            0 <= j < final(cache)@.len() && !(l <= j <= start) ==> final(cache)@[j] == old(
                cache,
            )@[j],
{
    let ghost c0 = cache@;
    let mut l = start;
    loop
        invariant
            c0 == old(cache)@,
            c0[start as int] == Some(Satisfies::Unknown),
            1 <= start < cache@.len(),
            l <= start,
            start < cache@.len(),
            forall|i: usize| i < cache@.len() ==> call_requires(*f, (i,)),
            cache_wf(cache@, *f),
            cache_extends(cache@, c0),
            forall|j: int| l < j <= start ==> cache@[j] == Some(Satisfies::Unknown),
            forall|j: int| 0 <= j < cache@.len() && !(l <= j <= start) ==> cache@[j] == c0[j],
            l < start ==> cache@[start as int] == Some(Satisfies::Unknown),
            l == start ==> cache@ == c0,
        decreases l,
    {
        if l == 0 {
            return l;
        }
        let v = probe(f, cache, l);
        if v != Satisfies::Unknown {
            proof {
                assert(l != start);
            }
            return l;
        }
        l = l - 1;
    }
}

/// Walks right from an unknown point to the nearest memoized non-unknown
/// neighbour, or to the end of the sequence.
fn walk_right<F: Fn(usize) -> Satisfies>(
    f: &F,
    cache: &mut Vec<Option<Satisfies>>,
    start: usize,
) -> (r: usize)
    requires
        start + 2 <= old(cache)@.len(),
        forall|i: usize| i < old(cache)@.len() ==> call_requires(*f, (i,)),
        cache_wf(old(cache)@, *f),
        old(cache)@[start as int] == Some(Satisfies::Unknown),
    ensures
        final(cache)@.len() == old(cache)@.len(),
        cache_wf(final(cache)@, *f),
        cache_extends(final(cache)@, old(cache)@),
        start < r < final(cache)@.len(),
        r == final(cache)@.len() - 1 || (final(cache)@[r as int] is Some
            && final(cache)@[r as int] != Some(Satisfies::Unknown)),
        forall|j: int| start <= j < r ==> final(cache)@[j] == Some(Satisfies::Unknown),
        forall|j: int|
            0 <= j < final(cache)@.len() && !(start <= j <= r) ==> final(cache)@[j] == old(
                cache,
            )@[j],
{
    let ghost c0 = cache@;
    let mut r = start;
    loop
        invariant
            c0 == old(cache)@,
            c0[start as int] == Some(Satisfies::Unknown),
            start + 2 <= cache@.len(),
            start <= r < cache@.len(),
            forall|i: usize| i < cache@.len() ==> call_requires(*f, (i,)),
            cache_wf(cache@, *f),
            cache_extends(cache@, c0),
            forall|j: int| start <= j < r ==> cache@[j] == Some(Satisfies::Unknown),
            forall|j: int| 0 <= j < cache@.len() && !(start <= j <= r) ==> cache@[j] == c0[j],
            r == start ==> cache@ == c0,
        decreases cache@.len() - r,
    {
        if r >= cache.len() - 1 {
            return r;
        }
        let v = probe(f, cache, r);
        if v != Satisfies::Unknown {
            proof {
                assert(r != start);
            }
            return r;
        }
        r = r + 1;
    }
}

enum ProbeChoice {
    /// A recorded unknown run fills the whole open interval: stop and answer.
    Straddle,
    /// Probe this point next.
    At(usize),
}

/// Moves a tentative probe out of any recorded unknown run, to the run's
/// nearest memoized neighbour, or reports that a run straddles the interval.
fn select_probe(
    ur: &Vec<(usize, usize)>,
    next0: usize,
    rm_no: usize,
    lm_yes: usize,
    cache: &Vec<Option<Satisfies>>,
) -> (res: ProbeChoice)
    requires
        ranges_wf(ur@, cache@),
        rm_no < lm_yes < cache@.len(),
        rm_no < next0 < lm_yes,
        rm_no == 0 || cache@[rm_no as int] == Some(Satisfies::No),
        lm_yes == cache@.len() - 1 || cache@[lm_yes as int] == Some(Satisfies::Yes),
    ensures
        res is Straddle ==> rm_no + 1 < lm_yes && forall|j: int|
            rm_no < j < lm_yes ==> cache@[j] == Some(Satisfies::Unknown),
        forall|n: usize|
            res == ProbeChoice::At(n) ==> rm_no < n < lm_yes && ((cache@[n as int] is Some
                && cache@[n as int] != Some(Satisfies::Unknown)) || !covered(ur@, n as int)),
{
    let len = cache.len();
    let mut idx: usize = 0;
    while idx < ur.len()
        invariant
            ranges_wf(ur@, cache@),
            rm_no < lm_yes < cache@.len(),
            rm_no < next0 < lm_yes,
            rm_no == 0 || cache@[rm_no as int] == Some(Satisfies::No),
            lm_yes == cache@.len() - 1 || cache@[lm_yes as int] == Some(Satisfies::Yes),
            idx <= ur@.len(),
            forall|k: int| 0 <= k < idx ==> !((#[trigger] ur@[k]).0 <= next0 <= ur@[k].1),
        decreases ur@.len() - idx,
    {
        let (a, b) = ur[idx];
        if rm_no + 1 == a && b + 1 == lm_yes {
            proof {
                assert(range_wf(ur@[idx as int], cache@));
            }
            return ProbeChoice::Straddle;
        }
        if a <= next0 && next0 <= b {
            proof {
                assert(range_wf(ur@[idx as int], cache@));
                // the bounds of the search interval never lie inside a run
                if rm_no != 0 && a <= rm_no <= b {
                    assert(cache@[rm_no as int] == Some(Satisfies::Unknown));
                }
                if lm_yes != cache@.len() - 1 && a <= lm_yes <= b {
                    assert(cache@[lm_yes as int] == Some(Satisfies::Unknown));
                }
            }
            if rm_no < a - 1 {
                return ProbeChoice::At(a - 1);
            } else {
                proof {
                    assert(rm_no == a - 1);
                    assert(lm_yes > b);
                    assert(b + 1 < lm_yes);
                }
                return ProbeChoice::At(b + 1);
            }
        }
        idx = idx + 1;
    }
    ProbeChoice::At(next0)
}

/// The core ternary binary search.
///
/// The predicate is queried lazily and memoized, so each point is tested at
/// most once.  It must behave as a function of the index alone, the first
/// point must refute the condition and the last must satisfy it.  The result
/// is a point that satisfies the condition such that every earlier point back
/// to some refuting point (or to the start) tested `Unknown`.
pub fn least_satisfying_with<F: Fn(usize) -> Satisfies>(
    len: usize,
    start_offset: usize,
    f: F,
) -> (r: usize)
    requires
        2 <= len,
        start_offset + len <= usize::MAX / 2,
        forall|i: usize| i < len ==> call_requires(f, (i,)),
        forall|i: usize, v1: Satisfies, v2: Satisfies|
            #![trigger call_ensures(f, (i,), v1), call_ensures(f, (i,), v2)]
            call_ensures(f, (i,), v1) && call_ensures(f, (i,), v2) ==> v1 == v2,
        forall|v: Satisfies| call_ensures(f, (0usize,), v) ==> v == Satisfies::No,
        forall|i: usize, v: Satisfies| i == len - 1 && call_ensures(f, (i,), v) ==> v == Satisfies::Yes,
    ensures
        0 < r < len,
        r == len - 1 || call_ensures(f, (r,), Satisfies::Yes),
        exists|b: usize| lower_blocked(f, b, r),
{
    let mut cache: Vec<Option<Satisfies>> = vec![None; len];
    let mut unknown_ranges: Vec<(usize, usize)> = Vec::new();
    let mut rm_no: usize = 0;
    let mut lm_yes: usize = len - 1;
    loop
        invariant
            2 <= len,
            start_offset + len <= usize::MAX / 2,
            forall|i: usize| i < len ==> call_requires(f, (i,)),
            forall|i: usize, v1: Satisfies, v2: Satisfies|
                #![trigger call_ensures(f, (i,), v1), call_ensures(f, (i,), v2)]
                call_ensures(f, (i,), v1) && call_ensures(f, (i,), v2) ==> v1 == v2,
            forall|v: Satisfies| call_ensures(f, (0usize,), v) ==> v == Satisfies::No,
            forall|i: usize, v: Satisfies|
                i == len - 1 && call_ensures(f, (i,), v) ==> v == Satisfies::Yes,
            cache@.len() == len,
            cache_wf(cache@, f),
            rm_no < lm_yes < len,
            rm_no == 0 || cache@[rm_no as int] == Some(Satisfies::No),
            lm_yes == len - 1 || cache@[lm_yes as int] == Some(Satisfies::Yes),
            ranges_wf(unknown_ranges@, cache@),
            forall|j: int|
                0 <= j < len && cache@[j] == Some(Satisfies::Unknown) ==> covered(
                    unknown_ranges@,
                    j,
                ),
        decreases lm_yes - rm_no, none_count(cache@, len as int),
    {
        if rm_no + 1 == lm_yes {
            proof {
                assert(lower_blocked(f, rm_no, lm_yes));
            }
            return lm_yes;
        }
        let next0 = midpoint_stable_offset(start_offset, rm_no, lm_yes);
        let choice = select_probe(&unknown_ranges, next0, rm_no, lm_yes, &cache);
        match choice {
            ProbeChoice::Straddle => {
                proof {
                    assert forall|j: usize| rm_no < j < lm_yes implies call_ensures(
                        f,
                        (j,),
                        Satisfies::Unknown,
                    ) by {
                        assert(cache@[j as int] == Some(Satisfies::Unknown));
                    }
                    assert(lower_blocked(f, rm_no, lm_yes));
                }
                return lm_yes;
            },
            ProbeChoice::At(next) => {
                let ghost cache0 = cache@;
                let ghost ur0 = unknown_ranges@;
                let v = probe(&f, &mut cache, next);
                let ghost cache_p = cache@;
                match v {
                    Satisfies::Yes => {
                        lm_yes = next;
                    },
                    Satisfies::No => {
                        rm_no = next;
                    },
                    Satisfies::Unknown => {
                        proof {
                            // the point was not memoized before: a memoized
                            // unknown would lie in a recorded run
                            if cache0[next as int] is Some {
                                assert(cache0[next as int] == Some(Satisfies::Unknown));
                                assert(covered(ur0, next as int));
                            }
                            assert(cache0[next as int] is None);
                        }
                        let l = walk_left(&f, &mut cache, next);
                        let ghost cache1 = cache@;
                        let r = walk_right(&f, &mut cache, next);
                        proof {
                            assert(cache_extends(cache1, cache_p));
                            assert(cache_extends(cache@, cache0));
                        }
                        proof {
                            // the endpoints always carry definite verdicts
                            if l == 0 && cache@[0] == Some(Satisfies::Unknown) {
                                assert(call_ensures(f, (0usize,), Satisfies::Unknown));
                            }
                            if r == len - 1 && cache@[r as int] == Some(Satisfies::Unknown) {
                                assert(call_ensures(
                                    f,
                                    (((len - 1) as usize),),
                                    Satisfies::Unknown,
                                ));
                            }
                        }
                        unknown_ranges.push((l + 1, r - 1));
                        proof {
                            let rg = (((l + 1) as usize), ((r - 1) as usize));
                            assert(forall|j: int|
                                l + 1 <= j <= r - 1 ==> cache@[j] == Some(Satisfies::Unknown));
                            assert(range_wf(rg, cache@));
                            assert(unknown_ranges@ == ur0.push(rg));
                            assert forall|k: int| 0 <= k < unknown_ranges@.len() implies range_wf(
                                #[trigger] unknown_ranges@[k],
                                cache@,
                            ) by {
                                if k < ur0.len() {
                                    assert(range_wf(ur0[k], cache0));
                                }
                            }
                            assert forall|j: int|
                                0 <= j < len && cache@[j] == Some(Satisfies::Unknown)
                                implies covered(unknown_ranges@, j) by {
                                if cache0[j] == Some(Satisfies::Unknown) {
                                    assert(covered(ur0, j));
                                    let k = choose|k: int|
                                        0 <= k < ur0.len() && (#[trigger] ur0[k]).0 <= j
                                            <= ur0[k].1;
                                    assert((unknown_ranges@[k]).0 <= j <= unknown_ranges@[k].1);
                                } else {
                                    assert(l + 1 <= j <= r - 1);
                                    assert((unknown_ranges@[ur0.len() as int]).0 <= j
                                        <= unknown_ranges@[ur0.len() as int].1);
                                }
                            }
                            lemma_none_count_lt(cache0, cache@, len as int, next as int);
                        }
                    },
                }
            },
        }
    }
}

/// Returns the index of the earliest element of `slice` whose verdict is
/// `Yes`.  `start_offset` is the offset of the slice inside the full history,
/// used only to stabilize probe points across overlapping searches.
pub fn least_satisfying(slice: &[Satisfies], start_offset: usize) -> (r: usize)
    requires
        2 <= slice@.len(),
        start_offset + slice@.len() <= usize::MAX / 2,
        slice@[0] == Satisfies::No,
        slice@[slice@.len() - 1] == Satisfies::Yes,
        monotone_verdicts(slice@),
    ensures
        is_first_yes(slice@, r as int),
{
    let ghost s = slice@;
    let n = slice.len();
    let f = |i: usize| -> (v: Satisfies)
        requires
            i < slice@.len(),
        ensures
            v == slice@[i as int],
        { slice[i] };
    let r = least_satisfying_with(n, start_offset, f);
    proof {
        if r < n - 1 {
            assert(call_ensures(f, (r,), Satisfies::Yes));
            assert(s[r as int] == Satisfies::Yes);
        }
        let b = choose|b: usize| lower_blocked(f, b, r);
        assert(lower_blocked(f, b, r));
        assert(s[b as int] == Satisfies::No);
        assert forall|j: int| 0 <= j < r implies s[j] != Satisfies::Yes by {
            if j > b {
                assert(call_ensures(f, (j as usize,), Satisfies::Unknown));
                assert(s[j] == Satisfies::Unknown);
            } else if j < b {
                if s[j] == Satisfies::Yes {
                    assert(s[b as int] != Satisfies::No);
                }
            }
        }
    }
    r
}

} // verus!
