use vstd::prelude::*;
use vstd::arithmetic::div_mod::{
    lemma_fundamental_div_mod, lemma_fundamental_div_mod_converse, lemma_mod_pos_bound,
};

verus! {

/// `n` copies of `s`, one after the other: the element at position `i` is
/// `s[i mod |s|]`.
pub open spec fn repeat<A>(s: Seq<A>, n: nat) -> Seq<A> {
    Seq::new(s.len() * n, |i: int| s[i % (s.len() as int)])
}

/// Position `q * d + r` lies in copy `q` at offset `r`.
pub proof fn lemma_div_mod_of_position(q: int, d: int, r: int)
    requires
        d > 0,
        0 <= r < d,
    ensures
        (q * d + r) / d == q,
        (q * d + r) % d == r,
{
    lemma_fundamental_div_mod_converse(q * d + r, d, q, r);
}

/// Position `i` of `n` copies of blocks of length `d` lies in copy `i / d`
/// (below `n`) at offset `i % d`.
pub proof fn lemma_position_split(i: int, d: int, n: int)
    requires
        d > 0,
        0 <= i < d * n,
    ensures
        i == (i / d) * d + i % d,
        0 <= i % d < d,
        0 <= i / d < n,
{
    lemma_fundamental_div_mod(i, d);
    lemma_mod_pos_bound(i, d);
    assert((i / d) * d == d * (i / d)) by (nonlinear_arith);
    assert(0 <= i / d) by (nonlinear_arith)
        requires
            d > 0,
            0 <= i,
            i == d * (i / d) + i % d,
            i % d < d,
    ;
    assert(i / d < n) by (nonlinear_arith)
        requires
            d > 0,
            i < d * n,
            i == d * (i / d) + i % d,
            0 <= i % d,
    ;
}

/// Appending one more copy of `s` to `n` copies gives `n + 1` copies.
pub proof fn lemma_repeat_push_copy<A>(s: Seq<A>, n: nat)
    ensures
        repeat(s, n) + s == repeat(s, n + 1),
{
    let len = s.len() as int;
    assert(len * (n + 1) == len * n + len) by (nonlinear_arith);
    assert forall|i: int| 0 <= i < len * (n + 1) implies (repeat(s, n) + s)[i] == repeat(s, n + 1)[i] by {
        if i >= len * n {
            lemma_div_mod_of_position(n as int, len, i - len * n);
            assert(n * len == len * n) by (nonlinear_arith);
        }
    }
    assert((repeat(s, n) + s) =~= repeat(s, n + 1));
}

/// One copy of `s` is `s`.
pub proof fn lemma_repeat_one<A>(s: Seq<A>)
    ensures
        repeat(s, 1) == s,
{
    assert forall|i: int| 0 <= i < s.len() implies repeat(s, 1)[i] == s[i] by {
        lemma_div_mod_of_position(0, s.len() as int, i);
    }
    assert(repeat(s, 1) =~= s);
}

/// `s` followed by `n` copies of `s` is `n + 1` copies of `s`.
pub proof fn lemma_prepend_copy<A>(s: Seq<A>, n: nat)
    ensures
        s + repeat(s, n) == repeat(s, n + 1),
    decreases n,
{
    if n == 0 {
        assert(s + repeat(s, 0) =~= s);
        lemma_repeat_one(s);
    } else {
        lemma_prepend_copy(s, (n - 1) as nat);
        lemma_repeat_push_copy(s, (n - 1) as nat);
        lemma_repeat_push_copy(s, n);
        assert(s + repeat(s, n) =~= (s + repeat(s, (n - 1) as nat)) + s);
    }
}

/// Appends to `v` `copies` further copies of its first `prefix_len` elements.
pub fn append_prefix_copies<A: Copy>(v: &mut Vec<A>, prefix_len: usize, copies: u32)
    requires
        prefix_len <= old(v)@.len(),
        old(v)@.len() + prefix_len * copies <= usize::MAX,
    ensures
        final(v)@ == old(v)@ + repeat(old(v)@.take(prefix_len as int), copies as nat),
{
    let ghost v0 = v@;
    let ghost p = v@.take(prefix_len as int);
    let base = v.len();
    let mut k: u32 = 0;
    assert(v@ =~= v0 + repeat(p, 0));
    while k < copies
        invariant
            k <= copies,
            base == v0.len(),
            prefix_len <= base,
            p == v0.take(prefix_len as int),
            base + prefix_len * copies <= usize::MAX,
            v@ == v0 + repeat(p, k as nat),
        decreases copies - k,
    {
        assert(prefix_len * k + prefix_len <= prefix_len * copies) by (nonlinear_arith)
            requires
                k < copies,
        ;
        let mut j: usize = 0;
        while j < prefix_len
            invariant
                j <= prefix_len,
                k < copies,
                base == v0.len(),
                prefix_len <= base,
                p == v0.take(prefix_len as int),
                base + prefix_len * k + prefix_len <= usize::MAX,
                v@ == v0 + repeat(p, k as nat) + p.take(j as int),
            decreases prefix_len - j,
        {
            let x = v[j];
            assert(x == p[j as int]);
            v.push(x);
            assert(p.take(j as int).push(p[j as int]) =~= p.take(j + 1));
            assert(v@ =~= v0 + repeat(p, k as nat) + p.take(j + 1));
            j += 1;
        }
        proof {
            assert(p.take(prefix_len as int) =~= p);
            lemma_repeat_push_copy(p, k as nat);
            assert(v0 + repeat(p, k as nat) + p =~= v0 + (repeat(p, k as nat) + p));
        }
        k += 1;
    }
}

/// A new vector holding the elements of `s`.
pub fn copy_of<A: Copy>(s: &[A]) -> (v: Vec<A>)
    ensures
        v@ == s@,
{
    let mut v: Vec<A> = Vec::with_capacity(s.len());
    let mut i: usize = 0;
    while i < s.len()
        invariant
            i <= s@.len(),
            v@ == s@.take(i as int),
        decreases s@.len() - i,
    {
        v.push(s[i]);
        assert(v@ =~= s@.take(i + 1));
        i += 1;
    }
    assert(v@ =~= s@);
    v
}

/// Overwrites every element of `dst` with the element of `src` at the same
/// position; the two have the same length.
pub fn overwrite_with<A: Copy>(dst: &mut Vec<A>, src: &[A])
    requires
        old(dst)@.len() == src@.len(),
    ensures
        final(dst)@ == src@,
{
    let mut i: usize = 0;
    while i < src.len()
        invariant
            i <= src@.len(),
            dst@.len() == src@.len(),
            forall|j: int| 0 <= j < i ==> dst@[j] == src@[j],
        decreases src@.len() - i,
    {
        dst[i] = src[i];
        i += 1;
    }
    assert(dst@ =~= src@);
}

} // verus!
