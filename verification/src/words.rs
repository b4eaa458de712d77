//! Big-endian byte/word arithmetic: the mathematical model of 32-byte ABI
//! words, and the executable conversions between machine integers and words.

use vstd::prelude::*;

verus! {

broadcast use vstd::seq_lib::group_seq_properties;

/// 256 raised to the power `k`.
pub open spec fn pow256(k: nat) -> nat
    decreases k,
{
    if k == 0 {
        1
    } else {
        256 * pow256((k - 1) as nat)
    }
}

/// A sequence of `n` zero bytes.
pub open spec fn zeros(n: nat) -> Seq<u8> {
    Seq::new(n, |i: int| 0u8)
}

/// The `k`-byte big-endian encoding of `n` (reduced modulo `256^k`).
pub open spec fn be_bytes(n: nat, k: nat) -> Seq<u8>
    decreases k,
{
    if k == 0 {
        Seq::empty()
    } else {
        be_bytes(n / 256, (k - 1) as nat).push((n % 256) as u8)
    }
}

/// The unsigned big-endian value of a byte sequence.
pub open spec fn be_val(s: Seq<u8>) -> nat
    decreases s.len(),
{
    if s.len() == 0 {
        0
    } else {
        be_val(s.drop_last()) * 256 + s.last() as nat
    }
}

/// A 32-byte word holding the value `n` (left-padded; exact when `n < 256^8`).
pub open spec fn word_of(n: nat) -> Seq<u8> {
    zeros(24) + be_bytes(n, 8)
}

/// The all-ones placeholder word that a deferred pointer occupies until the
/// output is built.
pub open spec fn ff_word() -> Seq<u8> {
    Seq::new(32, |i: int| 0xffu8)
}

/// The reversal of a byte sequence.
pub open spec fn rev_of(s: Seq<u8>) -> Seq<u8> {
    Seq::new(s.len(), |i: int| s[s.len() - 1 - i])
}

pub proof fn lemma_pow256_pos(k: nat)
    ensures
        pow256(k) >= 1,
    decreases k,
{
    if k > 0 {
        lemma_pow256_pos((k - 1) as nat);
    }
}

pub proof fn lemma_pow256_mono(a: nat, b: nat)
    requires
        a <= b,
    ensures
        pow256(a) <= pow256(b),
    decreases b,
{
    if a < b {
        lemma_pow256_mono(a, (b - 1) as nat);
        lemma_pow256_pos((b - 1) as nat);
    }
}

pub proof fn lemma_be_bytes_len(n: nat, k: nat)
    ensures
        be_bytes(n, k).len() == k,
    decreases k,
{
    if k > 0 {
        lemma_be_bytes_len(n / 256, (k - 1) as nat);
    }
}

/// A byte sequence is all zero exactly when its value is zero.
pub proof fn lemma_be_val_zero_iff(s: Seq<u8>)
    ensures
        be_val(s) == 0 <==> (forall|i: int| 0 <= i < s.len() ==> s[i] == 0),
    decreases s.len(),
{
    if s.len() > 0 {
        lemma_be_val_zero_iff(s.drop_last());
        if be_val(s) == 0 {
            assert(forall|i: int| 0 <= i < s.len() - 1 ==> s[i] == s.drop_last()[i]);
        }
        if forall|i: int| 0 <= i < s.len() ==> s[i] == 0 {
            assert(forall|i: int| 0 <= i < s.drop_last().len() ==> s.drop_last()[i] == 0);
        }
    }
}

pub proof fn lemma_be_val_bound(s: Seq<u8>)
    ensures
        be_val(s) < pow256(s.len()),
    decreases s.len(),
{
    if s.len() > 0 {
        lemma_be_val_bound(s.drop_last());
    }
}

/// Splitting a byte sequence splits its value.
pub proof fn lemma_be_val_concat(a: Seq<u8>, b: Seq<u8>)
    ensures
        be_val(a + b) == be_val(a) * pow256(b.len()) + be_val(b),
    decreases b.len(),
{
    if b.len() == 0 {
        assert(a + b =~= a);
        assert(pow256(b.len()) == 1);
        assert(be_val(b) == 0);
        assert(be_val(a) * 1 == be_val(a)) by (nonlinear_arith);
    } else {
        lemma_be_val_concat(a, b.drop_last());
        assert((a + b).drop_last() =~= a + b.drop_last());
        assert((a + b).last() == b.last());
        assert(be_val(a + b) == be_val(a + b.drop_last()) * 256 + b.last());
        assert(be_val(a + b) == be_val(a) * pow256(b.len()) + be_val(b)) by (nonlinear_arith)
            requires
                b.len() >= 1,
                be_val(a + b) == be_val(a + b.drop_last()) * 256 + b.last(),
                be_val(a + b.drop_last()) == be_val(a) * pow256((b.len() - 1) as nat) + be_val(
                    b.drop_last(),
                ),
                be_val(b) == be_val(b.drop_last()) * 256 + b.last(),
                pow256(b.len()) == 256 * pow256((b.len() - 1) as nat),
        ;
    }
}

/// Reading back the big-endian encoding of `n` yields `n`.
pub proof fn lemma_be_val_be_bytes(n: nat, k: nat)
    requires
        n < pow256(k),
    ensures
        be_val(be_bytes(n, k)) == n,
    decreases k,
{
    if k == 0 {
    } else {
        assert(n / 256 < pow256((k - 1) as nat)) by (nonlinear_arith)
            requires
                n < pow256(k),
                pow256(k) == 256 * pow256((k - 1) as nat),
        ;
        lemma_be_val_be_bytes(n / 256, (k - 1) as nat);
        lemma_be_bytes_len(n / 256, (k - 1) as nat);
        let s = be_bytes(n, k);
        assert(s.drop_last() =~= be_bytes(n / 256, (k - 1) as nat));
        assert(be_val(s) == (n / 256) * 256 + n % 256);
        assert((n / 256) * 256 + n % 256 == n) by (nonlinear_arith);
    }
}

/// The value held by a 32-byte offset or length word.
pub proof fn lemma_word_of_val(n: nat)
    requires
        n < pow256(8),
    ensures
        word_of(n).len() == 32,
        be_val(word_of(n)) == n,
{
    lemma_be_bytes_len(n, 8);
    lemma_be_val_concat(zeros(24), be_bytes(n, 8));
    lemma_be_val_zero_iff(zeros(24));
    lemma_be_val_be_bytes(n, 8);
}

/// `n` zero bytes.
pub fn zeros_exec(n: usize) -> (r: Vec<u8>)
    ensures
        r@ == zeros(n as nat),
{
    let mut out: Vec<u8> = Vec::new();
    let mut i: usize = 0;
    while i < n
        invariant
            i <= n,
            out@ =~= zeros(i as nat),
        decreases n - i,
    {
        out.push(0u8);
        i = i + 1;
    }
    out
}

/// The `k` low-order bytes of `v`, big-endian.
pub fn be_bytes_exec(v: u128, k: usize) -> (r: Vec<u8>)
    ensures
        r@ == be_bytes(v as nat, k as nat),
{
    let mut rev: Vec<u8> = Vec::new();
    let mut rest: u128 = v;
    let mut j: usize = 0;
    while j < k
        invariant
            j <= k,
            rev@.len() == j as nat,
            be_bytes(v as nat, k as nat) =~= be_bytes(rest as nat, (k - j) as nat) + rev_of(rev@),
        decreases k - j,
    {
        let b: u8 = (rest % 256) as u8;
        proof {
            assert(rev_of(rev@.push(b)) =~= seq![b] + rev_of(rev@));
            assert(be_bytes(rest as nat, (k - j) as nat) =~= be_bytes((rest / 256) as nat, (k - j
                - 1) as nat) + seq![b]);
            assert(be_bytes((rest / 256) as nat, (k - j - 1) as nat) + seq![b] + rev_of(rev@)
                =~= be_bytes((rest / 256) as nat, (k - j - 1) as nat) + (seq![b] + rev_of(rev@)));
        }
        rev.push(b);
        rest = rest / 256;
        j = j + 1;
    }
    let mut out: Vec<u8> = Vec::new();
    proof {
        assert(be_bytes(v as nat, k as nat) =~= out@ + rev_of(rev@));
    }
    while rev.len() > 0
        invariant
            be_bytes(v as nat, k as nat) =~= out@ + rev_of(rev@),
        decreases rev.len(),
    {
        proof {
            assert(rev_of(rev@) =~= seq![rev@.last()] + rev_of(rev@.drop_last()));
        }
        let b: u8 = rev.pop().unwrap();
        out.push(b);
        proof {
            assert(out@ + rev_of(rev@) =~= out@.drop_last() + (seq![b] + rev_of(rev@)));
        }
    }
    proof {
        assert(be_bytes(v as nat, k as nat) =~= out@);
    }
    out
}

/// The big-endian value of at most 16 bytes.
pub fn be_val_exec(s: &[u8]) -> (r: u128)
    requires
        s@.len() <= 16,
    ensures
        r as nat == be_val(s@),
{
    let mut acc: u128 = 0;
    let mut i: usize = 0;
    while i < s.len()
        invariant
            i <= s@.len() <= 16,
            acc as nat == be_val(s@.subrange(0, i as int)),
            acc < pow256(i as nat),
        decreases s@.len() - i,
    {
        proof {
            assert(pow256((i + 1) as nat) <= pow256(16)) by {
                lemma_pow256_mono((i + 1) as nat, 16);
            }
            assert(pow256(16) == 0x100000000000000000000000000000000) by {
                reveal_with_fuel(pow256, 17);
            }
            assert(s@.subrange(0, i + 1).drop_last() =~= s@.subrange(0, i as int));
        }
        let b: u8 = *vstd::slice::slice_index_get(s, i);
        acc = acc * 256 + (b as u128);
        i = i + 1;
    }
    proof {
        assert(s@.subrange(0, s@.len() as int) =~= s@);
    }
    acc
}

/// The value of a 32-byte word as a machine-word integer, or `None` when it
/// does not fit.
pub fn word_to_usize(s: &[u8]) -> (r: Option<usize>)
    requires
        s@.len() == 32,
    ensures
        match r {
            Some(u) => u as nat == be_val(s@),
            None => be_val(s@) > usize::MAX,
        },
{
    let mut i: usize = 0;
    while i < 24
        invariant
            i <= 24,
            s@.len() == 32,
            forall|t: int| 0 <= t < i ==> s@[t] == 0,
        decreases 24 - i,
    {
        if *vstd::slice::slice_index_get(s, i) != 0 {
            proof {
                assert(s@ =~= s@.subrange(0, 24) + s@.subrange(24, 32));
                lemma_be_val_concat(s@.subrange(0, 24), s@.subrange(24, 32));
                assert(pow256(8) == 0x10000000000000000) by {
                    reveal_with_fuel(pow256, 9);
                }
                assert(be_val(s@.subrange(0, 24)) >= 1) by {
                    lemma_be_val_zero_iff(s@.subrange(0, 24));
                    assert(s@.subrange(0, 24)[i as int] != 0);
                }
                assert(be_val(s@) >= pow256(8)) by (nonlinear_arith)
                    requires
                        be_val(s@) == be_val(s@.subrange(0, 24)) * pow256(8) + be_val(
                            s@.subrange(24, 32),
                        ),
                        be_val(s@.subrange(0, 24)) >= 1,
                        be_val(s@.subrange(24, 32)) >= 0,
                        pow256(8) >= 0,
                ;
            }
            return None;
        }
        i = i + 1;
    }
    let low: u128 = be_val_exec(vstd::slice::slice_subrange(s, 24, 32));
    proof {
        assert(s@ =~= s@.subrange(0, 24) + s@.subrange(24, 32));
        lemma_be_val_concat(s@.subrange(0, 24), s@.subrange(24, 32));
        lemma_be_val_zero_iff(s@.subrange(0, 24));
        assert(be_val(s@.subrange(0, 24)) == 0);
        assert(be_val(s@.subrange(0, 24)) * pow256(8) == 0) by (nonlinear_arith)
            requires
                be_val(s@.subrange(0, 24)) == 0,
        ;
        assert(be_val(s@) == be_val(s@.subrange(24, 32)));
    }
    if low <= usize::MAX as u128 {
        Some(low as usize)
    } else {
        None
    }
}

} // verus!
