use vstd::prelude::*;
use vstd::arithmetic::div_mod::{lemma_mod_breakdown, lemma_small_mod};

verus! {

/// Two to the power 128: the weight of the high half of a word.
pub open spec fn half_base() -> nat {
    0x1_0000_0000_0000_0000_0000_0000_0000_0000nat
}

/// Two to the power 256: one more than the largest word.
pub open spec fn word_base() -> nat {
    half_base() * half_base()
}

/// The number of bytes in the big-endian encoding of a word.
pub const WORD_BYTES: usize = 32;

/// The number of bytes in the big-endian encoding of one half of a word.
pub const HALF_BYTES: usize = 16;

/// 256 to the power `n`.
pub open spec fn pow256(n: nat) -> nat
    decreases n,
{
    if n == 0 {
        1
    } else {
        256 * pow256((n - 1) as nat)
    }
}

/// The number that a byte string stands for, most significant byte first.
pub open spec fn be_value(s: Seq<u8>) -> nat
    decreases s.len(),
{
    if s.len() == 0 {
        0
    } else {
        be_value(s.drop_last()) * 256 + s.last() as nat
    }
}

pub proof fn lemma_pow256_positive(n: nat)
    ensures
        pow256(n) > 0,
    decreases n,
{
    if n > 0 {
        lemma_pow256_positive((n - 1) as nat);
    }
}

pub proof fn lemma_pow256_half()
    ensures
        pow256(16) == half_base(),
{
    reveal_with_fuel(pow256, 17);
}

/// A byte string of length `n` stands for a number below `256^n`.
pub proof fn lemma_be_value_bound(s: Seq<u8>)
    ensures
        be_value(s) < pow256(s.len()),
    decreases s.len(),
{
    if s.len() > 0 {
        let p = s.drop_last();
        lemma_be_value_bound(p);
        let a = be_value(p);
        let q = pow256(p.len());
        let b = s.last() as nat;
        assert(a * 256 + b < q * 256) by (nonlinear_arith)
            requires
                a < q,
                b < 256,
        ;
    }
}

/// Reading a concatenation big-endian: the front is shifted past the back.
pub proof fn lemma_be_value_concat(a: Seq<u8>, b: Seq<u8>)
    ensures
        be_value(a + b) == be_value(a) * pow256(b.len()) + be_value(b),
    decreases b.len(),
{
    if b.len() == 0 {
        assert(a + b =~= a);
        assert(pow256(0) == 1);
        assert(be_value(b) == 0);
    } else {
        let bp = b.drop_last();
        assert((a + b).drop_last() =~= a + bp);
        assert((a + b).last() == b.last());
        lemma_be_value_concat(a, bp);
        let x = be_value(a);
        let p = pow256(bp.len());
        let y = be_value(bp);
        let z = (a + b).last() as nat;
        assert(be_value(a + b) == be_value(a + bp) * 256 + z);
        assert(be_value(b) == y * 256 + z);
        assert(pow256(b.len()) == 256 * p);
        assert((x * p + y) * 256 == x * (256 * p) + y * 256) by (nonlinear_arith);
        assert(be_value(a + b) == x * pow256(b.len()) + be_value(b));
    }
}

pub proof fn lemma_pow256_mono(m: nat, n: nat)
    requires
        m <= n,
    ensures
        pow256(m) <= pow256(n),
    decreases n - m,
{
    if m < n {
        lemma_pow256_mono(m, (n - 1) as nat);
        lemma_pow256_positive((n - 1) as nat);
    }
}

/// The last `n` bytes of `x`, most significant first.
pub open spec fn be_bytes(x: nat, n: nat) -> Seq<u8>
    decreases n,
{
    if n == 0 {
        Seq::empty()
    } else {
        be_bytes(x / 256, (n - 1) as nat).push((x % 256) as u8)
    }
}

/// Reading back the last `n` bytes of `x` gives `x` modulo `256^n`.
pub proof fn lemma_be_bytes_value(x: nat, n: nat)
    ensures
        be_bytes(x, n).len() == n,
        be_value(be_bytes(x, n)) == x % pow256(n),
    decreases n,
{
    if n == 0 {
        assert(x % 1 == 0) by (nonlinear_arith);
    } else {
        let m = (n - 1) as nat;
        lemma_be_bytes_value(x / 256, m);
        lemma_pow256_positive(m);
        lemma_mod_breakdown(x as int, 256, pow256(m) as int);
        let s = be_bytes(x, n);
        assert(s.drop_last() =~= be_bytes(x / 256, m));
        assert(((x % 256) as u8) as nat == x % 256);
    }
}

/// Appends the last `n` bytes of `x` to `out`, most significant first.
fn push_be_bytes(x: u128, n: usize, out: &mut Vec<u8>)
    ensures
        final(out)@ == old(out)@ + be_bytes(x as nat, n as nat),
    decreases n,
{
    if n > 0 {
        push_be_bytes(x / 256, n - 1, out);
        out.push((x % 256) as u8);
        assert(final(out)@ =~= old(out)@ + be_bytes(x as nat, n as nat));
    } else {
        assert(out@ =~= old(out)@ + be_bytes(x as nat, n as nat));
    }
}

/// Reads sixteen bytes of `b` from `start` on, most significant first.
fn read_half(b: &[u8], start: usize) -> (r: u128)
    requires
        start + HALF_BYTES <= b@.len(),
    ensures
        r as nat == be_value(b@.subrange(start as int, start + HALF_BYTES)),
{
    let mut acc: u128 = 0;
    let mut i: usize = 0;
    while i < HALF_BYTES
        invariant
            start + HALF_BYTES <= b@.len(),
            i <= HALF_BYTES,
            acc as nat == be_value(b@.subrange(start as int, start + i)),
        decreases HALF_BYTES - i,
    {
        let ghost next = b@.subrange(start as int, start + i + 1);
        proof {
            assert(next.drop_last() =~= b@.subrange(start as int, start + i));
            lemma_be_value_bound(next);
            lemma_pow256_mono((i + 1) as nat, 16);
            lemma_pow256_half();
            assert(next.last() == b@[start + i]);
            assert(be_value(next) == acc as nat * 256 + b@[start + i] as nat);
            assert(next.len() == i + 1);
            assert(be_value(next) < pow256(16));
            assert(acc as nat * 256 + b@[start + i] as nat <= u128::MAX);
        }
        assert(b@.len() == b.len());
        let k: usize = start + i;
        acc = acc * 256 + b[k] as u128;
        i = i + 1;
    }
    acc
}

/// A 256-bit unsigned integer, held as two 128-bit halves.
#[derive(Clone, Copy, Debug, PartialEq, Eq, Structural)]
pub struct Word {
    pub hi: u128,
    pub lo: u128,
}

impl Word {
    /// The number this word stands for.
    pub open spec fn value(self) -> nat {
        self.hi as nat * half_base() + self.lo as nat
    }

    pub fn zero() -> (r: Word)
        ensures
            r.value() == 0,
    {
        Word { hi: 0, lo: 0 }
    }

    pub fn from_u128(x: u128) -> (r: Word)
        ensures
            r.value() == x,
    {
        Word { hi: 0, lo: x }
    }

    /// Reads a word from exactly thirty-two bytes, most significant first.
    pub fn from_be_bytes(b: &[u8]) -> (r: Option<Word>)
        ensures
            r is Some <==> b@.len() == WORD_BYTES,
            r matches Some(w) ==> w.value() == be_value(b@),
    {
        if b.len() != WORD_BYTES {
            return None;
        }
        let hi = read_half(b, 0);
        let lo = read_half(b, HALF_BYTES);
        proof {
            let front = b@.subrange(0, 16);
            let back = b@.subrange(16, 32);
            assert(b@ =~= front + back);
            lemma_be_value_concat(front, back);
            lemma_pow256_half();
        }
        Some(Word { hi, lo })
    }

    /// The thirty-two bytes of this word, most significant first.
    pub fn to_be_bytes(&self) -> (r: Vec<u8>)
        ensures
            r@.len() == WORD_BYTES,
            be_value(r@) == self.value(),
    {
        let mut out: Vec<u8> = Vec::new();
        push_be_bytes(self.hi, HALF_BYTES, &mut out);
        push_be_bytes(self.lo, HALF_BYTES, &mut out);
        proof {
            let front = be_bytes(self.hi as nat, 16);
            let back = be_bytes(self.lo as nat, 16);
            assert(out@ =~= front + back);
            lemma_be_bytes_value(self.hi as nat, 16);
            lemma_be_bytes_value(self.lo as nat, 16);
            lemma_pow256_half();
            lemma_small_mod(self.hi as nat, half_base());
            lemma_small_mod(self.lo as nat, half_base());
            lemma_be_value_concat(front, back);
        }
        out
    }

    /// One more than this word, wrapping to zero past the largest word.
    pub fn wrapping_inc(self) -> (r: Word)
        ensures
            r.value() == (self.value() + 1) % word_base(),
    {
        proof {
            lemma_value_bound(self);
        }
        if self.lo < u128::MAX {
            let r = Word { hi: self.hi, lo: self.lo + 1 };
            proof {
                lemma_value_bound(r);
                lemma_small_mod(r.value(), word_base());
            }
            r
        } else if self.hi < u128::MAX {
            let r = Word { hi: self.hi + 1, lo: 0 };
            proof {
                lemma_value_bound(r);
                lemma_small_mod(r.value(), word_base());
            }
            r
        } else {
            assert(self.value() + 1 == word_base());
            assert(word_base() % word_base() == 0) by (nonlinear_arith)
                requires
                    word_base() > 0,
            ;
            Word { hi: 0, lo: 0 }
        }
    }
}

/// Every word is below `2^256`.
pub proof fn lemma_value_bound(w: Word)
    ensures
        w.value() < word_base(),
{
    let h = w.hi as nat;
    let l = w.lo as nat;
    let b = half_base();
    assert(h * b + l < b * b) by (nonlinear_arith)
        requires
            h < b,
            l < b,
    ;
}

/// Two words that stand for the same number are the same word.
pub proof fn lemma_value_injective(a: Word, b: Word)
    requires
        a.value() == b.value(),
    ensures
        a == b,
{
    let hb = half_base();
    let (ah, al, bh, bl) = (a.hi as int, a.lo as int, b.hi as int, b.lo as int);
    assert(ah == bh) by (nonlinear_arith)
        requires
            ah * hb + al == bh * hb + bl,
            0 <= al < hb,
            0 <= bl < hb,
            0 <= ah,
            0 <= bh,
    ;
}

} // verus!
