//! Little-endian numbers, and writing a run of bytes into a buffer.
use vstd::prelude::*;

verus! {

/// The number of values that `n` bytes can hold.
pub open spec fn radix(n: nat) -> nat
    decreases n,
{
    if n == 0 {
        1
    } else {
        256 * radix((n - 1) as nat)
    }
}

/// The number that `s` stands for, least significant byte first.
pub open spec fn le_value(s: Seq<u8>) -> nat
    decreases s.len(),
{
    if s.len() == 0 {
        0
    } else {
        s[0] as nat + 256 * le_value(s.drop_first())
    }
}

/// The `n` low bytes of `v`, least significant byte first.
pub open spec fn le_bytes(v: nat, n: nat) -> Seq<u8>
    decreases n,
{
    if n == 0 {
        Seq::empty()
    } else {
        seq![(v % 256) as u8] + le_bytes(v / 256, (n - 1) as nat)
    }
}

/// `s` with the bytes from `at` on replaced by `b`.
pub open spec fn splice(s: Seq<u8>, at: int, b: Seq<u8>) -> Seq<u8> {
    s.subrange(0, at) + b + s.subrange(at + b.len(), s.len() as int)
}

/// Eight bytes hold exactly the values of a `u64`, four those of a `u32`.
pub proof fn lemma_radix_words()
    ensures
        radix(4) == u32::MAX + 1,
        radix(8) == u64::MAX + 1,
{
    reveal_with_fuel(radix, 9);
}

pub proof fn lemma_le_bytes_len(v: nat, n: nat)
    ensures
        le_bytes(v, n).len() == n,
    decreases n,
{
    if n > 0 {
        lemma_le_bytes_len(v / 256, (n - 1) as nat);
    }
}

/// A run of bytes stands for a number below the radix of its length.
pub proof fn lemma_le_value_bound(s: Seq<u8>)
    ensures
        le_value(s) < radix(s.len()),
    decreases s.len(),
{
    if s.len() > 0 {
        lemma_le_value_bound(s.drop_first());
    }
}

/// Reading back the bytes of a number that fits gives the number.
pub proof fn lemma_value_of_bytes(v: nat, n: nat)
    requires
        v < radix(n),
    ensures
        le_value(le_bytes(v, n)) == v,
    decreases n,
{
    if n > 0 {
        let rest = le_bytes(v / 256, (n - 1) as nat);
        lemma_value_of_bytes(v / 256, (n - 1) as nat);
        assert(le_bytes(v, n).drop_first() =~= rest);
    }
}

/// The bytes of the number that a run of bytes stands for are that run.
pub proof fn lemma_bytes_of_value(s: Seq<u8>)
    ensures
        le_bytes(le_value(s), s.len()) == s,
    decreases s.len(),
{
    if s.len() > 0 {
        let rest = s.drop_first();
        lemma_bytes_of_value(rest);
        let v = le_value(s);
        assert(v == s[0] as nat + 256 * le_value(rest));
        assert(v % 256 == s[0] as nat && v / 256 == le_value(rest));
        assert(le_bytes(v, s.len()) =~= seq![s[0]] + rest);
        assert(s =~= seq![s[0]] + rest);
    } else {
        assert(le_bytes(le_value(s), 0) =~= s);
    }
}

/// The eight bytes of `v`.
pub fn u64_to_le(v: u64) -> (r: Vec<u8>)
    ensures
        r@ == le_bytes(v as nat, 8),
{
    let mut r: Vec<u8> = Vec::new();
    let mut rest: u64 = v;
    let mut i: usize = 0;
    while i < 8
        invariant
            i <= 8,
            r@ + le_bytes(rest as nat, (8 - i) as nat) == le_bytes(v as nat, 8),
        decreases 8 - i,
    {
        proof {
            let tail = le_bytes((rest / 256) as nat, (8 - i - 1) as nat);
            assert(le_bytes(rest as nat, (8 - i) as nat) == seq![(rest % 256) as u8] + tail);
            assert(r@ + (seq![(rest % 256) as u8] + tail) =~= r@.push((rest % 256) as u8) + tail);
        }
        r.push((rest % 256) as u8);
        rest = rest / 256;
        i += 1;
    }
    proof {
        assert(r@ + le_bytes(rest as nat, 0) =~= r@);
    }
    r
}

/// The number that eight bytes stand for.
pub fn u64_from_le(s: &[u8]) -> (v: u64)
    requires
        s@.len() == 8,
    ensures
        v == le_value(s@),
{
    let mut v: u64 = 0;
    let mut i: usize = 8;
    proof {
        lemma_radix_words();
    }
    while i > 0
        invariant
            i <= 8,
            s@.len() == 8,
            radix(8) == u64::MAX + 1,
            v == le_value(s@.subrange(i as int, 8)),
        decreases i,
    {
        i -= 1;
        proof {
            let tail = s@.subrange(i as int, 8);
            assert(tail.drop_first() =~= s@.subrange(i + 1, 8));
            lemma_le_value_bound(tail);
            lemma_radix_grows(tail.len(), 8);
        }
        v = s[i] as u64 + 256 * v;
    }
    proof {
        assert(s@.subrange(0, 8) =~= s@);
    }
    v
}

proof fn lemma_radix_grows(m: nat, n: nat)
    requires
        m <= n,
    ensures
        radix(m) <= radix(n),
    decreases n,
{
    if m < n {
        lemma_radix_grows(m, (n - 1) as nat);
    }
}

/// Writes `src` into `dst` from `at` on.
pub fn put(dst: &mut [u8], at: usize, src: &[u8])
    requires
        at + src@.len() <= old(dst)@.len(),
    ensures
        final(dst)@ == splice(old(dst)@, at as int, src@),
{
    proof {
        assert(dst.len() <= usize::MAX);
    }
    let mut i: usize = 0;
    while i < src.len()
        invariant
            i <= src@.len(),
            at + src@.len() <= old(dst)@.len() <= usize::MAX,
            dst@ == splice(old(dst)@, at as int, src@.subrange(0, i as int)),
        decreases src@.len() - i,
    {
        dst[at + i] = src[i];
        i += 1;
    }
    proof {
        assert(src@.subrange(0, i as int) =~= src@);
    }
}

} // verus!
