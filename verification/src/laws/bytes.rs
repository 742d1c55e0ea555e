//! Laws of words, addresses, signatures and of the values that a store keeps.
use crate::base58::base58_encoded;
use crate::le::{
    le_bytes, le_value, lemma_le_bytes_len, lemma_radix_words, lemma_value_of_bytes, put,
    u64_from_le, u64_to_le,
};
use crate::pubkey::{Pubkey, Signature};
use crate::storable::{lemma_words_bytes, write_object, Storable};
use crate::system_program;
use vstd::prelude::*;

verus! {

/// The number in the eight bytes at `at`, least significant byte first.
pub open spec fn word8(s: Seq<u8>, at: int) -> int {
    s[at] + 0x100 * s[at + 1] + 0x10000 * s[at + 2] + 0x1000000 * s[at + 3] + 0x100000000 * s[at
        + 4] + 0x10000000000 * s[at + 5] + 0x1000000000000 * s[at + 6] + 0x100000000000000 * s[at
        + 7]
}

/// The number in the four bytes at `at`, least significant byte first.
pub open spec fn word4(s: Seq<u8>, at: int) -> int {
    s[at] + 0x100 * s[at + 1] + 0x10000 * s[at + 2] + 0x1000000 * s[at + 3]
}

pub(crate) proof fn lemma_value_is_word8(s: Seq<u8>, at: int)
    requires
        0 <= at,
        at + 8 <= s.len(),
    ensures
        le_value(s.subrange(at, at + 8)) == word8(s, at),
{
    let t = s.subrange(at, at + 8);
    reveal_with_fuel(le_value, 9);
    assert(t.drop_first()[0] == s[at + 1]);
    assert(t.drop_first().drop_first()[0] == s[at + 2]);
    assert(t.drop_first().drop_first().drop_first()[0] == s[at + 3]);
    let u = t.drop_first().drop_first().drop_first().drop_first();
    assert(u[0] == s[at + 4]);
    assert(u.drop_first()[0] == s[at + 5]);
    assert(u.drop_first().drop_first()[0] == s[at + 6]);
    assert(u.drop_first().drop_first().drop_first()[0] == s[at + 7]);
}

pub(crate) proof fn lemma_value_is_word4(s: Seq<u8>, at: int)
    requires
        0 <= at,
        at + 4 <= s.len(),
    ensures
        le_value(s.subrange(at, at + 4)) == word4(s, at),
{
    let t = s.subrange(at, at + 4);
    reveal_with_fuel(le_value, 5);
    assert(t.drop_first()[0] == s[at + 1]);
    assert(t.drop_first().drop_first()[0] == s[at + 2]);
    assert(t.drop_first().drop_first().drop_first()[0] == s[at + 3]);
}

pub(crate) proof fn lemma_bytes_are_word8(v: u64)
    ensures
        le_bytes(v as nat, 8).len() == 8,
        word8(le_bytes(v as nat, 8), 0) == v,
{
    let s = le_bytes(v as nat, 8);
    lemma_radix_words();
    lemma_le_bytes_len(v as nat, 8);
    lemma_value_of_bytes(v as nat, 8);
    lemma_value_is_word8(s, 0);
    assert(s.subrange(0, 8) =~= s);
}

pub(crate) proof fn lemma_bytes_are_word4(v: u32)
    ensures
        le_bytes(v as nat, 4).len() == 4,
        word4(le_bytes(v as nat, 4), 0) == v,
{
    let s = le_bytes(v as nat, 4);
    lemma_radix_words();
    lemma_le_bytes_len(v as nat, 4);
    lemma_value_of_bytes(v as nat, 4);
    lemma_value_is_word4(s, 0);
    assert(s.subrange(0, 4) =~= s);
}

/// `u64_to_le` gives the eight bytes of a number, least significant first, and `u64_from_le` the
/// number that eight such bytes stand for.
pub proof fn law_words_are_little_endian(v: u64, r: Vec<u8>, s: &[u8], w: u64)
    requires
        call_ensures(u64_to_le, (v,), r),
        s@.len() == 8,
        call_ensures(u64_from_le, (s,), w),
    ensures
        r@.len() == 8,
        v == word8(r@, 0),
        w == word8(s@, 0),
{
    lemma_bytes_are_word8(v);
    lemma_value_is_word8(s@, 0);
    assert(s@.subrange(0, 8) =~= s@);
}

/// `put` replaces the bytes from `at` on by the given ones, and no others.
pub proof fn law_put_replaces_bytes(dst: &mut [u8], at: usize, src: &[u8])
    requires
        at + src@.len() <= old(dst)@.len(),
        call_ensures(put, (dst, at, src), ()),
    ensures
        final(dst)@.len() == old(dst)@.len(),
        forall|i: int|
            0 <= i < old(dst)@.len() ==> #[trigger] final(dst)@[i] == if at <= i < at + src@.len() {
                src@[i - at]
            } else {
                old(dst)@[i]
            },
{
}

/// `write_object` writes a value's bytes at `at` and moves `at` behind them.
pub proof fn law_objects_are_written_in_place<X: Storable>(
    at: &mut usize,
    dst_slice: &mut [u8],
    value: X,
)
    requires
        *old(at) + X::stored_size() <= old(dst_slice)@.len(),
        call_ensures(write_object::<X>, (at, dst_slice, value), ()),
    ensures
        *final(at) == *old(at) + X::stored_size(),
        final(dst_slice)@.len() == old(dst_slice)@.len(),
        forall|i: int|
            0 <= i < old(dst_slice)@.len() ==> #[trigger] final(dst_slice)@[i] == if *old(at) <= i
                < *final(at) {
                value.stored()[i - *old(at)]
            } else {
                old(dst_slice)@[i]
            },
{
    X::stored_is_stored(value);
}

/// A stored word is its eight bytes, least significant first; eight bytes are a word, and no other
/// number of bytes is.
pub proof fn law_stored_words(v: u64, r: Vec<u8>, bytes: &[u8], can: bool, w: u64, size: usize)
    requires
        call_ensures(<u64 as Storable>::store, (&v,), r),
        call_ensures(<u64 as Storable>::can_load, (bytes,), can),
        can ==> call_ensures(<u64 as Storable>::load, (bytes,), w),
        call_ensures(<u64 as Storable>::size, (), size),
    ensures
        r@.len() == 8,
        v == word8(r@, 0),
        v.stored() == r@,
        can <==> bytes@.len() == 8,
        can ==> w == word8(bytes@, 0),
        size == 8,
        u64::stored_size() == 8,
{
    lemma_bytes_are_word8(v);
    lemma_bytes_are_word8(w);
}

/// A stored flag is one byte, 1 where it is set and 0 where it is not.
pub proof fn law_stored_flags(v: bool, r: Vec<u8>, bytes: &[u8], can: bool, w: bool, size: usize)
    requires
        call_ensures(<bool as Storable>::store, (&v,), r),
        call_ensures(<bool as Storable>::can_load, (bytes,), can),
        can ==> call_ensures(<bool as Storable>::load, (bytes,), w),
        call_ensures(<bool as Storable>::size, (), size),
    ensures
        r@.len() == 1,
        v ==> r@[0] == 1,
        !v ==> r@[0] == 0,
        v.stored() == r@,
        can <==> bytes@.len() == 1 && (bytes@[0] == 0 || bytes@[0] == 1),
        can ==> (w <==> bytes@[0] == 1),
        size == 1,
        bool::stored_size() == 1,
{
    assert(w.stored()[0] == if w { 1u8 } else { 0u8 });
}

/// A stored address is its 32 bytes.
pub proof fn law_stored_addresses(
    v: Pubkey,
    r: Vec<u8>,
    bytes: &[u8],
    can: bool,
    w: Pubkey,
    size: usize,
)
    requires
        call_ensures(<Pubkey as Storable>::store, (&v,), r),
        call_ensures(<Pubkey as Storable>::can_load, (bytes,), can),
        can ==> call_ensures(<Pubkey as Storable>::load, (bytes,), w),
        call_ensures(<Pubkey as Storable>::size, (), size),
    ensures
        r@ == v.bytes@,
        v.stored() == v.bytes@,
        can <==> bytes@.len() == 32,
        can ==> w.bytes@ == bytes@,
        size == 32,
        Pubkey::stored_size() == 32,
{
}

/// A stored run of 32 words is the bytes of each word in turn.
pub proof fn law_stored_runs_of_words(
    v: [u64; 32],
    r: Vec<u8>,
    bytes: &[u8],
    can: bool,
    w: [u64; 32],
    size: usize,
)
    requires
        call_ensures(<[u64; 32] as Storable>::store, (&v,), r),
        call_ensures(<[u64; 32] as Storable>::can_load, (bytes,), can),
        can ==> call_ensures(<[u64; 32] as Storable>::load, (bytes,), w),
        call_ensures(<[u64; 32] as Storable>::size, (), size),
    ensures
        r@.len() == 256,
        v.stored() == r@,
        forall|i: int| 0 <= i < 32 ==> #[trigger] v@[i] == word8(r@, 8 * i),
        can <==> bytes@.len() == 256,
        can ==> forall|i: int| 0 <= i < 32 ==> #[trigger] w@[i] == word8(bytes@, 8 * i),
        size == 256,
        <[u64; 32] as Storable>::stored_size() == 256,
{
    lemma_run_of_words(v);
    lemma_run_of_words(w);
}

proof fn lemma_run_of_words(v: [u64; 32])
    ensures
        v.stored().len() == 256,
        forall|i: int| 0 <= i < 32 ==> #[trigger] v@[i] == word8(v.stored(), 8 * i),
{
    lemma_words_bytes(v@);
    assert forall|i: int| 0 <= i < 32 implies #[trigger] v@[i] == word8(v.stored(), 8 * i) by {
        lemma_bytes_are_word8(v@[i]);
        let part = v.stored().subrange(8 * i, 8 * i + 8);
        assert(part == le_bytes(v@[i] as nat, 8));
        assert(part[0] == v.stored()[8 * i]);
    }
}

/// An address is made of the 32 bytes that are given for it, and a signature of the 64. The
/// default address is all zeros, and so is the system program's.
pub proof fn law_addresses_and_signatures_are_their_bytes(
    bytes: &[u8],
    pubkey: Pubkey,
    signature_bytes: &[u8],
    signature: Signature,
    zero: Pubkey,
    id: Pubkey,
)
    requires
        bytes@.len() == 32,
        call_ensures(Pubkey::new, (bytes,), pubkey),
        signature_bytes@.len() == 64,
        call_ensures(Signature::new, (signature_bytes,), signature),
        call_ensures(<Pubkey as Default>::default, (), zero),
        call_ensures(system_program::id, (), id),
    ensures
        pubkey.bytes@ == bytes@,
        signature.bytes@ == signature_bytes@,
        forall|i: int| 0 <= i < 32 ==> #[trigger] zero.bytes@[i] == 0,
        forall|i: int| 0 <= i < 32 ==> #[trigger] id.bytes@[i] == 0,
{
}

/// Two addresses are the same exactly where each byte is, and an address is the system program's
/// exactly where each byte is zero.
pub proof fn law_addresses_are_compared_by_their_bytes(
    a: Pubkey,
    b: Pubkey,
    same: bool,
    is_system: bool,
)
    requires
        call_ensures(Pubkey::same, (&a, &b), same),
        call_ensures(system_program::check_id, (&a,), is_system),
    ensures
        same <==> forall|i: int| 0 <= i < 32 ==> #[trigger] a.bytes@[i] == b.bytes@[i],
        is_system <==> forall|i: int| 0 <= i < 32 ==> #[trigger] a.bytes@[i] == 0,
{
    if forall|i: int| 0 <= i < 32 ==> #[trigger] a.bytes@[i] == b.bytes@[i] {
        assert(a@ =~= b@);
    }
    if forall|i: int| 0 <= i < 32 ==> #[trigger] a.bytes@[i] == 0 {
        assert(a@ =~= system_program::system_id());
    }
    if is_system {
        assert forall|i: int| 0 <= i < 32 implies #[trigger] a.bytes@[i] == 0 by {
            assert(a@[i] == system_program::system_id()[i]);
        }
    }
    if same {
        assert forall|i: int| 0 <= i < 32 implies #[trigger] a.bytes@[i] == b.bytes@[i] by {
            assert(a@[i] == b@[i]);
        }
    }
}

/// The text of an address, a hash or a signature is that of all its bytes, so that no two of a kind
/// have the same text.
pub proof fn law_texts_are_those_of_the_bytes(
    pubkey: Pubkey,
    pubkey_text: String,
    hash: crate::pubkey::Hash,
    hash_text: String,
    signature: Signature,
    signature_text: String,
)
    requires
        call_ensures(Pubkey::to_string, (&pubkey,), pubkey_text),
        call_ensures(crate::pubkey::Hash::to_string, (&hash,), hash_text),
        call_ensures(Signature::to_string, (&signature,), signature_text),
    ensures
        pubkey_text@ == base58_encoded(pubkey.bytes@),
        hash_text@ == base58_encoded(hash.bytes@),
        signature_text@ == base58_encoded(signature.bytes@),
{
}

} // verus!
