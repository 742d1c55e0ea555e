//! Values that a store keeps as a run of bytes of fixed length.
use crate::le::{
    le_bytes, le_value, lemma_bytes_of_value, lemma_le_bytes_len, lemma_radix_words,
    lemma_value_of_bytes, put, splice, u64_from_le, u64_to_le,
};
use crate::pubkey::{lemma_pubkey_determined, Pubkey};
use vstd::layout::size_of;
use vstd::prelude::*;
use vstd::slice::slice_subrange;

verus! {

/// A type whose values take the same number of bytes each.
pub trait Storable: Sized {
    /// The number of bytes of a stored value.
    spec fn stored_size() -> nat;

    /// The bytes of a stored value.
    spec fn stored(&self) -> Seq<u8>;

    /// Whether `bytes` are the bytes of a value.
    spec fn is_stored(bytes: Seq<u8>) -> bool;

    /// What is stored has the type's size and can be loaded.
    proof fn stored_is_stored(v: Self)
        ensures
            v.stored().len() == Self::stored_size(),
            Self::is_stored(v.stored()),
    ;

    /// The bytes determine the value.
    proof fn stored_determines(a: Self, b: Self)
        requires
            a.stored() == b.stored(),
        ensures
            a == b,
    ;

    /// The number of bytes of a stored value.
    fn size() -> (r: usize)
        ensures
            r == Self::stored_size(),
    ;

    /// The bytes of a stored value.
    fn store(&self) -> (r: Vec<u8>)
        ensures
            r@ == self.stored(),
    ;

    /// Whether `bytes` are the bytes of a value.
    fn can_load(bytes: &[u8]) -> (r: bool)
        ensures
            r == Self::is_stored(bytes@),
    ;

    /// The value whose bytes these are.
    fn load(bytes: &[u8]) -> (r: Self)
        requires
            Self::is_stored(bytes@),
        ensures
            r.stored() == bytes@,
    ;
}

impl Storable for u64 {
    open spec fn stored_size() -> nat {
        8
    }

    open spec fn stored(&self) -> Seq<u8> {
        le_bytes(*self as nat, 8)
    }

    open spec fn is_stored(bytes: Seq<u8>) -> bool {
        bytes.len() == 8
    }

    proof fn stored_is_stored(v: Self) {
        lemma_le_bytes_len(v as nat, 8);
    }

    proof fn stored_determines(a: Self, b: Self) {
        lemma_radix_words();
        lemma_value_of_bytes(a as nat, 8);
        lemma_value_of_bytes(b as nat, 8);
    }

    fn size() -> (r: usize) {
        8
    }

    fn store(&self) -> (r: Vec<u8>) {
        u64_to_le(*self)
    }

    fn can_load(bytes: &[u8]) -> (r: bool) {
        bytes.len() == 8
    }

    fn load(bytes: &[u8]) -> (r: Self) {
        proof {
            lemma_bytes_of_value(bytes@);
        }
        u64_from_le(bytes)
    }
}

impl Storable for bool {
    open spec fn stored_size() -> nat {
        1
    }

    open spec fn stored(&self) -> Seq<u8> {
        seq![if *self { 1u8 } else { 0u8 }]
    }

    open spec fn is_stored(bytes: Seq<u8>) -> bool {
        bytes.len() == 1 && bytes[0] <= 1
    }

    proof fn stored_is_stored(v: Self) {
    }

    proof fn stored_determines(a: Self, b: Self) {
        assert(a.stored()[0] == if a { 1u8 } else { 0u8 });
        assert(b.stored()[0] == if b { 1u8 } else { 0u8 });
    }

    fn size() -> (r: usize) {
        1
    }

    fn store(&self) -> (r: Vec<u8>) {
        let byte: u8 = if *self {
            1
        } else {
            0
        };
        vec![byte]
    }

    fn can_load(bytes: &[u8]) -> (r: bool) {
        bytes.len() == 1 && bytes[0] <= 1
    }

    fn load(bytes: &[u8]) -> (r: Self) {
        let r = bytes[0] == 1;
        proof {
            assert(r.stored() =~= bytes@);
        }
        r
    }
}

impl Storable for Pubkey {
    open spec fn stored_size() -> nat {
        32
    }

    open spec fn stored(&self) -> Seq<u8> {
        self@
    }

    open spec fn is_stored(bytes: Seq<u8>) -> bool {
        bytes.len() == 32
    }

    proof fn stored_is_stored(v: Self) {
    }

    proof fn stored_determines(a: Self, b: Self) {
        lemma_pubkey_determined(a, b);
    }

    fn size() -> (r: usize) {
        32
    }

    fn store(&self) -> (r: Vec<u8>) {
        let mut r: Vec<u8> = Vec::new();
        let mut i: usize = 0;
        while i < 32
            invariant
                i <= 32,
                r@ == self@.subrange(0, i as int),
            decreases 32 - i,
        {
            r.push(self.bytes[i]);
            i += 1;
            proof {
                assert(r@ =~= self@.subrange(0, i as int));
            }
        }
        proof {
            assert(self@.subrange(0, 32) =~= self@);
        }
        r
    }

    fn can_load(bytes: &[u8]) -> (r: bool) {
        bytes.len() == 32
    }

    fn load(bytes: &[u8]) -> (r: Self) {
        Pubkey::new(bytes)
    }
}

impl Storable for [u64; 32] {
    open spec fn stored_size() -> nat {
        256
    }

    open spec fn stored(&self) -> Seq<u8> {
        words_bytes(self@)
    }

    open spec fn is_stored(bytes: Seq<u8>) -> bool {
        bytes.len() == 256
    }

    proof fn stored_is_stored(v: Self) {
        lemma_words_bytes(v@);
    }

    proof fn stored_determines(a: Self, b: Self) {
        lemma_radix_words();
        lemma_words_bytes(a@);
        lemma_words_bytes(b@);
        assert forall|i: int| 0 <= i < 32 implies a[i] == b[i] by {
            lemma_value_of_bytes(a@[i] as nat, 8);
            lemma_value_of_bytes(b@[i] as nat, 8);
            assert(words_bytes(a@).subrange(8 * i, 8 * i + 8) == le_bytes(a@[i] as nat, 8));
            assert(words_bytes(b@).subrange(8 * i, 8 * i + 8) == le_bytes(b@[i] as nat, 8));
        }
        assert(a =~= b);
    }

    fn size() -> (r: usize) {
        256
    }

    fn store(&self) -> (r: Vec<u8>) {
        let mut r: Vec<u8> = Vec::new();
        let mut i: usize = 0;
        while i < 32
            invariant
                i <= 32,
                r@ == words_bytes(self@.subrange(0, i as int)),
            decreases 32 - i,
        {
            let mut word = u64_to_le(self[i]);
            proof {
                let longer = self@.subrange(0, i + 1);
                assert(longer.drop_last() =~= self@.subrange(0, i as int));
                assert(longer.last() == self@[i as int]);
            }
            r.append(&mut word);
            i += 1;
        }
        proof {
            assert(self@.subrange(0, 32) =~= self@);
        }
        r
    }

    fn can_load(bytes: &[u8]) -> (r: bool) {
        bytes.len() == 256
    }

    fn load(bytes: &[u8]) -> (r: Self) {
        let mut r: [u64; 32] = [0u64; 32];
        let mut i: usize = 0;
        while i < 32
            invariant
                i <= 32,
                bytes@.len() == 256,
                forall|j: int|
                    0 <= j < i ==> #[trigger] r@[j] == le_value(
                        bytes@.subrange(8 * j, 8 * j + 8),
                    ),
            decreases 32 - i,
        {
            r[i] = u64_from_le(slice_subrange(bytes, 8 * i, 8 * i + 8));
            i += 1;
        }
        proof {
            lemma_words_of_bytes(r@, bytes@);
        }
        r
    }
}

/// The bytes of each word in turn.
pub open spec fn words_bytes(words: Seq<u64>) -> Seq<u8>
    decreases words.len(),
{
    if words.len() == 0 {
        Seq::empty()
    } else {
        words_bytes(words.drop_last()) + le_bytes(words.last() as nat, 8)
    }
}

pub(crate) proof fn lemma_words_bytes(words: Seq<u64>)
    ensures
        words_bytes(words).len() == 8 * words.len(),
        forall|i: int|
            0 <= i < words.len() ==> #[trigger] words_bytes(words).subrange(8 * i, 8 * i + 8)
                == le_bytes(words[i] as nat, 8),
    decreases words.len(),
{
    if words.len() > 0 {
        let front = words.drop_last();
        lemma_words_bytes(front);
        lemma_le_bytes_len(words.last() as nat, 8);
        assert forall|i: int| 0 <= i < words.len() implies #[trigger] words_bytes(words).subrange(
            8 * i,
            8 * i + 8,
        ) == le_bytes(words[i] as nat, 8) by {
            if i < front.len() {
                assert(words_bytes(words).subrange(8 * i, 8 * i + 8) =~= words_bytes(
                    front,
                ).subrange(8 * i, 8 * i + 8));
            } else {
                assert(words_bytes(words).subrange(8 * i, 8 * i + 8) =~= le_bytes(
                    words[i] as nat,
                    8,
                ));
            }
        }
    }
}

proof fn lemma_words_of_bytes(words: Seq<u64>, bytes: Seq<u8>)
    requires
        bytes.len() == 8 * words.len(),
        forall|i: int|
            0 <= i < words.len() ==> #[trigger] words[i] == le_value(
                bytes.subrange(8 * i, 8 * i + 8),
            ),
    ensures
        words_bytes(words) == bytes,
    decreases words.len(),
{
    if words.len() > 0 {
        let front = words.drop_last();
        let cut = 8 * front.len() as int;
        let head = bytes.subrange(0, cut);
        assert forall|i: int| 0 <= i < front.len() implies #[trigger] front[i] == le_value(
            head.subrange(8 * i, 8 * i + 8),
        ) by {
            assert(front[i] == words[i]);
            assert(head.subrange(8 * i, 8 * i + 8) =~= bytes.subrange(8 * i, 8 * i + 8));
        }
        lemma_words_of_bytes(front, head);
        let tail = bytes.subrange(cut, cut + 8);
        assert(words.last() == le_value(tail));
        lemma_bytes_of_value(tail);
        assert(bytes =~= head + tail);
    } else {
        assert(words_bytes(words) =~= bytes);
    }
}

/// Writes `value` into `dst_slice` at `at`, and moves `at` behind it.
pub fn write_object<X: Storable>(at: &mut usize, dst_slice: &mut [u8], value: X)
    requires
        *old(at) + X::stored_size() <= old(dst_slice)@.len(),
    ensures
        *final(at) == *old(at) + X::stored_size(),
        final(dst_slice)@ == splice(old(dst_slice)@, *old(at) as int, value.stored()),
{
    let bytes = value.store();
    proof {
        assert(dst_slice.len() <= usize::MAX);
        X::stored_is_stored(value);
    }
    put(dst_slice, *at, bytes.as_slice());
    *at = *at + X::size();
}

/// Stored words and flags take the bytes that they take in memory.
pub proof fn law_words_and_flags_take_their_size_in_memory()
    ensures
        u64::stored_size() == size_of::<u64>(),
        bool::stored_size() == size_of::<bool>(),
{
    broadcast use vstd::layout::layout_of_primitives;

}

} // verus!
