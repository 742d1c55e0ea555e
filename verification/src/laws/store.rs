//! Laws of the store and of the records that it keeps accounts in.
use crate::account::Account;
use crate::appendvec::{
    account_at, account_record, deserialize_account, get_serialized_size, is_account_at,
    serialize_account, serialized_size, AppendVec, AppendVecError, Growth,
};
use crate::laws::bytes::{lemma_bytes_are_word8, lemma_value_is_word8, word8};
use crate::le::splice;
use crate::mapped::{mapped_bytes, mapped_len};
use crate::storable::Storable;
use memmap::MmapMut;
use vstd::layout::size_of;
use vstd::prelude::*;

verus! {

/// Whether the record of an account, with `len` in its length word, stands at `at`: the length
/// word, the tokens, the userdata, the owner and the flag, one behind the other.
pub open spec fn record_stands_at(s: Seq<u8>, at: int, account: Account, len: int) -> bool {
    let n = account.userdata@.len();
    &&& 0 <= at
    &&& at + 49 + n <= s.len()
    &&& word8(s, at) == len
    &&& word8(s, at + 8) == account.tokens
    &&& forall|i: int| 0 <= i < n ==> #[trigger] account.userdata@[i] == s[at + 16 + i]
    &&& forall|i: int| 0 <= i < 32 ==> #[trigger] account.owner.bytes@[i] == s[at + 16 + n + i]
    &&& s[at + 48 + n] == if account.executable {
        1u8
    } else {
        0u8
    }
}

/// Whether two runs of bytes are the same outside `[at, end)`.
pub open spec fn same_outside(a: Seq<u8>, b: Seq<u8>, at: int, end: int) -> bool {
    &&& a.len() == b.len()
    &&& forall|i: int| 0 <= i < b.len() && !(at <= i < end) ==> #[trigger] a[i] == b[i]
}

/// Whether a record can be read at `index` of bytes of which those before `offset` are written: its
/// length word is there and counts at least 73 bytes, which end by `offset` behind the word; the
/// record itself is there; and its flag is 0 or 1.
pub open spec fn record_can_be_read(s: Seq<u8>, index: int, offset: int) -> bool {
    let n = word8(s, index) - 73;
    &&& 0 <= index
    &&& index + 8 <= s.len()
    &&& n >= 0
    &&& index + 81 + n <= offset
    &&& index + 49 + n <= s.len()
    &&& s[index + 48 + n] == 0 || s[index + 48 + n] == 1
}

/// Whether two accounts agree in everything.
pub open spec fn same_account(a: Account, b: Account) -> bool {
    &&& a.tokens == b.tokens
    &&& a.userdata@ == b.userdata@
    &&& a.owner.bytes@ == b.owner.bytes@
    &&& a.executable == b.executable
}

proof fn lemma_record_stands(dst: Seq<u8>, at: int, account: Account, len: nat)
    requires
        0 <= at,
        at + 49 + account.userdata@.len() <= dst.len(),
        len <= u64::MAX,
    ensures
        account_record(account@, len).len() == 49 + account.userdata@.len(),
        record_stands_at(
            splice(dst, at, account_record(account@, len)),
            at,
            account,
            len as int,
        ),
        same_outside(
            splice(dst, at, account_record(account@, len)),
            dst,
            at,
            at + 49 + account.userdata@.len(),
        ),
{
    let record = account_record(account@, len);
    let s = splice(dst, at, record);
    let n = account.userdata@.len();
    let len_word = crate::le::le_bytes(len, 8);
    let tokens_word = crate::le::le_bytes(account.tokens as nat, 8);
    lemma_bytes_are_word8(len as u64);
    lemma_bytes_are_word8(account.tokens);
    assert(forall|i: int| 0 <= i < 8 ==> #[trigger] s[at + i] == len_word[i]);
    assert(s[at] == len_word[0]);
    assert(s[at + 1] == len_word[1]);
    assert(s[at + 2] == len_word[2]);
    assert(s[at + 3] == len_word[3]);
    assert(s[at + 4] == len_word[4]);
    assert(s[at + 5] == len_word[5]);
    assert(s[at + 6] == len_word[6]);
    assert(s[at + 7] == len_word[7]);
    assert forall|i: int| 0 <= i < 8 implies #[trigger] tokens_word[i] == s[at + 8 + i] by {}
    assert(word8(s, at + 8) == word8(tokens_word, 0));
    assert forall|i: int| 0 <= i < n implies #[trigger] account.userdata@[i] == s[at + 16 + i] by {}
    assert forall|i: int| 0 <= i < 32 implies #[trigger] account.owner.bytes@[i] == s[at + 16 + n
        + i] by {
        assert(account@.owner[i] == s[at + 16 + n + i]);
    }
}

proof fn lemma_record_read(s: Seq<u8>, index: int, offset: int)
    ensures
        account_at(s, index, offset) is Some <==> record_can_be_read(s, index, offset),
{
    if 0 <= index && index + 8 <= s.len() {
        lemma_value_is_word8(s, index);
    }
}

proof fn lemma_account_read(s: Seq<u8>, index: int, offset: int, a: Account)
    requires
        account_at(s, index, offset) == Some(a@),
    ensures
        record_can_be_read(s, index, offset),
        record_stands_at(s, index, a, word8(s, index)),
        word8(s, index) == 73 + a.userdata@.len(),
{
    lemma_record_read(s, index, offset);
    lemma_value_is_word8(s, index);
    lemma_value_is_word8(s, index + 8);
    crate::le::lemma_le_value_bound(s.subrange(index + 8, index + 16));
    crate::le::lemma_radix_words();
    let n = word8(s, index) - 73;
    assert(a@.userdata == s.subrange(index + 16, index + 16 + n));
    assert(a@.owner == s.subrange(index + 16 + n, index + 48 + n));
    assert forall|i: int| 0 <= i < n implies #[trigger] a.userdata@[i] == s[index + 16 + i] by {
        assert(a@.userdata[i] == s[index + 16 + i]);
    }
    assert forall|i: int| 0 <= i < 32 implies #[trigger] a.owner.bytes@[i] == s[index + 16 + n
        + i] by {
        assert(a@.owner[i] == s[index + 16 + n + i]);
    }
}

/// `get_serialized_size` counts a word, two addresses, a flag and the userdata.
pub proof fn law_serialized_size_counts_the_fields(account: Account, r: usize)
    requires
        call_ensures(get_serialized_size, (&account,), r),
    ensures
        r == 8 + 32 + 1 + 32 + account.userdata@.len(),
{
}

/// `serialize_account` writes the record field by field and nothing else.
pub proof fn law_serialized_account_stands_field_by_field(
    dst_slice: &mut [u8],
    account: Account,
    len: usize,
)
    requires
        49 + account.userdata@.len() <= old(dst_slice)@.len(),
        call_ensures(serialize_account, (dst_slice, &account, len), ()),
    ensures
        record_stands_at(final(dst_slice)@, 0, account, len as int),
        same_outside(
            final(dst_slice)@,
            old(dst_slice)@,
            0,
            49 + account.userdata@.len() as int,
        ),
{
    lemma_record_stands(old(dst_slice)@, 0, account, len as nat);
}

/// `is_account_at` says exactly whether a record can be read, and `deserialize_account` then gives
/// the account whose fields stand there.
pub proof fn law_deserialized_account_is_what_stands_there(
    src_slice: &[u8],
    index: usize,
    current_offset: usize,
    is_there: bool,
    r: Result<Account, AppendVecError>,
)
    requires
        call_ensures(is_account_at, (src_slice, index, current_offset), is_there),
        is_there ==> call_ensures(deserialize_account, (src_slice, index, current_offset), r),
    ensures
        is_there <==> record_can_be_read(src_slice@, index as int, current_offset as int),
        is_there ==> {
            &&& r matches Ok(account)
            &&& record_stands_at(src_slice@, index as int, account, word8(src_slice@, index as int))
            &&& word8(src_slice@, index as int) == 73 + account.userdata@.len()
        },
{
    lemma_record_read(src_slice@, index as int, current_offset as int);
    if is_there {
        lemma_account_read(src_slice@, index as int, current_offset as int, r->Ok_0);
    }
}

/// What `serialize_account` writes is what `deserialize_account` then reads.
pub proof fn law_serialized_account_is_read_back(
    dst_slice: &mut [u8],
    account: Account,
    len: usize,
    current_offset: usize,
    r: Result<Account, AppendVecError>,
)
    requires
        49 + account.userdata@.len() <= old(dst_slice)@.len(),
        len == 73 + account.userdata@.len(),
        8 + len <= current_offset,
        call_ensures(serialize_account, (dst_slice, &account, len), ()),
        call_ensures(deserialize_account, (&*final(dst_slice), 0usize, current_offset), r),
    ensures
        r matches Ok(a) && same_account(a, account),
{
    let s = final(dst_slice)@;
    lemma_record_stands(old(dst_slice)@, 0, account, len as nat);
    lemma_account_read(s, 0, current_offset as int, r->Ok_0);
    let a = r->Ok_0;
    assert(a.userdata@ =~= account.userdata@);
    assert(a.owner.bytes@ =~= account.owner.bytes@);
}

/// The length of a map is the number of bytes that it holds.
pub proof fn law_length_of_a_map_counts_its_bytes(map: MmapMut, r: usize)
    requires
        call_ensures(mapped_len, (&map,), r),
    ensures
        r == mapped_bytes(map).len(),
{
}

/// A new store is empty, maps what it is given, and has the size and the increment that it is
/// given.
pub proof fn law_new_store_is_empty<T>(map: MmapMut, size: u64, inc: u64, r: AppendVec<T>)
    requires
        call_ensures(AppendVec::<T>::new, (map, size, inc), r),
    ensures
        r@.current_offset == 0,
        r@.bytes == mapped_bytes(map),
        r@.file_size == size,
        r@.inc_size == inc,
{
}

/// A reset sets the offset to zero and leaves everything else.
pub proof fn law_reset_sets_only_the_offset<T>(store: &mut AppendVec<T>)
    requires
        call_ensures(AppendVec::<T>::reset, (store,), ()),
    ensures
        final(store)@.current_offset == 0,
        final(store)@.bytes == old(store)@.bytes,
        final(store)@.file_size == old(store)@.file_size,
        final(store)@.inc_size == old(store)@.inc_size,
{
}

/// `append` appends exactly where the value fits before the end of the file: behind what is
/// written, where it says, with the bytes of the value and no others changed. Else it changes
/// nothing.
pub proof fn law_append_writes_behind_what_is_written<T: Storable>(
    store: &mut AppendVec<T>,
    val: T,
    r: Option<u64>,
)
    requires
        old(store)@.current_offset <= old(store)@.file_size < old(store)@.bytes.len(),
        call_ensures(AppendVec::<T>::append, (store, val), r),
    ensures
        r is Some <==> old(store)@.current_offset + T::stored_size() <= old(store)@.file_size,
        final(store)@.file_size == old(store)@.file_size,
        final(store)@.inc_size == old(store)@.inc_size,
        r matches Some(index) ==> {
            &&& index == old(store)@.current_offset
            &&& final(store)@.current_offset == index + T::stored_size()
            &&& same_outside(
                final(store)@.bytes,
                old(store)@.bytes,
                index as int,
                index + T::stored_size(),
            )
            &&& forall|i: int|
                0 <= i < T::stored_size() ==> #[trigger] val.stored()[i]
                    == final(store)@.bytes[index + i]
        },
        r is None ==> {
            &&& final(store)@.current_offset == old(store)@.current_offset
            &&& final(store)@.bytes == old(store)@.bytes
        },
{
    T::stored_is_stored(val);
}

/// What `append` appends is what `get` then gives there.
pub proof fn law_appended_value_is_read_back<T: Storable>(
    store: &mut AppendVec<T>,
    val: T,
    index: u64,
    found: T,
)
    requires
        call_ensures(AppendVec::<T>::append, (store, val), Some(index)),
        call_ensures(AppendVec::<T>::get, (&*final(store), index), found),
    ensures
        found == val,
{
    T::stored_determines(found, val);
}

/// What `get` gave before another value was appended it still gives.
pub proof fn law_append_leaves_earlier_values<T: Storable>(
    store: &mut AppendVec<T>,
    val: T,
    r: Option<u64>,
    index: u64,
    early: T,
    late: T,
)
    requires
        index + T::stored_size() <= old(store)@.current_offset,
        call_ensures(AppendVec::<T>::get, (&*old(store), index), early),
        call_ensures(AppendVec::<T>::append, (store, val), r),
        call_ensures(AppendVec::<T>::get, (&*final(store), index), late),
    ensures
        late == early,
{
    T::stored_determines(late, early);
}

/// `append_account` appends exactly where the record's bytes and 32 more fit before the end of the
/// file: behind what is written, where it says, with the record written field by field and no other
/// byte changed. Else it changes nothing.
pub proof fn law_append_account_writes_the_record<T>(
    store: &mut AppendVec<T>,
    account: Account,
    r: Option<u64>,
)
    requires
        old(store)@.current_offset <= old(store)@.file_size < old(store)@.bytes.len(),
        old(store)@.file_size <= u64::MAX,
        call_ensures(AppendVec::<T>::append_account, (store, &account), r),
    ensures
        r is Some <==> old(store)@.current_offset + 81 + account.userdata@.len()
            <= old(store)@.file_size,
        final(store)@.file_size == old(store)@.file_size,
        final(store)@.inc_size == old(store)@.inc_size,
        r matches Some(index) ==> {
            let n = account.userdata@.len();
            &&& index == old(store)@.current_offset
            &&& final(store)@.current_offset == index + 81 + n
            &&& record_stands_at(final(store)@.bytes, index as int, account, (73 + n) as int)
            &&& same_outside(
                final(store)@.bytes,
                old(store)@.bytes,
                index as int,
                index + 49 + n,
            )
        },
        r is None ==> {
            &&& final(store)@.current_offset == old(store)@.current_offset
            &&& final(store)@.bytes == old(store)@.bytes
        },
{
    if r is Some {
        lemma_record_stands(
            old(store)@.bytes,
            old(store)@.current_offset as int,
            account,
            serialized_size(account@),
        );
    }
}

/// What `append_account` appends is what `get_account` then gives there.
pub proof fn law_appended_account_is_read_back<T>(
    store: &mut AppendVec<T>,
    account: Account,
    index: u64,
    r: Result<Account, AppendVecError>,
)
    requires
        call_ensures(AppendVec::<T>::append_account, (store, &account), Some(index)),
        call_ensures(AppendVec::<T>::get_account, (&*final(store), index), r),
    ensures
        r matches Ok(found) && same_account(found, account),
{
    let found = r->Ok_0;
    assert(found@ == account@);
    assert(found.userdata@ == found@.userdata && found.owner.bytes@ == found@.owner);
    assert(account.userdata@ == account@.userdata && account.owner.bytes@ == account@.owner);
}

/// What `get_account` gave before another account was appended it still gives.
pub proof fn law_append_account_leaves_earlier_accounts<T>(
    store: &mut AppendVec<T>,
    account: Account,
    r: Option<u64>,
    index: u64,
    early: Result<Account, AppendVecError>,
    late: Result<Account, AppendVecError>,
)
    requires
        call_ensures(AppendVec::<T>::get_account, (&*old(store), index), early),
        call_ensures(AppendVec::<T>::append_account, (store, &account), r),
        call_ensures(AppendVec::<T>::get_account, (&*final(store), index), late),
    ensures
        early matches Ok(a) && late matches Ok(b) && same_account(a, b),
{
    let a = early->Ok_0;
    let b = late->Ok_0;
    assert(old(store)@.account(index as int) is Some);
    assert(a@ == b@);
    assert(a.userdata@ == a@.userdata && a.owner.bytes@ == a@.owner);
    assert(b.userdata@ == b@.userdata && b.owner.bytes@ == b@.owner);
}

/// `has_account` says exactly whether a record can be read there, and `get_account` then gives the
/// account whose fields stand there.
pub proof fn law_found_account_is_what_stands_there<T>(
    store: AppendVec<T>,
    index: u64,
    has: bool,
    r: Result<Account, AppendVecError>,
)
    requires
        call_ensures(AppendVec::<T>::has_account, (&store, index), has),
        has ==> call_ensures(AppendVec::<T>::get_account, (&store, index), r),
    ensures
        has <==> record_can_be_read(
            store@.bytes,
            index as int,
            store@.current_offset as int,
        ),
        has ==> {
            &&& r matches Ok(account)
            &&& record_stands_at(
                store@.bytes,
                index as int,
                account,
                73 + account.userdata@.len() as int,
            )
        },
{
    lemma_record_read(store@.bytes, index as int, store@.current_offset as int);
    if has {
        lemma_account_read(
            store@.bytes,
            index as int,
            store@.current_offset as int,
            r->Ok_0,
        );
    }
}

/// `get` gives the value whose bytes stand at the index, and `has_value` says exactly whether all
/// of them are written and make a value.
pub proof fn law_found_value_is_what_stands_there<T: Storable>(
    store: AppendVec<T>,
    index: u64,
    has: bool,
    found: T,
)
    requires
        store@.current_offset <= store@.bytes.len(),
        call_ensures(AppendVec::<T>::has_value, (&store, index), has),
        has ==> call_ensures(AppendVec::<T>::get, (&store, index), found),
    ensures
        has <==> {
            &&& index + T::stored_size() <= store@.current_offset
            &&& T::is_stored(store@.bytes.subrange(index as int, index + T::stored_size()))
        },
        has ==> forall|i: int|
            0 <= i < T::stored_size() ==> #[trigger] found.stored()[i] == store@.bytes[index + i],
{
}

/// `set` puts the bytes of the value in place and changes nothing else, and `get` then gives it.
pub proof fn law_set_replaces_the_value<T: Storable>(
    store: &mut AppendVec<T>,
    index: u64,
    val: T,
    found: T,
)
    requires
        index + T::stored_size() <= old(store)@.current_offset <= old(store)@.bytes.len(),
        call_ensures(AppendVec::<T>::set, (store, index, val), ()),
        call_ensures(AppendVec::<T>::get, (&*final(store), index), found),
    ensures
        found == val,
        final(store)@.current_offset == old(store)@.current_offset,
        final(store)@.file_size == old(store)@.file_size,
        final(store)@.inc_size == old(store)@.inc_size,
        same_outside(
            final(store)@.bytes,
            old(store)@.bytes,
            index as int,
            index + T::stored_size(),
        ),
{
    T::stored_is_stored(val);
    T::stored_determines(found, val);
}

/// `grow_file` is refused exactly without an increment, asks for nothing exactly where another
/// value and the increment would still leave bytes before the end of the file, and else asks for
/// the increment on top of the file's size. `can_grow` says whether these sums can be held.
pub proof fn law_growth_adds_the_increment<T>(
    store: AppendVec<T>,
    can: bool,
    r: Result<Growth, AppendVecError>,
)
    requires
        call_ensures(AppendVec::<T>::can_grow, (&store,), can),
        can ==> call_ensures(AppendVec::<T>::grow_file, (&store,), r),
    ensures
        ({
            let fixed = store@.inc_size == 0;
            let behind = store@.current_offset + size_of::<T>() + store@.inc_size;
            let end = store@.file_size + store@.inc_size;
            &&& can <==> fixed || behind <= u64::MAX && (behind < store@.file_size || end
                <= u64::MAX)
            &&& can ==> {
                &&& r is Err <==> fixed
                &&& r == Ok::<Growth, AppendVecError>(Growth::NotNeeded) <==> !fixed && behind
                    < store@.file_size
                &&& r matches Ok(Growth::Extend { end: e }) ==> e == end
            }
        }),
{
}

/// A store that goes on in another map has that map's bytes, the new size, and the offset and the
/// increment that it had.
pub proof fn law_remap_changes_bytes_and_size<T>(store: &mut AppendVec<T>, map: MmapMut, end: u64)
    requires
        call_ensures(AppendVec::<T>::remap, (store, map, end), ()),
    ensures
        final(store)@.bytes == mapped_bytes(map),
        final(store)@.file_size == end,
        final(store)@.current_offset == old(store)@.current_offset,
        final(store)@.inc_size == old(store)@.inc_size,
{
}

/// Whether what is written lies within the file, and the file within the map, with a byte to spare.
pub open spec fn lies_within_the_map<T>(store: AppendVec<T>) -> bool {
    &&& store@.current_offset <= store@.file_size < store@.bytes.len()
    &&& store@.file_size <= u64::MAX
    &&& store@.inc_size <= u64::MAX
}

/// A store takes every account, can always be reset and asked to grow where the sums can be held,
/// gives every account that can be read, and goes on in every map that is long enough where it has
/// to grow.
pub proof fn law_store_takes_what_it_can<T>(
    store: &mut AppendVec<T>,
    account: Account,
    index: u64,
    map: MmapMut,
    end: u64,
    size: u64,
    inc: u64,
)
    ensures
        size < mapped_bytes(map).len() ==> call_requires(AppendVec::<T>::new, (map, size, inc)),
        lies_within_the_map(*old(store)) ==> {
            &&& call_requires(AppendVec::<T>::reset, (store,))
            &&& call_requires(AppendVec::<T>::append_account, (store, &account))
            &&& call_requires(AppendVec::<T>::has_account, (&*old(store), index))
            &&& call_requires(AppendVec::<T>::can_grow, (&*old(store),))
        },
        lies_within_the_map(*old(store)) && record_can_be_read(
            old(store)@.bytes,
            index as int,
            old(store)@.current_offset as int,
        ) ==> call_requires(AppendVec::<T>::get_account, (&*old(store), index)),
        lies_within_the_map(*old(store)) && (old(store)@.inc_size == 0
            || old(store)@.current_offset + size_of::<T>() + old(store)@.inc_size <= u64::MAX && (
        old(store)@.current_offset + size_of::<T>() + old(store)@.inc_size < old(store)@.file_size
            || old(store)@.file_size + old(store)@.inc_size <= u64::MAX)) ==> call_requires(
            AppendVec::<T>::grow_file,
            (&*old(store),),
        ),
        lies_within_the_map(*old(store)) && old(store)@.inc_size > 0
            && old(store)@.current_offset + size_of::<T>() + old(store)@.inc_size
            >= old(store)@.file_size && end == old(store)@.file_size + old(store)@.inc_size && end
            < mapped_bytes(map).len() ==> call_requires(AppendVec::<T>::remap, (store, map, end)),
{
    lemma_record_read(
        old(store)@.bytes,
        index as int,
        old(store)@.current_offset as int,
    );
}

/// A store takes every value, and gives and replaces every value that is written.
pub proof fn law_store_takes_every_value<T: Storable>(
    store: &mut AppendVec<T>,
    val: T,
    index: u64,
)
    requires
        lies_within_the_map(*old(store)),
    ensures
        call_requires(AppendVec::<T>::append, (store, val)),
        call_requires(AppendVec::<T>::has_value, (&*old(store), index)),
        index + T::stored_size() <= old(store)@.current_offset ==> {
            &&& call_requires(AppendVec::<T>::set, (store, index, val))
            &&& T::is_stored(
                old(store)@.bytes.subrange(index as int, index + T::stored_size()),
            ) ==> call_requires(AppendVec::<T>::get, (&*old(store), index))
        },
{
}

/// Every record that can be read is read, and every record is written that fits.
pub proof fn law_records_are_taken_where_they_fit(
    src_slice: &[u8],
    index: usize,
    current_offset: usize,
    dst_slice: &mut [u8],
    account: Account,
    len: usize,
)
    ensures
        record_can_be_read(src_slice@, index as int, current_offset as int) ==> call_requires(
            deserialize_account,
            (src_slice, index, current_offset),
        ),
        49 + account.userdata@.len() <= old(dst_slice)@.len() ==> call_requires(
            serialize_account,
            (dst_slice, &account, len),
        ),
        73 + account.userdata@.len() <= usize::MAX ==> call_requires(
            get_serialized_size,
            (&account,),
        ),
{
    lemma_record_read(src_slice@, index as int, current_offset as int);
    if 49 + account.userdata@.len() <= old(dst_slice)@.len() {
        lemma_record_stands(old(dst_slice)@, 0, account, len as nat);
    }
}

} // verus!
