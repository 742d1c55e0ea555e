//! A store that values are appended to, kept in a memory map.
//!
//! An account's record is its length word, its tokens, its userdata, its owner and its executable
//! flag. The length word holds `get_serialized_size`, and the record is given eight bytes more than
//! that, of which it fills all but the last 32.
use crate::account::{Account, AccountView};
use crate::le::{
    le_bytes, le_value, lemma_le_bytes_len, lemma_le_value_bound, lemma_radix_words,
    lemma_value_of_bytes, put, splice, u64_from_le,
};
use crate::mapped::{mapped, mapped_bytes, mapped_mut};
use crate::pubkey::Pubkey;
use crate::storable::{write_object, Storable};
use core::marker::PhantomData;
use memmap::MmapMut;
use vstd::layout::size_of;
use vstd::prelude::*;
use vstd::slice::slice_subrange;

verus! {

/// The number of bytes of a length word.
pub const SIZEOF_U64: usize = 8;

/// What `get_serialized_size` counts besides the userdata: a word, two addresses and a flag.
pub open spec fn account_size_static() -> nat {
    73
}

/// What an account's length word holds.
pub open spec fn serialized_size(account: AccountView) -> nat {
    account_size_static() + account.userdata.len()
}

/// An account's record, with `len` in its length word.
pub open spec fn account_record(account: AccountView, len: nat) -> Seq<u8> {
    le_bytes(len, 8) + le_bytes(account.tokens as nat, 8) + account.userdata + account.owner + seq![
        if account.executable {
            1u8
        } else {
            0u8
        },
    ]
}

/// The number in the eight bytes at `at`.
pub open spec fn word(src: Seq<u8>, at: int) -> nat {
    le_value(src.subrange(at, at + 8))
}

/// The account whose record starts at `index`, where only what lies before `offset` counts as
/// written. There is none if `src` is too short for the record, if the record is not given all of
/// its bytes before `offset`, or if its length word or its flag is not one that a record has.
pub open spec fn account_at(src: Seq<u8>, index: int, offset: int) -> Option<AccountView> {
    if index < 0 || index + 8 > src.len() {
        None
    } else {
        let len = word(src, index);
        let userdata_len = len - account_size_static();
        let userdata = index + 16;
        let owner = userdata + userdata_len;
        let executable = owner + 32;
        if userdata_len < 0 || index + 8 + len > offset || executable + 1 > src.len()
            || src[executable] > 1 {
            None
        } else {
            Some(
                AccountView {
                    tokens: word(src, index + 8) as u64,
                    userdata: src.subrange(userdata, owner),
                    owner: src.subrange(owner, executable),
                    executable: src[executable] == 1,
                },
            )
        }
    }
}

fn get_account_size_static() -> (r: usize)
    ensures
        r == account_size_static(),
{
    u64::size() + Pubkey::size() + bool::size() + Pubkey::size()
}

/// What an account's length word holds.
pub fn get_serialized_size(account: &Account) -> (r: usize)
    requires
        serialized_size(account@) <= usize::MAX,
    ensures
        r == serialized_size(account@),
{
    get_account_size_static() + account.userdata.len()
}

proof fn lemma_splice_twice(s: Seq<u8>, a: Seq<u8>, b: Seq<u8>)
    requires
        a.len() + b.len() <= s.len(),
    ensures
        splice(splice(s, 0, a), a.len() as int, b) == splice(s, 0, a + b),
{
    assert(splice(splice(s, 0, a), a.len() as int, b) =~= splice(s, 0, a + b));
}

proof fn lemma_record_len(account: AccountView, len: nat)
    requires
        account.owner.len() == 32,
    ensures
        account_record(account, len).len() == 49 + account.userdata.len(),
{
    lemma_le_bytes_len(len, 8);
    lemma_le_bytes_len(account.tokens as nat, 8);
}

/// Writes the record of `account`, with `len` in its length word, to the start of `dst_slice`.
pub fn serialize_account(dst_slice: &mut [u8], account: &Account, len: usize)
    requires
        account_record(account@, len as nat).len() <= old(dst_slice)@.len(),
    ensures
        final(dst_slice)@ == splice(old(dst_slice)@, 0, account_record(account@, len as nat)),
{
    let mut at: usize = 0;
    let ghost start = dst_slice@;
    let ghost len_bytes = le_bytes(len as nat, 8);
    let ghost tokens_bytes = le_bytes(account.tokens as nat, 8);
    let ghost flag = account.executable.stored();
    proof {
        assert(dst_slice.len() <= usize::MAX);
        lemma_record_len(account@, len as nat);
        lemma_le_bytes_len(len as nat, 8);
        lemma_le_bytes_len(account.tokens as nat, 8);
        lemma_splice_twice(start, len_bytes, tokens_bytes);
        lemma_splice_twice(start, len_bytes + tokens_bytes, account.userdata@);
        lemma_splice_twice(start, len_bytes + tokens_bytes + account.userdata@, account.owner@);
        lemma_splice_twice(
            start,
            len_bytes + tokens_bytes + account.userdata@ + account.owner@,
            flag,
        );
    }
    write_object(&mut at, dst_slice, len as u64);
    write_object(&mut at, dst_slice, account.tokens);
    put(dst_slice, at, account.userdata.as_slice());
    at += account.userdata.len();
    write_object(&mut at, dst_slice, account.owner);
    write_object(&mut at, dst_slice, account.executable);
}

/// Whether a record starts at `index` of `src_slice`, of which what lies before `current_offset`
/// is written.
pub fn is_account_at(src_slice: &[u8], index: usize, current_offset: usize) -> (r: bool)
    ensures
        r == (account_at(src_slice@, index as int, current_offset as int) is Some),
{
    let n: usize = src_slice.len();
    if n < SIZEOF_U64 || index > n - SIZEOF_U64 {
        return false;
    }
    let len: u64 = u64_from_le(slice_subrange(src_slice, index, index + SIZEOF_U64));
    if len < get_account_size_static() as u64 || current_offset < index + SIZEOF_U64 {
        return false;
    }
    let written: usize = current_offset - index - SIZEOF_U64;
    if len > written as u64 {
        return false;
    }
    let userdata_len: usize = len as usize - get_account_size_static();
    let executable: usize = index + SIZEOF_U64 + u64::size() + userdata_len + Pubkey::size();
    executable < n && src_slice[executable] <= 1
}

/// Why a store cannot do what it is asked.
#[derive(Clone, Copy, Debug, PartialEq, Eq)]
pub enum AppendVecError {
    /// The store was made with a fixed size.
    GrowNotSupported,
}

/// The account whose record starts at `index` of `src_slice`, of which what lies before
/// `current_offset` is written.
pub fn deserialize_account(src_slice: &[u8], index: usize, current_offset: usize) -> (r: Result<
    Account,
    AppendVecError,
>)
    requires
        account_at(src_slice@, index as int, current_offset as int) is Some,
    ensures
        r matches Ok(a) && Some(a@) == account_at(
            src_slice@,
            index as int,
            current_offset as int,
        ),
{
    let mut at: usize = index;
    proof {
        assert(src_slice.len() <= usize::MAX);
        lemma_radix_words();
        lemma_le_value_bound(src_slice@.subrange(index + 8, index + 16));
    }
    let len: usize = u64_from_le(slice_subrange(src_slice, at, at + 8)) as usize;
    at += SIZEOF_U64;
    let tokens: u64 = u64_from_le(slice_subrange(src_slice, at, at + 8));
    at += 8;
    let userdata_len: usize = len - get_account_size_static();
    let mut userdata: Vec<u8> = vec![];
    userdata.extend_from_slice(slice_subrange(src_slice, at, at + userdata_len));
    proof {
        assert(userdata@ =~= src_slice@.subrange(at as int, at + userdata_len));
    }
    at += userdata_len;
    let owner = Pubkey::load(slice_subrange(src_slice, at, at + 32));
    at += 32;
    let executable = bool::load(slice_subrange(src_slice, at, at + 1));
    proof {
        assert(executable.stored()[0] == src_slice@[at as int]);
    }
    Ok(Account { tokens, userdata, owner, executable })
}

/// A store of values that are appended one behind the other. A value of type `T` is appended as
/// its bytes, an account as its record.
pub struct AppendVec<T> {
    map: MmapMut,
    current_offset: usize,
    file_size: u64,
    inc_size: u64,
    phantom: PhantomData<T>,
}

/// What an `AppendVec` is: the bytes that it maps, how many of them are written, how many may be,
/// and by how many it grows.
#[verifier::ext_equal]
pub struct AppendVecView {
    pub bytes: Seq<u8>,
    pub current_offset: nat,
    pub file_size: nat,
    pub inc_size: nat,
}

impl<T> View for AppendVec<T> {
    type V = AppendVecView;

    closed spec fn view(&self) -> AppendVecView {
        AppendVecView {
            bytes: mapped_bytes(self.map),
            current_offset: self.current_offset as nat,
            file_size: self.file_size as nat,
            inc_size: self.inc_size as nat,
        }
    }
}

impl AppendVecView {
    /// What is written lies within what may be written, and that within the map, with a byte to
    /// spare.
    pub open spec fn wf(self) -> bool {
        &&& self.current_offset <= self.file_size < self.bytes.len()
        &&& self.file_size <= u64::MAX
        &&& self.inc_size <= u64::MAX
    }

    /// Whether `n` more bytes may be written.
    pub open spec fn has_room(self, n: nat) -> bool {
        self.current_offset + n <= self.file_size
    }

    /// The store after `value` was written behind what it holds and `n` bytes were taken up.
    pub open spec fn appended(self, value: Seq<u8>, n: nat) -> AppendVecView {
        AppendVecView {
            bytes: splice(self.bytes, self.current_offset as int, value),
            current_offset: self.current_offset + n,
            ..self
        }
    }

    /// The account whose record starts at `index`.
    pub open spec fn account(self, index: int) -> Option<AccountView> {
        account_at(self.bytes, index, self.current_offset as int)
    }

    /// The bytes of a value of `size` bytes that starts at `index`.
    pub open spec fn value(self, index: int, size: nat) -> Seq<u8> {
        self.bytes.subrange(index, index + size)
    }

    /// Whether the store would still have more than `inc_size` bytes to spare after another value
    /// of `size` bytes, so that it need not grow.
    pub open spec fn ample(self, size: nat) -> bool {
        self.current_offset + size + self.inc_size < self.file_size
    }

    /// Whether the offset behind another value of `size` bytes and the increment, and the size
    /// that the store grows to where it has to, are numbers that a `u64` holds.
    pub open spec fn can_grow(self, size: nat) -> bool {
        self.inc_size > 0 ==> {
            &&& self.current_offset + size + self.inc_size <= u64::MAX
            &&& !self.ample(size) ==> self.file_size + self.inc_size <= u64::MAX
        }
    }

    /// Whether a store of values of `size` bytes that is asked to grow grows to `end` bytes.
    pub open spec fn grows_to(self, size: nat, end: nat) -> bool {
        &&& self.inc_size > 0
        &&& !self.ample(size)
        &&& end == self.file_size + self.inc_size
    }

    /// The store after it went on in another map, of which the first `end` bytes may be written.
    pub open spec fn remapped(self, map: Seq<u8>, end: nat) -> AppendVecView {
        AppendVecView { bytes: map, file_size: end, ..self }
    }

    /// Whether a map starts with the bytes that the store has written.
    pub open spec fn is_start_of(self, map: Seq<u8>) -> bool {
        &&& self.current_offset <= map.len()
        &&& forall|i: int| 0 <= i < self.current_offset ==> map[i] == self.bytes[i]
    }

    /// The store after the bytes from `index` on were replaced by `value`.
    pub open spec fn changed(self, index: int, value: Seq<u8>) -> AppendVecView {
        AppendVecView { bytes: splice(self.bytes, index, value), ..self }
    }
}

impl<T> AppendVec<T> {
    /// An empty store in `map`, of which the first `size` bytes may be written. Where it is to
    /// grow, it grows by `inc` bytes.
    pub fn new(map: MmapMut, size: u64, inc: u64) -> (r: Self)
        requires
            size < mapped_bytes(map).len(),
        ensures
            r@.wf(),
            r@ == (AppendVecView {
                bytes: mapped_bytes(map),
                current_offset: 0,
                file_size: size as nat,
                inc_size: inc as nat,
            }),
    {
        AppendVec { map, current_offset: 0, file_size: size, inc_size: inc, phantom: PhantomData }
    }

    /// Forgets everything that was appended.
    pub fn reset(&mut self)
        requires
            old(self)@.wf(),
        ensures
            final(self)@.wf(),
            final(self)@ == (AppendVecView { current_offset: 0, ..old(self)@ }),
    {
        self.current_offset = 0;
    }

    /// Whether the sums that `grow_file` takes can be held.
    pub fn can_grow(&self) -> (r: bool)
        requires
            self@.wf(),
        ensures
            r == self@.can_grow(size_of::<T>()),
    {
        if self.inc_size == 0 {
            return true;
        }
        let size: u64 = core::mem::size_of::<T>() as u64;
        if self.inc_size > u64::MAX - size {
            return false;
        }
        if self.current_offset as u64 > u64::MAX - size - self.inc_size {
            return false;
        }
        let ample: bool = self.current_offset as u64 + size + self.inc_size < self.file_size;
        ample || self.inc_size <= u64::MAX - self.file_size
    }

    /// Whether, and how far, the file that is mapped has to be extended. The store grows to `end`
    /// when `remap` hands it a map of the extended file.
    pub fn grow_file(&self) -> (r: Result<Growth, AppendVecError>)
        requires
            self@.wf(),
            self@.can_grow(size_of::<T>()),
        ensures
            match r {
                Err(AppendVecError::GrowNotSupported) => self@.inc_size == 0,
                Ok(Growth::NotNeeded) => self@.inc_size > 0 && self@.ample(size_of::<T>()),
                Ok(Growth::Extend { end }) => self@.grows_to(size_of::<T>(), end as nat),
            },
    {
        if self.inc_size == 0 {
            return Err(AppendVecError::GrowNotSupported);
        }
        let index: u64 = self.current_offset as u64 + core::mem::size_of::<T>() as u64;
        if index + self.inc_size < self.file_size {
            // grow was already called
            return Ok(Growth::NotNeeded);
        }
        Ok(Growth::Extend { end: self.file_size + self.inc_size })
    }

    /// Goes on in `map`, the map of the file that was extended as `grow_file` asked for, of which
    /// the first `end` bytes may be written. Where the map starts with what was written, nothing is
    /// lost.
    pub fn remap(&mut self, map: MmapMut, end: u64)
        requires
            old(self)@.wf(),
            old(self)@.grows_to(size_of::<T>(), end as nat),
            end < mapped_bytes(map).len(),
        ensures
            final(self)@.wf(),
            final(self)@ == old(self)@.remapped(mapped_bytes(map), end as nat),
            old(self)@.is_start_of(mapped_bytes(map)) ==> keeps_what_was_found(
                old(self)@,
                final(self)@,
            ),
    {
        proof {
            if self@.is_start_of(mapped_bytes(map)) {
                law_remap_keeps_what_was_written(self@, mapped_bytes(map), end as nat);
            }
        }
        self.map = map;
        self.file_size = end;
    }

    /// Whether `get_account` finds an account at `index`.
    pub fn has_account(&self, index: u64) -> (r: bool)
        requires
            self@.wf(),
        ensures
            r == (self@.account(index as int) is Some),
    {
        let bytes = mapped(&self.map);
        index <= bytes.len() as u64 && is_account_at(bytes, index as usize, self.current_offset)
    }

    /// The account whose record starts at `index`.
    pub fn get_account(&self, index: u64) -> (r: Result<Account, AppendVecError>)
        requires
            self@.wf(),
            self@.account(index as int) is Some,
        ensures
            r matches Ok(a) && Some(a@) == self@.account(index as int),
    {
        let bytes = mapped(&self.map);
        proof {
            assert(bytes.len() <= usize::MAX);
        }
        deserialize_account(bytes, index as usize, self.current_offset)
    }

    /// Appends the record of `account`, and says where it starts. Where there is no room for it,
    /// nothing is appended.
    pub fn append_account(&mut self, account: &Account) -> (r: Option<u64>)
        requires
            old(self)@.wf(),
        ensures
            final(self)@.wf(),
            match r {
                Some(index) => {
                    &&& old(self)@.has_room(serialized_size(account@) + 8)
                    &&& index == old(self)@.current_offset
                    &&& final(self)@ == old(self)@.appended(
                        account_record(account@, serialized_size(account@)),
                        serialized_size(account@) + 8,
                    )
                    &&& final(self)@.account(index as int) == Some(account@)
                    &&& keeps_what_was_found(old(self)@, final(self)@)
                },
                None => {
                    &&& !old(self)@.has_room(serialized_size(account@) + 8)
                    &&& final(self)@ == old(self)@
                },
            },
    {
        let data_at: usize = self.current_offset;
        let room: u64 = self.file_size - data_at as u64;
        let taken: u64 = (get_account_size_static() + SIZEOF_U64) as u64;
        if room < taken || room - taken < account.userdata.len() as u64 {
            return None;
        }
        proof {
            lemma_record_len(account@, serialized_size(account@));
        }
        let ghost before = self@;
        let bytes = mapped_mut(&mut self.map);
        proof {
            assert(bytes.len() <= usize::MAX);
        }
        let len: usize = get_serialized_size(account);
        let (_, rest) = bytes.split_at_mut(data_at);
        serialize_account(rest, account, len);
        self.current_offset = data_at + len + SIZEOF_U64;
        proof {
            let record = account_record(account@, len as nat);
            assert(self@ =~= before.appended(record, (len + 8) as nat));
            law_appended_account_is_found(before, *account);
            law_append_keeps_what_was_written(before, record, (len + 8) as nat);
        }
        Some(data_at as u64)
    }
}

impl<T: Storable> AppendVec<T> {
    /// Whether `get` finds a value at `index`.
    pub fn has_value(&self, index: u64) -> (r: bool)
        requires
            self@.wf(),
        ensures
            r == (index + T::stored_size() <= self@.current_offset && T::is_stored(
                self@.value(index as int, T::stored_size()),
            )),
    {
        let size: usize = T::size();
        if self.current_offset < size || index > (self.current_offset - size) as u64 {
            return false;
        }
        let at: usize = index as usize;
        T::can_load(slice_subrange(mapped(&self.map), at, at + size))
    }

    /// The value that starts at `index`, as it is now: a change that `set` makes is seen by the next
    /// `get`.
    pub fn get(&self, index: u64) -> (r: T)
        requires
            self@.wf(),
            index + T::stored_size() <= self@.current_offset,
            T::is_stored(self@.value(index as int, T::stored_size())),
        ensures
            r.stored() == self@.value(index as int, T::stored_size()),
    {
        let bytes = mapped(&self.map);
        proof {
            assert(bytes.len() <= usize::MAX);
        }
        let at: usize = index as usize;
        T::load(slice_subrange(bytes, at, at + T::size()))
    }

    /// Replaces the value that starts at `index` by `val`, in place.
    pub fn set(&mut self, index: u64, val: T)
        requires
            old(self)@.wf(),
            index + T::stored_size() <= old(self)@.current_offset,
        ensures
            final(self)@.wf(),
            final(self)@ == old(self)@.changed(index as int, val.stored()),
            final(self)@.value(index as int, T::stored_size()) == val.stored(),
    {
        let ghost before = self@;
        let ghost stored = val.stored();
        let bytes = mapped_mut(&mut self.map);
        proof {
            assert(bytes.len() <= usize::MAX);
            T::stored_is_stored(val);
        }
        let mut at: usize = index as usize;
        write_object(&mut at, bytes, val);
        proof {
            assert(self@ =~= before.changed(index as int, stored));
            assert(self@.value(index as int, T::stored_size()) =~= stored);
        }
    }

    /// Appends `val`, and says where it starts. Where there is no room for it, nothing is appended.
    pub fn append(&mut self, val: T) -> (r: Option<u64>)
        requires
            old(self)@.wf(),
        ensures
            final(self)@.wf(),
            match r {
                Some(index) => {
                    &&& old(self)@.has_room(T::stored_size())
                    &&& index == old(self)@.current_offset
                    &&& final(self)@ == old(self)@.appended(val.stored(), T::stored_size())
                    &&& final(self)@.value(index as int, T::stored_size()) == val.stored()
                    &&& keeps_what_was_found(old(self)@, final(self)@)
                },
                None => {
                    &&& !old(self)@.has_room(T::stored_size())
                    &&& final(self)@ == old(self)@
                },
            },
    {
        let index: usize = self.current_offset;
        if self.file_size - (index as u64) < T::size() as u64 {
            return None;
        }
        let ghost before = self@;
        let ghost stored = val.stored();
        let bytes = mapped_mut(&mut self.map);
        proof {
            assert(bytes.len() <= usize::MAX);
            T::stored_is_stored(val);
        }
        let mut at: usize = index;
        write_object(&mut at, bytes, val);
        self.current_offset = at;
        proof {
            assert(self@ =~= before.appended(stored, T::stored_size()));
            assert(self@.value(index as int, T::stored_size()) =~= stored);
            law_append_keeps_what_was_written(before, stored, T::stored_size());
        }
        Some(index as u64)
    }
}

/// What has to be done for a store to grow.
#[derive(Clone, Copy, Debug, PartialEq, Eq)]
pub enum Growth {
    /// Nothing: there is room to spare.
    NotNeeded,
    /// The file has to be extended so that its first `end` bytes, and one more, can be mapped.
    Extend { end: u64 },
}

/// An account is read back from the record that was written for it, once the bytes that the record
/// is given count as written.
pub proof fn law_account_round_trip(dst: Seq<u8>, at: int, account: Account, offset: int)
    requires
        0 <= at,
        at + 49 + account@.userdata.len() <= dst.len(),
        at + 8 + serialized_size(account@) <= offset,
        serialized_size(account@) <= u64::MAX,
    ensures
        account_at(
            splice(dst, at, account_record(account@, serialized_size(account@))),
            at,
            offset,
        ) == Some(account@),
{
    let len = serialized_size(account@);
    let record = account_record(account@, len);
    let src = splice(dst, at, record);
    let owner = at + 16 + account@.userdata.len();
    lemma_record_len(account@, len);
    lemma_radix_words();
    lemma_le_bytes_len(len, 8);
    lemma_le_bytes_len(account.tokens as nat, 8);
    lemma_value_of_bytes(len, 8);
    lemma_value_of_bytes(account.tokens as nat, 8);
    assert(src.subrange(at, at + 8) =~= le_bytes(len, 8));
    assert(src.subrange(at + 8, at + 16) =~= le_bytes(account.tokens as nat, 8));
    assert(src.subrange(at + 16, owner) =~= account@.userdata);
    assert(src.subrange(owner, owner + 32) =~= account@.owner);
    assert(src[owner + 32] == if account.executable { 1u8 } else { 0u8 });
}

/// The account that `append_account` appends is the one that `get_account` then finds where the
/// record starts.
pub proof fn law_appended_account_is_found(store: AppendVecView, account: Account)
    requires
        store.wf(),
        store.has_room(serialized_size(account@) + 8),
    ensures
        store.appended(
            account_record(account@, serialized_size(account@)),
            serialized_size(account@) + 8,
        ).account(store.current_offset as int) == Some(account@),
{
    law_account_round_trip(
        store.bytes,
        store.current_offset as int,
        account,
        (store.current_offset + serialized_size(account@) + 8) as int,
    );
}

/// The value that `append` appends is the one that `get` then finds where it starts.
pub proof fn law_appended_value_is_found<T: Storable>(store: AppendVecView, val: T, found: T)
    requires
        store.wf(),
        store.has_room(T::stored_size()),
        found.stored() == store.appended(val.stored(), T::stored_size()).value(
            store.current_offset as int,
            T::stored_size(),
        ),
    ensures
        T::is_stored(
            store.appended(val.stored(), T::stored_size()).value(
                store.current_offset as int,
                T::stored_size(),
            ),
        ),
        found == val,
{
    let at = store.current_offset as int;
    let size = T::stored_size();
    T::stored_is_stored(val);
    assert(store.appended(val.stored(), size).value(at, size) =~= val.stored());
    T::stored_determines(found, val);
}

/// The value that `set` puts in place is the one that `get` then finds there, and values that lie
/// wholly before or behind it are found as they were.
pub proof fn law_changed_value_is_found<T: Storable>(
    store: AppendVecView,
    index: int,
    val: T,
    found: T,
)
    requires
        store.wf(),
        0 <= index,
        index + T::stored_size() <= store.current_offset,
        found.stored() == store.changed(index, val.stored()).value(index, T::stored_size()),
    ensures
        T::is_stored(store.changed(index, val.stored()).value(index, T::stored_size())),
        found == val,
        forall|other: int, size: nat|
            0 <= other && other + size <= store.current_offset && (other + size <= index || index
                + T::stored_size() <= other) ==> #[trigger] store.changed(
                index,
                val.stored(),
            ).value(other, size) == store.value(other, size),
{
    let after = store.changed(index, val.stored());
    T::stored_is_stored(val);
    assert(after.value(index, T::stored_size()) =~= val.stored());
    T::stored_determines(found, val);
    assert forall|other: int, size: nat|
        0 <= other && other + size <= store.current_offset && (other + size <= index || index
            + T::stored_size() <= other) implies #[trigger] after.value(other, size) == store.value(
        other,
        size,
    ) by {
        assert(after.value(other, size) =~= store.value(other, size));
    }
}

/// Whether both stores hold the same in what the first has written.
pub open spec fn agree_on_written(store: AppendVecView, other: AppendVecView) -> bool {
    &&& store.current_offset <= other.current_offset
    &&& store.current_offset <= store.bytes.len()
    &&& store.current_offset <= other.bytes.len()
    &&& forall|i: int| 0 <= i < store.current_offset ==> store.bytes[i] == other.bytes[i]
}

/// Whether every account and every value that is found in the first store is found in the second,
/// in the same place.
pub open spec fn keeps_what_was_found(store: AppendVecView, other: AppendVecView) -> bool {
    &&& forall|index: int| #[trigger]
        store.account(index) is Some ==> other.account(index) == store.account(index)
    &&& forall|index: int, size: nat|
        0 <= index && index + size <= store.current_offset ==> #[trigger] other.value(index, size)
            == store.value(index, size)
}

/// What was found in a store is found in every store that agrees with it on what it has written.
pub proof fn law_written_stays_found(store: AppendVecView, other: AppendVecView)
    requires
        agree_on_written(store, other),
    ensures
        keeps_what_was_found(store, other),
{
    assert forall|index: int| #[trigger] store.account(index) is Some implies other.account(index)
        == store.account(index) by {
        assert(store.bytes.subrange(index, index + 8) =~= other.bytes.subrange(index, index + 8));
        let len = word(store.bytes, index);
        let owner = index + 16 + len - account_size_static();
        assert(store.bytes.subrange(index + 8, index + 16) =~= other.bytes.subrange(
            index + 8,
            index + 16,
        ));
        assert(store.bytes.subrange(index + 16, owner) =~= other.bytes.subrange(
            index + 16,
            owner,
        ));
        assert(store.bytes.subrange(owner, owner + 32) =~= other.bytes.subrange(
            owner,
            owner + 32,
        ));
    }
    assert forall|index: int, size: nat|
        0 <= index && index + size <= store.current_offset implies #[trigger] other.value(
        index,
        size,
    ) == store.value(index, size) by {
        assert(other.value(index, size) =~= store.value(index, size));
    }
}

/// Appending leaves everything that was found before where it was.
pub proof fn law_append_keeps_what_was_written(store: AppendVecView, value: Seq<u8>, n: nat)
    requires
        store.wf(),
        store.has_room(n),
        value.len() <= n,
    ensures
        store.appended(value, n).wf(),
        keeps_what_was_found(store, store.appended(value, n)),
{
    law_written_stays_found(store, store.appended(value, n));
}

/// A store that goes on in a map which starts with the bytes that it has written, as the map of
/// the extended file does, has lost nothing.
pub proof fn law_remap_keeps_what_was_written(store: AppendVecView, map: Seq<u8>, end: nat)
    requires
        store.wf(),
        store.is_start_of(map),
    ensures
        keeps_what_was_found(store, store.remapped(map, end)),
{
    law_written_stays_found(store, store.remapped(map, end));
}

/// What may happen to a store as long as nothing is forgotten or changed in place.
pub enum StoreStep {
    /// `append` or `append_account` writes `value` and takes up `n` bytes.
    Append { value: Seq<u8>, n: nat },
    /// `append` or `append_account` finds no room.
    Refuse,
    /// `remap` goes on in `map`.
    Remap { map: Seq<u8>, end: nat },
}

/// Whether a step leads from one store of values of `size` bytes to the other, as `append`,
/// `append_account` and `remap` say, where every map starts with what was written.
pub open spec fn is_store_step(
    before: AppendVecView,
    step: StoreStep,
    after: AppendVecView,
    size: nat,
) -> bool {
    match step {
        StoreStep::Append { value, n } => {
            &&& before.has_room(n)
            &&& value.len() <= n
            &&& after == before.appended(value, n)
        },
        StoreStep::Refuse => after == before,
        StoreStep::Remap { map, end } => {
            &&& before.grows_to(size, end)
            &&& end < map.len()
            &&& end <= u64::MAX
            &&& before.is_start_of(map)
            &&& after == before.remapped(map, end)
        },
    }
}

/// However often a store is appended to and goes on in a longer map, what was found at any time is
/// found at every later time, in the same place.
pub proof fn law_run_keeps_what_was_found(
    stores: Seq<AppendVecView>,
    steps: Seq<StoreStep>,
    size: nat,
    early: int,
    late: int,
)
    requires
        stores.len() == steps.len() + 1,
        stores[0].wf(),
        forall|i: int|
            0 <= i < steps.len() ==> is_store_step(
                stores[i],
                #[trigger] steps[i],
                stores[i + 1],
                size,
            ),
        0 <= early <= late < stores.len(),
    ensures
        stores[late].wf(),
        keeps_what_was_found(stores[early], stores[late]),
{
    lemma_run_agrees(stores, steps, size, 0, early);
    lemma_run_agrees(stores, steps, size, early, late);
    law_written_stays_found(stores[early], stores[late]);
}

proof fn lemma_run_agrees(
    stores: Seq<AppendVecView>,
    steps: Seq<StoreStep>,
    size: nat,
    early: int,
    late: int,
)
    requires
        stores.len() == steps.len() + 1,
        stores[early].wf(),
        forall|i: int|
            0 <= i < steps.len() ==> is_store_step(
                stores[i],
                #[trigger] steps[i],
                stores[i + 1],
                size,
            ),
        0 <= early <= late < stores.len(),
    ensures
        stores[late].wf(),
        agree_on_written(stores[early], stores[late]),
    decreases late - early,
{
    if early < late {
        lemma_run_agrees(stores, steps, size, early, late - 1);
        assert(is_store_step(stores[late - 1], steps[late - 1], stores[late], size));
    }
}

/// After a store that had no room for a value has grown, it has room for it, if it grows by at
/// least the value's size; and a store without room is never told that it need not grow.
pub proof fn law_growing_makes_room(store: AppendVecView, n: nat, size: nat, map: Seq<u8>)
    requires
        store.wf(),
        !store.has_room(n),
        0 < store.inc_size,
        n <= store.inc_size,
    ensures
        store.grows_to(size, store.file_size + store.inc_size),
        store.remapped(map, store.file_size + store.inc_size).has_room(n),
{
}

/// After a reset no account is found, and all of the store may be written again.
pub proof fn law_reset_forgets(store: AppendVecView)
    ensures
        forall|index: int|
            (#[trigger] (AppendVecView { current_offset: 0, ..store }).account(index)) is None,
        forall|n: nat| #[trigger]
            (AppendVecView { current_offset: 0, ..store }).has_room(n) <==> n <= store.file_size,
{
}

} // verus!
