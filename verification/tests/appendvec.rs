use memmap::MmapMut;
use rand::{thread_rng, Rng};
use solana::account::Account;
use solana::appendvec::{
    deserialize_account, get_serialized_size, is_account_at, serialize_account, AppendVec,
    AppendVecError, Growth, SIZEOF_U64,
};
use solana::mapped::mapped_len;
use solana::pubkey::Pubkey;
use solana::storable::{write_object, Storable};

const START_SIZE: u64 = 4 * 1024 * 1024;
const INC_SIZE: u64 = 1024 * 1024;

fn map_of(size: u64) -> MmapMut {
    let map = MmapMut::map_anon(size as usize + 1).unwrap();
    assert_eq!(mapped_len(&map), size as usize + 1);
    map
}

fn store_of<T>(size: u64, inc: u64) -> AppendVec<T> {
    AppendVec::new(map_of(size), size, inc)
}

fn account_of(tokens: u64, userdata: Vec<u8>) -> Account {
    Account {
        tokens,
        userdata,
        owner: Pubkey::default(),
        executable: false,
    }
}

#[test]
fn test_append_vec() {
    let mut av: AppendVec<u64> = store_of(START_SIZE, INC_SIZE);
    let val: u64 = 5;
    let index = av.append(val).unwrap();
    assert_eq!(av.get(index), val);
    let val1 = val + 1;
    let index1 = av.append(val1).unwrap();
    assert_eq!(av.get(index), val);
    assert_eq!(av.get(index1), val1);
}

#[test]
fn test_append_vec_account() {
    let mut av: AppendVec<Account> = store_of(START_SIZE, INC_SIZE);
    let v1 = vec![1u8; 32];
    let mut account1 = account_of(1, v1);
    let index1 = av.append_account(&account1).unwrap();
    assert_eq!(index1, 0);
    assert_eq!(av.get_account(index1).unwrap(), account1);

    let v2 = vec![4u8; 32];
    let mut account2 = account_of(1, v2);
    let index2 = av.append_account(&account2).unwrap();
    let mut len = get_serialized_size(&account1) + SIZEOF_U64;
    assert_eq!(index2, len as u64);
    assert_eq!(av.get_account(index2).unwrap(), account2);
    assert_eq!(av.get_account(index1).unwrap(), account1);

    account2.userdata.iter_mut().for_each(|e| *e *= 2);
    let index3 = av.append_account(&account2).unwrap();
    len += get_serialized_size(&account2) + SIZEOF_U64;
    assert_eq!(index3, len as u64);
    assert_eq!(av.get_account(index3).unwrap(), account2);

    account1.userdata.extend([1, 2, 3, 4, 5, 6].iter().cloned());
    let index4 = av.append_account(&account1).unwrap();
    len += get_serialized_size(&account2) + SIZEOF_U64;
    assert_eq!(index4, len as u64);
    assert_eq!(av.get_account(index4).unwrap(), account1);
}

/// Grows a store as a file-backed one grows: it goes on in a longer map that starts with what was
/// written.
fn grow<T>(av: &mut AppendVec<T>, written: &[u8]) {
    match av.grow_file() {
        Ok(Growth::Extend { end }) => {
            let mut map = map_of(end);
            map[..written.len()].copy_from_slice(written);
            av.remap(map, end);
        }
        Ok(Growth::NotNeeded) => {}
        Err(e) => panic!("{:?}", e),
    }
}

#[test]
fn test_grow_append_vec() {
    let mut av: AppendVec<[u64; 32]> = store_of(START_SIZE, INC_SIZE);
    let mut val = [5u64; 32];
    let size = 100_000;
    let mut offsets = vec![0; size];
    let mut written: Vec<u8> = vec![];

    for index in 0..size {
        if let Some(offset) = av.append(val) {
            offsets[index] = offset;
        } else {
            grow(&mut av, &written);
            if let Some(offset) = av.append(val) {
                offsets[index] = offset;
            } else {
                assert!(false);
            }
        }
        for word in val.iter() {
            written.extend_from_slice(&word.to_le_bytes());
        }
        val[0] += 1;
    }

    let num_reads = 100_000;
    for _ in 0..num_reads {
        let index = thread_rng().gen_range(0, size);
        assert_eq!(av.get(offsets[index])[0], (index + 5) as u64);
    }
}

#[test]
fn random_atomic_change() {
    let mut vec: AppendVec<u64> = store_of(START_SIZE, INC_SIZE);
    let size = 1_000;
    let mut written: Vec<u8> = vec![];
    for _ in 0..size {
        if vec.append(0).is_none() {
            grow(&mut vec, &written);
            assert!(vec.append(0).is_some());
        }
        written.extend_from_slice(&0u64.to_le_bytes());
    }
    let index = thread_rng().gen_range(0, size as u64);
    let current1 = vec.get(index);
    let next = current1 + 1;
    vec.set(index, next);
    let current2 = vec.get(index);
    assert_eq!(current2, next);
}

#[test]
fn a_changed_value_leaves_the_others_alone() {
    let mut av: AppendVec<u64> = store_of(24, 0);
    for val in 1..4 {
        assert!(av.append(val).is_some());
    }
    av.set(8, 0x0102030405060708);
    assert_eq!((av.get(0), av.get(8), av.get(16)), (1, 0x0102030405060708, 3));
    assert_eq!(av.append(4), None);
}

#[test]
fn a_record_counts_where_the_offset_lies_beyond_the_buffer() {
    let account = account_of(7, vec![1, 2, 3]);
    let mut src = vec![0u8; 52];
    serialize_account(&mut src, &account, 76);
    assert_eq!(deserialize_account(&src, 0, 1000).unwrap(), account);
}

#[test]
fn a_record_is_laid_out_field_by_field() {
    let account = Account {
        tokens: 0x0102030405060708,
        userdata: vec![0xaa, 0xbb],
        owner: Pubkey { bytes: [7u8; 32] },
        executable: true,
    };
    assert_eq!(get_serialized_size(&account), 75);
    let mut dst = vec![0xeeu8; 60];
    serialize_account(&mut dst, &account, 75);
    let mut expected = vec![75, 0, 0, 0, 0, 0, 0, 0];
    expected.extend_from_slice(&[8, 7, 6, 5, 4, 3, 2, 1]);
    expected.extend_from_slice(&[0xaa, 0xbb]);
    expected.extend_from_slice(&[7u8; 32]);
    expected.push(1);
    expected.extend_from_slice(&[0xee; 9]);
    assert_eq!(dst, expected);
}

#[test]
fn a_record_is_read_back_from_the_middle_of_a_buffer() {
    let account = Account {
        tokens: u64::max_value(),
        userdata: vec![],
        owner: Pubkey { bytes: [9u8; 32] },
        executable: true,
    };
    let len = get_serialized_size(&account);
    assert_eq!(len, 73);
    let mut src = vec![0x55u8; 200];
    serialize_account(&mut src[11..], &account, len);
    let read = deserialize_account(&src, 11, 11 + 8 + len).unwrap();
    assert_eq!(read, account);
}

#[test]
fn a_store_without_room_stays_as_it_is() {
    let mut av: AppendVec<u64> = store_of(20, 0);
    assert_eq!(av.append(1), Some(0));
    assert_eq!(av.append(2), Some(8));
    assert_eq!(av.append(3), None);
    assert_eq!(av.get(0), 1);
    assert_eq!(av.get(8), 2);
    assert_eq!(av.append_account(&account_of(1, vec![])), None);
}

#[test]
fn a_store_takes_exactly_what_fits() {
    let mut av: AppendVec<u64> = store_of(16, 0);
    assert_eq!(av.append(10), Some(0));
    assert_eq!(av.append(11), Some(8));
    assert_eq!(av.append(12), None);

    let mut exact: AppendVec<Account> = store_of(81, 0);
    assert_eq!(exact.append_account(&account_of(3, vec![])), Some(0));
    assert_eq!(exact.get_account(0).unwrap(), account_of(3, vec![]));

    let mut short: AppendVec<Account> = store_of(80, 0);
    assert_eq!(short.append_account(&account_of(3, vec![])), None);
}

#[test]
fn a_store_of_fixed_size_does_not_grow() {
    let av: AppendVec<u64> = store_of(8, 0);
    assert_eq!(av.grow_file(), Err(AppendVecError::GrowNotSupported));
}

#[test]
fn a_store_grows_only_where_it_has_to() {
    // With nothing written, 8 + 10 bytes are not below 18, but they are below 19.
    let full: AppendVec<u64> = store_of(18, 10);
    assert_eq!(full.grow_file(), Ok(Growth::Extend { end: 28 }));
    let ample: AppendVec<u64> = store_of(19, 10);
    assert_eq!(ample.grow_file(), Ok(Growth::NotNeeded));
}

#[test]
fn growing_makes_room_and_keeps_what_was_written() {
    let mut av: AppendVec<u64> = store_of(8, 8);
    assert_eq!(av.append(41), Some(0));
    assert_eq!(av.append(42), None);
    grow(&mut av, &41u64.to_le_bytes());
    assert_eq!(av.append(42), Some(8));
    assert_eq!(av.get(0), 41);
    assert_eq!(av.get(8), 42);
}

#[test]
fn a_reset_store_starts_anew() {
    let mut av: AppendVec<u64> = store_of(16, 0);
    assert_eq!(av.append(1), Some(0));
    assert_eq!(av.append(2), Some(8));
    av.reset();
    assert_eq!(av.append(3), Some(0));
    assert_eq!(av.get(0), 3);
    assert_eq!(av.append(4), Some(8));
    assert_eq!(av.append(5), None);
}

#[test]
fn stores_keep_other_types() {
    let mut flags: AppendVec<bool> = store_of(2, 0);
    assert_eq!(flags.append(true), Some(0));
    assert_eq!(flags.append(false), Some(1));
    assert_eq!((flags.get(0), flags.get(1)), (true, false));

    let mut keys: AppendVec<Pubkey> = store_of(64, 0);
    let key = Pubkey { bytes: [3u8; 32] };
    assert_eq!(keys.append(Pubkey::default()), Some(0));
    assert_eq!(keys.append(key), Some(32));
    assert_eq!(keys.get(32), key);
    assert_eq!(keys.get(0), Pubkey::default());
}

#[test]
fn stored_sizes_are_those_in_memory() {
    assert_eq!(u64::size(), std::mem::size_of::<u64>());
    assert_eq!(bool::size(), std::mem::size_of::<bool>());
    assert_eq!(Pubkey::size(), std::mem::size_of::<Pubkey>());
    assert_eq!(<[u64; 32]>::size(), std::mem::size_of::<[u64; 32]>());
}

#[test]
fn stored_words_are_little_endian() {
    let value: u64 = 0x1122334455667788;
    assert_eq!(value.store(), value.to_le_bytes().to_vec());
    assert_eq!(u64::load(&value.to_le_bytes()), value);

    let mut words = [0u64; 32];
    words[1] = 0x0102;
    words[31] = u64::max_value();
    let bytes = words.store();
    assert_eq!(bytes.len(), 256);
    assert_eq!(bytes[8..10], [2, 1]);
    assert_eq!(bytes[248..], [255u8; 8]);
    assert_eq!(<[u64; 32]>::load(&bytes), words);
}

#[test]
fn objects_are_written_one_behind_the_other() {
    let mut dst = [9u8; 12];
    let mut at = 1;
    write_object(&mut at, &mut dst, true);
    write_object(&mut at, &mut dst, 258u64);
    assert_eq!(at, 10);
    assert_eq!(dst, [9, 1, 2, 1, 0, 0, 0, 0, 0, 0, 9, 9]);
}

#[test]
fn an_account_is_there_only_where_its_record_starts() {
    let mut av: AppendVec<Account> = store_of(500, 0);
    assert!(!av.has_account(0));
    let account = account_of(7, vec![1, 2, 3]);
    assert_eq!(av.append_account(&account), Some(0));
    assert_eq!(av.append_account(&account), Some(84));
    assert!(av.has_account(0));
    assert!(av.has_account(84));
    // A length word that reaches beyond what is written, or is too small for a record.
    assert!(!av.has_account(1));
    assert!(!av.has_account(77));
    assert!(!av.has_account(168));
    assert!(!av.has_account(501));
    assert!(!av.has_account(u64::max_value()));
    av.reset();
    assert!(!av.has_account(0));
}

#[test]
fn a_record_counts_once_all_its_bytes_are_written() {
    let account = account_of(7, vec![1, 2, 3]);
    let mut src = vec![0u8; 84];
    serialize_account(&mut src, &account, 76);
    assert!(is_account_at(&src, 0, 84));
    assert!(!is_account_at(&src, 0, 83));
    assert!(!is_account_at(&src[..51], 0, 84));
    assert!(is_account_at(&src[..52], 0, 84));
    // The flag is neither of the two.
    src[51] = 2;
    assert!(!is_account_at(&src, 0, 84));
}

#[test]
fn a_value_is_there_where_its_bytes_are_written() {
    let mut av: AppendVec<u64> = store_of(20, 0);
    assert!(!av.has_value(0));
    assert_eq!(av.append(1), Some(0));
    assert!(av.has_value(0));
    assert!(!av.has_value(1));
    assert_eq!(av.append(2), Some(8));
    assert!(av.has_value(1));
    assert!(!av.has_value(9));
    assert!(!av.has_value(u64::max_value()));
    assert!(bool::can_load(&[1]));
    assert!(!bool::can_load(&[2]));
    assert!(!u64::can_load(&[1]));
}

#[test]
fn growth_that_no_number_holds_is_known_beforehand() {
    let limit = u64::max_value();
    // Without an increment nothing is added.
    assert!(store_of::<u64>(8, 0).can_grow());
    // The offset, a value and the increment.
    assert!(!store_of::<u64>(8, limit).can_grow());
    assert!(!store_of::<u64>(8, limit - 7).can_grow());
    // The size and the increment.
    assert!(store_of::<u64>(8, limit - 8).can_grow());
    assert!(!store_of::<u64>(9, limit - 8).can_grow());
    assert_eq!(
        store_of::<u64>(8, limit - 8).grow_file(),
        Ok(Growth::Extend { end: limit })
    );
    assert!(store_of::<u64>(1000, 1).can_grow());
    assert_eq!(store_of::<u64>(1000, 1).grow_file(), Ok(Growth::NotNeeded));
}

#[test]
fn a_run_of_appends_and_growths_keeps_everything() {
    let mut av: AppendVec<u64> = store_of(100, 100);
    let mut accounts = vec![];
    let mut written: Vec<u8> = vec![];
    for n in 0..20u8 {
        let account = account_of(n as u64, vec![n; n as usize]);
        let index = match av.append_account(&account) {
            Some(index) => index,
            None => {
                grow(&mut av, &written);
                av.append_account(&account).unwrap()
            }
        };
        let mut record = vec![0u8; get_serialized_size(&account) + SIZEOF_U64];
        serialize_account(&mut record, &account, get_serialized_size(&account));
        written.extend_from_slice(&record);
        accounts.push((index, account));
        for (index, account) in accounts.iter() {
            assert_eq!(av.get_account(*index).unwrap(), *account);
        }
    }
}
