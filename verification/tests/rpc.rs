use solana::account::{Account, KeyedAccount};
use solana::airdrop::{made_transaction, AirdropPoll, AirdropRequest, AirdropTransaction};
use solana::pubkey::{Pubkey, Signature};
use solana::rpc::{
    account_answer, checked_transaction, get_leader_addr, leader_answer, pubkey_answer,
    signature_answer, status_answer, to_leader, verify_pubkey, verify_signature, JsonRpcRequestProcessor, Meta, Outgoing,
    RpcSignatureStatus, RpcSolImpl, PACKET_DATA_SIZE,
};
use solana::rpc_error::Error;
use solana::services::{Bank, BankError, ClusterInfo, NodeInfo, StorageState};
use solana::system::{entrypoint, ProgramError};
use solana::system_instruction::SystemInstruction;
use std::cell::RefCell;
use std::collections::HashMap;
use std::sync::Arc;

/// A bank that carries out moves with the system program.
struct TestBank {
    last_id: solana::pubkey::Hash,
    accounts: RefCell<HashMap<Pubkey, Account>>,
    statuses: RefCell<HashMap<Signature, Result<(), BankError>>>,
}

impl TestBank {
    fn genesis(mint: Pubkey, tokens: u64) -> TestBank {
        let mut accounts = HashMap::new();
        accounts.insert(mint, account_of(tokens));
        TestBank {
            last_id: solana::pubkey::Hash { bytes: [0x6e; 32] },
            accounts: RefCell::new(accounts),
            statuses: RefCell::new(HashMap::new()),
        }
    }

    /// Moves tokens, and gives the signature of the transaction that did.
    fn process_move(&self, from: Pubkey, to: Pubkey, tokens: u64) -> Signature {
        let built = SystemInstruction::new_move(from, to, tokens);
        let mut accounts = self.accounts.borrow_mut();
        let mut keyed: Vec<KeyedAccount> = built
            .accounts
            .iter()
            .map(|(key, is_signer)| KeyedAccount {
                is_signer: *is_signer,
                key: *key,
                account: accounts.get(key).cloned().unwrap_or(account_of(0)),
            })
            .collect();
        let r = entrypoint(&built.program_id, &mut keyed, &built.userdata, 0);
        for k in keyed {
            accounts.insert(k.key, k.account);
        }
        let signature = signature_of(tokens);
        self.statuses
            .borrow_mut()
            .insert(signature, r.map_err(|e| BankError::ProgramError(0, e)));
        signature
    }
}

impl Bank for TestBank {
    fn get_account(&self, pubkey: &Pubkey) -> Option<Account> {
        self.accounts.borrow().get(pubkey).cloned()
    }

    fn get_balance(&self, pubkey: &Pubkey) -> u64 {
        self.get_account(pubkey).map(|a| a.tokens).unwrap_or(0)
    }

    fn last_id(&self) -> solana::pubkey::Hash {
        self.last_id
    }

    fn get_signature_status(&self, signature: &Signature) -> Option<Result<(), BankError>> {
        self.statuses.borrow().get(signature).cloned()
    }

    fn transaction_count(&self) -> usize {
        self.statuses.borrow().values().filter(|r| r.is_ok()).count()
    }
}

#[derive(Clone)]
struct TestStorage;

impl StorageState for TestStorage {
    fn get_last_id(&self) -> solana::pubkey::Hash {
        solana::pubkey::Hash { bytes: [0u8; 32] }
    }

    fn get_entry_height(&self) -> u64 {
        4096
    }

    fn get_pubkeys_for_entry_height(&self, entry_height: u64) -> Vec<Pubkey> {
        vec![key(entry_height as u8), key(3)]
    }
}

#[derive(Clone)]
struct TestCluster {
    leader: Option<&'static str>,
}

impl ClusterInfo for TestCluster {
    type Addr = &'static str;

    fn leader_data(&self) -> Option<NodeInfo<&'static str>> {
        self.leader.map(|tpu| NodeInfo { tpu })
    }
}

type TestMeta<'a> = Meta<'a, TestBank, TestStorage, TestCluster>;

const ALICE: Pubkey = Pubkey { bytes: [0xa1; 32] };
const BOB: Pubkey = Pubkey { bytes: [0xb0; 32] };

fn key(n: u8) -> Pubkey {
    Pubkey { bytes: [n; 32] }
}

fn account_of(tokens: u64) -> Account {
    Account {
        tokens,
        userdata: vec![],
        owner: Pubkey::default(),
        executable: false,
    }
}

fn signature_of(n: u64) -> Signature {
    let mut bytes = [0x51u8; 64];
    bytes[..8].copy_from_slice(&n.to_le_bytes());
    Signature { bytes }
}

fn invalid_request() -> Error {
    Error {
        code: -32600,
        message: "Invalid request".to_string(),
    }
}

fn internal_error() -> Error {
    Error {
        code: -32603,
        message: "Internal error".to_string(),
    }
}

fn no_bank() -> Error {
    Error {
        code: -32603,
        message: "No bank available".to_string(),
    }
}

fn no_leader() -> Error {
    Error {
        code: -32603,
        message: "No leader detected".to_string(),
    }
}

/// A node, of which the parts that answer are shared between requests.
struct Node {
    request_processor: JsonRpcRequestProcessor<TestBank, TestStorage>,
    cluster_info: TestCluster,
}

impl Node {
    fn meta(&self) -> TestMeta<'_> {
        Meta {
            request_processor: &self.request_processor,
            cluster_info: &self.cluster_info,
            rpc_addr: "0.0.0.0:0",
            drone_addr: "0.0.0.0:0",
        }
    }
}

fn node_of(bank: Option<Arc<TestBank>>, leader: Option<&'static str>) -> Node {
    let mut request_processor = JsonRpcRequestProcessor::new(TestStorage);
    if let Some(bank) = bank {
        request_processor.set_bank(&bank);
    }
    Node {
        request_processor,
        cluster_info: TestCluster { leader },
    }
}

/// A node whose bank has moved 20 of 10,000 tokens to `BOB`, with the signature that did.
fn start_rpc_handler_with_tx() -> (Node, solana::pubkey::Hash, Signature) {
    let bank = Arc::new(TestBank::genesis(ALICE, 10_000));
    let last_id = bank.last_id();
    let signature = bank.process_move(ALICE, BOB, 20);
    (node_of(Some(bank), Some("127.0.0.1:1234")), last_id, signature)
}

/// A transaction: signatures, account keys, last id and fee.
type TestTransaction = (Vec<Vec<u8>>, Vec<[u8; 32]>, [u8; 32], u64);

/// The signatures of the transaction that `data` holds, if it holds one.
fn signatures_in(data: &[u8]) -> Option<Vec<Signature>> {
    bincode::deserialize::<TestTransaction>(data)
        .ok()
        .map(|(signatures, _, _, _)| signatures.iter().map(|s| Signature::new(s)).collect())
}

#[test]
fn test_rpc_request_processor_new() {
    let bank = Arc::new(TestBank::genesis(ALICE, 10_000));
    let mut request_processor = JsonRpcRequestProcessor::new(TestStorage);
    request_processor.set_bank(&bank);
    bank.process_move(ALICE, BOB, 20);
    assert_eq!(request_processor.get_transaction_count().unwrap(), 1);
}

#[test]
fn test_rpc_get_balance() {
    let (node, _last_id, _signature) = start_rpc_handler_with_tx();
    let meta = node.meta();
    assert_eq!(RpcSolImpl.get_balance(&meta, BOB.to_string()), Ok(20));
}

#[test]
fn test_rpc_get_tx_count() {
    let (node, _last_id, _signature) = start_rpc_handler_with_tx();
    let meta = node.meta();
    assert_eq!(RpcSolImpl.get_transaction_count(&meta), Ok(1));
}

#[test]
fn test_rpc_get_account_info() {
    let (node, _last_id, _signature) = start_rpc_handler_with_tx();
    let meta = node.meta();
    assert_eq!(
        RpcSolImpl.get_account_info(&meta, BOB.to_string()),
        Ok(Account {
            owner: Pubkey { bytes: [0; 32] },
            tokens: 20,
            userdata: vec![],
            executable: false,
        })
    );
}

#[test]
fn test_rpc_confirm_tx() {
    let (node, _last_id, signature) = start_rpc_handler_with_tx();
    let meta = node.meta();
    assert_eq!(
        RpcSolImpl.confirm_transaction(&meta, signature.to_string()),
        Ok(true)
    );
}

#[test]
fn test_rpc_get_signature_status() {
    let (node, _last_id, signature) = start_rpc_handler_with_tx();
    let meta = node.meta();
    assert_eq!(
        RpcSolImpl.get_signature_status(&meta, signature.to_string()),
        Ok(RpcSignatureStatus::Confirmed)
    );

    // A transaction that was not processed
    let unprocessed = signature_of(10);
    assert_eq!(
        RpcSolImpl.get_signature_status(&meta, unprocessed.to_string()),
        Ok(RpcSignatureStatus::SignatureNotFound)
    );
}

#[test]
fn test_rpc_get_last_id() {
    let (node, last_id, _signature) = start_rpc_handler_with_tx();
    let meta = node.meta();
    assert_eq!(RpcSolImpl.get_last_id(&meta), Ok(last_id.to_string()));
}

#[test]
fn test_rpc_fail_request_airdrop() {
    let (node, last_id, _signature) = start_rpc_handler_with_tx();
    let meta = node.meta();
    let request = RpcSolImpl.request_airdrop(&meta, BOB.to_string(), 50);
    assert_eq!(
        request,
        Ok(AirdropRequest {
            drone_addr: "0.0.0.0:0",
            pubkey: BOB,
            tokens: 50,
            last_id,
        })
    );

    // Expect internal error because no drone is running
    match RpcSolImpl.airdrop_transaction(&meta, None) {
        Err(e) => assert_eq!(e, internal_error()),
        Ok(_) => panic!("an airdrop without a transaction"),
    }
}

#[test]
fn test_rpc_send_bad_tx() {
    let bank = Arc::new(TestBank::genesis(ALICE, 10_000));
    let node = node_of(Some(bank), None);
    let meta = node.meta();
    let data = vec![0, 0, 0, 0, 0, 0, 0, 0];
    let signatures = signatures_in(&data);
    match RpcSolImpl.send_transaction(&meta, data, signatures) {
        Err(e) => assert_eq!(e, invalid_request()),
        Ok(_) => panic!("sent what is no transaction"),
    }
}

#[test]
fn a_serialized_transaction_is_sent_as_it_is() {
    let (node, last_id, signature) = start_rpc_handler_with_tx();
    let meta = node.meta();
    let tx: TestTransaction = (
        vec![signature.bytes.to_vec()],
        vec![ALICE.bytes, BOB.bytes],
        last_id.bytes,
        0,
    );
    let data = bincode::serialize(&tx).unwrap();
    let signatures = signatures_in(&data);
    let outgoing = RpcSolImpl
        .send_transaction(&meta, data.clone(), signatures)
        .ok()
        .unwrap();
    assert_eq!(outgoing.data, data);
    assert_eq!(
        RpcSolImpl.transaction_sent(outgoing, true),
        Ok(signature.to_string())
    );
}

#[test]
fn test_rpc_get_leader_addr() {
    let mut cluster_info = TestCluster { leader: None };
    assert_eq!(
        get_leader_addr(&cluster_info),
        Err(Error {
            code: -32603,
            message: "No leader detected".to_string(),
        })
    );
    cluster_info.leader = Some("127.0.0.1:1234");
    assert_eq!(get_leader_addr(&cluster_info), Ok("127.0.0.1:1234"));
}

#[test]
fn test_rpc_verify_pubkey() {
    let pubkey = key(0x2a);
    assert_eq!(verify_pubkey(pubkey.to_string()).unwrap(), pubkey);
    let bad_pubkey = "a1b2c3d4";
    assert_eq!(
        verify_pubkey(bad_pubkey.to_string()),
        Err(invalid_request())
    );
}

#[test]
fn test_rpc_verify_signature() {
    let signature = signature_of(20);
    assert_eq!(
        verify_signature(&signature.to_string()).unwrap(),
        signature
    );
    let bad_signature = "a1b2c3d4";
    assert_eq!(
        verify_signature(&bad_signature.to_string()),
        Err(invalid_request())
    );
}

#[test]
fn base58_text_is_the_known_one() {
    assert_eq!(Pubkey::default().to_string(), "1".repeat(32));
    let mut pubkey = Pubkey::default();
    pubkey.bytes[24..].copy_from_slice(&[0x04, 0x30, 0x5e, 0x2b, 0x24, 0x73, 0xf0, 0x58]);
    let text = format!("{}he11owor1d", "1".repeat(24));
    assert_eq!(pubkey.to_string(), text);
    assert_eq!(verify_pubkey(text), Ok(pubkey));
    let text = "JEKNVnkbo3jma5nREBBJCDoXFVeKkD56V3xKrvRmWxFG";
    assert_eq!(key(0xff).to_string(), text);
    assert_eq!(verify_pubkey(text.to_string()), Ok(key(0xff)));

    let mut signature = Signature { bytes: [0; 64] };
    for (i, byte) in signature.bytes.iter_mut().enumerate() {
        *byte = i as u8;
    }
    let text =
        "1GMkH3brNXiNNs1tiFZHu4yZSRrzJwxi5wB9bHFtMinfCXNnR1adh8Vo8NTheK4evneedH4qmvjeqcBBNAefgS";
    assert_eq!(signature.to_string(), text);
    assert_eq!(verify_signature(text), Ok(signature));
}

#[test]
fn an_address_has_one_text() {
    let text = key(0xff).to_string();
    assert_eq!(
        verify_pubkey(format!("1{}", text)),
        Err(invalid_request())
    );
    let mut other = text.clone();
    other.replace_range(43.., "F");
    assert_ne!(verify_pubkey(other), Ok(key(0xff)));
}

#[test]
fn text_that_names_no_address_is_refused() {
    for text in ["", "0", "l1", "he11owor1d", "not base58 at all"].iter() {
        assert_eq!(verify_pubkey(text.to_string()), Err(invalid_request()));
        assert_eq!(verify_signature(text), Err(invalid_request()));
    }
    // The bytes of the one are not those of the other.
    assert_eq!(
        verify_pubkey(signature_of(1).to_string()),
        Err(invalid_request())
    );
    assert_eq!(
        verify_signature(&key(1).to_string()),
        Err(invalid_request())
    );
}

#[test]
fn decoded_bytes_are_taken_at_their_length_only() {
    assert_eq!(pubkey_answer(Some(vec![6; 32])), Ok(key(6)));
    assert_eq!(pubkey_answer(Some(vec![6; 31])), Err(invalid_request()));
    assert_eq!(pubkey_answer(Some(vec![6; 33])), Err(invalid_request()));
    assert_eq!(pubkey_answer(None), Err(invalid_request()));
    assert_eq!(
        signature_answer(Some(vec![6; 64])),
        Ok(Signature { bytes: [6; 64] })
    );
    assert_eq!(signature_answer(Some(vec![6; 63])), Err(invalid_request()));
    assert_eq!(signature_answer(Some(vec![6; 65])), Err(invalid_request()));
    assert_eq!(signature_answer(None), Err(invalid_request()));
}

#[test]
fn requests_that_name_nothing_are_invalid() {
    let (node, _last_id, _signature) = start_rpc_handler_with_tx();
    let meta = node.meta();
    let bad = || "a1b2c3d4".to_string();
    assert_eq!(
        RpcSolImpl.get_balance(&meta, bad()),
        Err(invalid_request())
    );
    assert_eq!(
        RpcSolImpl.get_account_info(&meta, bad()),
        Err(invalid_request())
    );
    assert_eq!(
        RpcSolImpl.confirm_transaction(&meta, bad()),
        Err(invalid_request())
    );
    assert_eq!(
        RpcSolImpl.get_signature_status(&meta, bad()),
        Err(invalid_request())
    );
    assert_eq!(
        RpcSolImpl.request_airdrop(&meta, bad(), 1),
        Err(invalid_request())
    );
}

#[test]
fn an_account_that_is_not_there_is_an_invalid_request() {
    let (node, _last_id, _signature) = start_rpc_handler_with_tx();
    let meta = node.meta();
    assert_eq!(
        RpcSolImpl.get_account_info(&meta, key(0x77).to_string()),
        Err(invalid_request())
    );
    assert_eq!(
        RpcSolImpl.get_balance(&meta, key(0x77).to_string()),
        Ok(0)
    );
    assert_eq!(account_answer(None), Err(invalid_request()));
    assert_eq!(account_answer(Some(account_of(1))), Ok(account_of(1)));
}

#[test]
fn without_a_bank_there_are_no_answers() {
    let node = node_of(None, None);
    let meta = node.meta();
    let id = BOB.to_string();
    assert_eq!(RpcSolImpl.get_balance(&meta, id.clone()), Err(no_bank()));
    assert_eq!(
        RpcSolImpl.get_account_info(&meta, id.clone()),
        Err(no_bank())
    );
    assert_eq!(RpcSolImpl.get_last_id(&meta), Err(no_bank()));
    assert_eq!(RpcSolImpl.get_transaction_count(&meta), Err(no_bank()));
    assert_eq!(
        RpcSolImpl.request_airdrop(&meta, id, 1),
        Err(no_bank())
    );
    let signature = signature_of(20).to_string();
    assert_eq!(
        RpcSolImpl.get_signature_status(&meta, signature.clone()),
        Ok(RpcSignatureStatus::SignatureNotFound)
    );
    assert_eq!(
        RpcSolImpl.confirm_transaction(&meta, signature),
        Ok(false)
    );
}

#[test]
fn every_fate_of_a_transaction_has_its_status() {
    let fates = vec![
        (None, RpcSignatureStatus::SignatureNotFound),
        (Some(Ok(())), RpcSignatureStatus::Confirmed),
        (
            Some(Err(BankError::AccountInUse)),
            RpcSignatureStatus::AccountInUse,
        ),
        (
            Some(Err(BankError::AccountLoadedTwice)),
            RpcSignatureStatus::AccountLoadedTwice,
        ),
        (
            Some(Err(BankError::ProgramError(
                0,
                ProgramError::ResultWithNegativeTokens,
            ))),
            RpcSignatureStatus::ProgramRuntimeError,
        ),
        (
            Some(Err(BankError::Other)),
            RpcSignatureStatus::GenericFailure,
        ),
    ];
    for (known, status) in fates {
        assert_eq!(status_answer(known), status);
    }
}

#[test]
fn a_failed_transaction_is_not_confirmed() {
    let bank = Arc::new(TestBank::genesis(ALICE, 5));
    let signature = bank.process_move(ALICE, BOB, 20);
    let node = node_of(Some(bank), None);
    let meta = node.meta();
    assert_eq!(
        RpcSolImpl.get_signature_status(&meta, signature.to_string()),
        Ok(RpcSignatureStatus::ProgramRuntimeError)
    );
    assert_eq!(
        RpcSolImpl.confirm_transaction(&meta, signature.to_string()),
        Ok(false)
    );
}

#[test]
fn storage_requests_need_no_bank() {
    let node = node_of(None, None);
    let meta = node.meta();
    assert_eq!(
        RpcSolImpl.get_storage_mining_last_id(&meta),
        Ok("1".repeat(32))
    );
    assert_eq!(RpcSolImpl.get_storage_mining_entry_height(&meta), Ok(4096));
    assert_eq!(
        RpcSolImpl.get_storage_pubkeys_for_entry_height(&meta, 9),
        Ok(vec![key(9), key(3)])
    );
}

#[test]
fn a_transaction_goes_to_the_leader() {
    let (node, _last_id, _signature) = start_rpc_handler_with_tx();
    let meta = node.meta();
    let data = vec![7; PACKET_DATA_SIZE - 1];
    let signatures = vec![signature_of(1), signature_of(2)];
    let outgoing = RpcSolImpl
        .send_transaction(&meta, data.clone(), Some(signatures.clone()))
        .ok()
        .unwrap();
    assert_eq!(outgoing.data, data);
    assert_eq!(outgoing.to, "127.0.0.1:1234");
    assert_eq!(outgoing.signatures, signatures);
    assert_eq!(
        RpcSolImpl.transaction_sent(outgoing, true),
        Ok(signature_of(1).to_string())
    );
}

#[test]
fn a_transaction_has_to_fit_a_packet() {
    let (node, _last_id, _signature) = start_rpc_handler_with_tx();
    let meta = node.meta();
    let data = vec![7; PACKET_DATA_SIZE];
    match RpcSolImpl.send_transaction(&meta, data, Some(vec![signature_of(1)])) {
        Err(e) => assert_eq!(e, invalid_request()),
        Ok(_) => panic!("sent more than a packet holds"),
    }
}

#[test]
fn without_a_leader_nothing_is_sent() {
    let node = node_of(None, None);
    let meta = node.meta();
    match RpcSolImpl.send_transaction(&meta, vec![7], Some(vec![signature_of(1)])) {
        Err(e) => assert_eq!(e, no_leader()),
        Ok(_) => panic!("sent to nobody"),
    }
    let made = AirdropTransaction {
        signatures: vec![signature_of(1)],
        data: Some(vec![7]),
    };
    match RpcSolImpl.airdrop_transaction(&meta, Some(made)) {
        Err(e) => assert_eq!(e, no_leader()),
        Ok(_) => panic!("sent to nobody"),
    }
    assert_eq!(leader_answer::<u8>(None), Err(no_leader()));
    assert_eq!(leader_answer(Some(NodeInfo { tpu: 5u8 })), Ok(5));
}

#[test]
fn what_was_not_sent_is_an_internal_error() {
    let outgoing = || Outgoing {
        data: vec![7],
        to: "127.0.0.1:1234",
        signatures: vec![],
    };
    assert_eq!(
        RpcSolImpl.transaction_sent(outgoing(), false),
        Err(internal_error())
    );
    assert_eq!(
        RpcSolImpl.airdrop_sent(outgoing(), false),
        Err(internal_error())
    );
}

#[test]
fn an_airdrop_is_answered_with_its_signature() {
    let (node, _last_id, signature) = start_rpc_handler_with_tx();
    let meta = node.meta();
    let made = AirdropTransaction {
        signatures: vec![signature, signature_of(3)],
        data: Some(vec![4; 600]),
    };
    let outgoing = RpcSolImpl
        .airdrop_transaction(&meta, Some(made))
        .ok()
        .unwrap();
    assert_eq!(outgoing.to, "127.0.0.1:1234");
    assert_eq!(outgoing.data, vec![4; 600]);
    let awaited = RpcSolImpl.airdrop_sent(outgoing, true).unwrap();
    assert_eq!(awaited, signature);
    let known = meta.request_processor.get_signature_status(awaited);
    match RpcSolImpl.airdrop_poll(awaited, known, 0) {
        AirdropPoll::Done(r) => assert_eq!(r, Ok(signature.to_string())),
        AirdropPoll::Wait { .. } => panic!("waited for a confirmed airdrop"),
    }
}

#[test]
fn an_airdrop_that_is_not_serialized_is_an_internal_error() {
    let (node, _last_id, _signature) = start_rpc_handler_with_tx();
    let meta = node.meta();
    let made = AirdropTransaction {
        signatures: vec![signature_of(1)],
        data: None,
    };
    match RpcSolImpl.airdrop_transaction(&meta, Some(made)) {
        Err(e) => assert_eq!(e, internal_error()),
        Ok(_) => panic!("sent no bytes"),
    }
}

#[test]
fn an_airdrop_is_waited_for_until_it_is_too_late() {
    let signature = signature_of(1);
    let unconfirmed = vec![None, Some(Err(BankError::AccountInUse))];
    for known in unconfirmed {
        for elapsed_secs in 0..6 {
            match RpcSolImpl.airdrop_poll(signature, known.clone(), elapsed_secs) {
                AirdropPoll::Wait { millis } => assert_eq!(millis, 100),
                AirdropPoll::Done(r) => panic!("{:?}", r),
            }
        }
        match RpcSolImpl.airdrop_poll(signature, known, 6) {
            AirdropPoll::Done(r) => assert_eq!(r, Err(internal_error())),
            AirdropPoll::Wait { .. } => panic!("waited for too long"),
        }
    }
    match RpcSolImpl.airdrop_poll(signature, Some(Ok(())), 100) {
        AirdropPoll::Done(r) => assert_eq!(r, Ok(signature.to_string())),
        AirdropPoll::Wait { .. } => panic!("waited for a confirmed airdrop"),
    }
}

#[test]
fn the_bank_is_the_one_set_last() {
    let first = Arc::new(TestBank::genesis(ALICE, 1));
    let second = Arc::new(TestBank::genesis(ALICE, 2));
    let mut processor = JsonRpcRequestProcessor::<TestBank, TestStorage>::new(TestStorage);
    let without = processor.clone();
    processor.set_bank(&first);
    assert!(Arc::ptr_eq(processor.bank().ok().unwrap(), &first));
    let clone = processor.clone();
    processor.set_bank(&second);
    assert!(Arc::ptr_eq(processor.bank().ok().unwrap(), &second));
    assert!(Arc::ptr_eq(clone.bank().ok().unwrap(), &first));
    assert_eq!(without.bank().err(), Some(no_bank()));
}

#[test]
fn a_clone_answers_as_the_first_does() {
    let (node, _last_id, signature) = start_rpc_handler_with_tx();
    let meta = node.meta();
    let clone = meta.clone();
    assert_eq!(RpcSolImpl.get_balance(&clone, BOB.to_string()), Ok(20));
    assert_eq!(
        RpcSolImpl.confirm_transaction(&clone, signature.to_string()),
        Ok(true)
    );
    assert_eq!(get_leader_addr(clone.cluster_info), Ok("127.0.0.1:1234"));
    assert_eq!(
        (clone.rpc_addr, clone.drone_addr),
        ("0.0.0.0:0", "0.0.0.0:0")
    );
}

#[test]
fn clones_share_the_processor() {
    let mut node = node_of(None, None);
    let bank = Arc::new(TestBank::genesis(ALICE, 10_000));
    {
        let meta = node.meta();
        let clone = meta.clone();
        assert_eq!(RpcSolImpl.get_last_id(&meta), Err(no_bank()));
        assert_eq!(RpcSolImpl.get_last_id(&clone), Err(no_bank()));
        assert!(std::ptr::eq(meta.request_processor, clone.request_processor));
        assert!(std::ptr::eq(meta.cluster_info, clone.cluster_info));
    }
    node.request_processor.set_bank(&bank);
    let meta = node.meta();
    let clone = meta.clone();
    assert_eq!(RpcSolImpl.get_transaction_count(&meta), Ok(0));
    bank.process_move(ALICE, BOB, 20);
    assert_eq!(RpcSolImpl.get_transaction_count(&meta), Ok(1));
    assert_eq!(RpcSolImpl.get_transaction_count(&clone), Ok(1));
}

#[test]
fn only_what_is_ready_goes_to_the_leader() {
    assert_eq!(
        checked_transaction(vec![1], None).err(),
        Some(invalid_request())
    );
    assert_eq!(
        checked_transaction(vec![1; 512], Some(vec![])).err(),
        Some(invalid_request())
    );
    let prepared = checked_transaction(vec![1; 511], Some(vec![signature_of(1)]))
        .ok()
        .unwrap();
    assert_eq!(prepared.data, vec![1; 511]);
    let cluster_info = TestCluster {
        leader: Some("127.0.0.1:1234"),
    };
    let outgoing = to_leader(&cluster_info, prepared).ok().unwrap();
    assert_eq!(outgoing.to, "127.0.0.1:1234");
    assert_eq!(outgoing.signatures, vec![signature_of(1)]);

    assert_eq!(made_transaction(None).err(), Some(internal_error()));
    let made = AirdropTransaction {
        signatures: vec![signature_of(2)],
        data: Some(vec![3; 600]),
    };
    let prepared = made_transaction(Some(made)).ok().unwrap();
    assert_eq!(prepared.data, vec![3; 600]);
    assert_eq!(prepared.signatures, vec![signature_of(2)]);
}

#[test]
fn the_drone_that_is_asked_is_the_nodes() {
    let (node, last_id, _signature) = start_rpc_handler_with_tx();
    let mut meta = node.meta();
    meta.drone_addr = "10.0.0.7:9900";
    assert_eq!(
        RpcSolImpl.request_airdrop(&meta, BOB.to_string(), 3),
        Ok(AirdropRequest {
            drone_addr: "10.0.0.7:9900",
            pubkey: BOB,
            tokens: 3,
            last_id,
        })
    );
}
