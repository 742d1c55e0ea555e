//! The requests that a node answers.
use crate::account::Account;
use crate::base58::{base58_decode, base58_encoded, named};
use crate::pubkey::{Pubkey, Signature, PUBKEY_BYTES, SIGNATURE_BYTES};
use crate::rpc_error::{
    fails_with, internal_error_view, invalid_request_view, no_bank_view, no_leader_view, Error,
};
use crate::services::{Bank, BankError, ClusterInfo, NodeInfo, StorageState};
use std::sync::Arc;
use vstd::prelude::*;

verus! {

/// `Arc::clone`: another pointer to the same bank.
#[verifier::external_body]
fn shared<B>(bank: &Arc<B>) -> (r: Arc<B>)
    ensures
        r == *bank,
{
    bank.clone()
}

/// Answers requests from the bank, once there is one, and from what storage mining works on.
pub struct JsonRpcRequestProcessor<B, S> {
    bank: Option<Arc<B>>,
    storage_state: S,
}

impl<B: Bank, S: StorageState> JsonRpcRequestProcessor<B, S> {
    /// The bank, if there is one.
    pub closed spec fn held_bank(&self) -> Option<B> {
        match self.bank {
            Some(bank) => Some(*bank),
            None => None,
        }
    }

    /// What storage mining works on.
    pub closed spec fn held_storage(&self) -> S {
        self.storage_state
    }

    /// Whether `r` is the bank, or the error for a request that needs one where there is none.
    pub open spec fn bank_reply(&self, r: Result<&Arc<B>, Error>) -> bool {
        match self.held_bank() {
            Some(bank) => r matches Ok(b) && **b == bank,
            None => fails_with(r, no_bank_view()),
        }
    }

    /// The bank, or the error for a request that needs one where there is none.
    pub fn bank(&self) -> (r: Result<&Arc<B>, Error>)
        ensures
            self.bank_reply(r),
    {
        match &self.bank {
            Some(bank) => Ok(bank),
            None => Err(Error::no_bank()),
        }
    }

    /// Answers from `bank` from now on.
    pub fn set_bank(&mut self, bank: &Arc<B>)
        ensures
            final(self).held_bank() == Some(**bank),
            final(self).held_storage() == old(self).held_storage(),
    {
        self.bank = Some(shared(bank));
    }

    /// A processor without a bank.
    pub fn new(storage_state: S) -> (r: Self)
        ensures
            r.held_bank() is None,
            r.held_storage() == storage_state,
    {
        JsonRpcRequestProcessor { bank: None, storage_state }
    }

    /// Whether `r` answers a request for the account at `pubkey`.
    pub open spec fn account_reply(&self, pubkey: Pubkey, r: Result<Account, Error>) -> bool {
        match self.held_bank() {
            Some(bank) => exists|found: Option<Account>| #[trigger]
                call_ensures(B::get_account, (&bank, &pubkey), found) && is_account_answer(
                    found,
                    r,
                ),
            None => fails_with(r, no_bank_view()),
        }
    }

    /// The account at `pubkey`.
    pub fn get_account_info(&self, pubkey: Pubkey) -> (r: Result<Account, Error>)
        ensures
            self.account_reply(pubkey, r),
    {
        match self.bank() {
            Ok(bank) => account_answer(bank.get_account(&pubkey)),
            Err(e) => Err(e),
        }
    }

    /// Whether `r` answers a request for the tokens at `pubkey`.
    pub open spec fn balance_reply(&self, pubkey: Pubkey, r: Result<u64, Error>) -> bool {
        match self.held_bank() {
            Some(bank) => r matches Ok(tokens) && call_ensures(
                B::get_balance,
                (&bank, &pubkey),
                tokens,
            ),
            None => fails_with(r, no_bank_view()),
        }
    }

    /// The tokens at `pubkey`.
    pub fn get_balance(&self, pubkey: Pubkey) -> (r: Result<u64, Error>)
        ensures
            self.balance_reply(pubkey, r),
    {
        match self.bank() {
            Ok(bank) => Ok(bank.get_balance(&pubkey)),
            Err(e) => Err(e),
        }
    }

    /// Whether `r` answers a request for the last entry's hash.
    pub open spec fn last_id_reply(&self, r: Result<String, Error>) -> bool {
        match self.held_bank() {
            Some(bank) => r matches Ok(text) && exists|id: crate::pubkey::Hash| #[trigger]
                call_ensures(B::last_id, (&bank,), id) && text@ == base58_encoded(id@),
            None => fails_with(r, no_bank_view()),
        }
    }

    /// The last entry's hash, as text.
    pub fn get_last_id(&self) -> (r: Result<String, Error>)
        ensures
            self.last_id_reply(r),
    {
        match self.bank() {
            Ok(bank) => {
                let id = bank.last_id();
                Ok(id.to_string())
            },
            Err(e) => Err(e),
        }
    }

    /// Whether `r` is what is known of the transaction that `signature` signs. Without a bank
    /// nothing is known.
    pub open spec fn status_reply(
        &self,
        signature: Signature,
        r: Option<Result<(), BankError>>,
    ) -> bool {
        match self.held_bank() {
            Some(bank) => call_ensures(B::get_signature_status, (&bank, &signature), r),
            None => r is None,
        }
    }

    /// What became of the transaction that `signature` signs.
    pub fn get_signature_status(&self, signature: Signature) -> (r: Option<Result<(), BankError>>)
        ensures
            self.status_reply(signature, r),
    {
        match self.bank() {
            Ok(bank) => bank.get_signature_status(&signature),
            Err(_) => None,
        }
    }

    /// Whether `r` answers a request for the number of transactions.
    pub open spec fn count_reply(&self, r: Result<u64, Error>) -> bool {
        match self.held_bank() {
            Some(bank) => r matches Ok(n) && exists|count: usize| #[trigger]
                call_ensures(B::transaction_count, (&bank,), count) && n == count,
            None => fails_with(r, no_bank_view()),
        }
    }

    /// How many transactions the bank has carried out.
    pub fn get_transaction_count(&self) -> (r: Result<u64, Error>)
        ensures
            self.count_reply(r),
    {
        match self.bank() {
            Ok(bank) => Ok(bank.transaction_count() as u64),
            Err(e) => Err(e),
        }
    }

    /// Whether `r` answers a request for the hash to mine with.
    pub open spec fn mining_last_id_reply(&self, r: Result<String, Error>) -> bool {
        r matches Ok(text) && exists|id: crate::pubkey::Hash| #[trigger]
            call_ensures(S::get_last_id, (&self.held_storage(),), id) && text@ == base58_encoded(
                id@,
            )
    }

    /// The hash to mine with, as text.
    pub fn get_storage_mining_last_id(&self) -> (r: Result<String, Error>)
        ensures
            self.mining_last_id_reply(r),
    {
        let id = self.storage_state.get_last_id();
        proof {
            assert(call_ensures(S::get_last_id, (&self.held_storage(),), id));
        }
        Ok(id.to_string())
    }

    /// Whether `r` answers a request for the height of the entry to mine for.
    pub open spec fn mining_height_reply(&self, r: Result<u64, Error>) -> bool {
        r matches Ok(height) && call_ensures(
            S::get_entry_height,
            (&self.held_storage(),),
            height,
        )
    }

    /// The height of the entry to mine for.
    pub fn get_storage_mining_entry_height(&self) -> (r: Result<u64, Error>)
        ensures
            self.mining_height_reply(r),
    {
        Ok(self.storage_state.get_entry_height())
    }

    /// Whether `r` answers a request for the miners of the segment of an entry.
    pub open spec fn miners_reply(
        &self,
        entry_height: u64,
        r: Result<Vec<Pubkey>, Error>,
    ) -> bool {
        r matches Ok(miners) && call_ensures(
            S::get_pubkeys_for_entry_height,
            (&self.held_storage(), entry_height),
            miners,
        )
    }

    /// The miners that store the segment of an entry.
    pub fn get_storage_pubkeys_for_entry_height(&self, entry_height: u64) -> (r: Result<
        Vec<Pubkey>,
        Error,
    >)
        ensures
            self.miners_reply(entry_height, r),
    {
        Ok(self.storage_state.get_pubkeys_for_entry_height(entry_height))
    }
}

impl<B: Bank, S: StorageState + Clone> Clone for JsonRpcRequestProcessor<B, S> {
    /// A processor that answers from the same bank.
    fn clone(&self) -> (r: Self)
        ensures
            r.held_bank() == self.held_bank(),
            call_ensures(S::clone, (&self.held_storage(),), r.held_storage()),
    {
        let bank = match &self.bank {
            Some(bank) => Some(shared(bank)),
            None => None,
        };
        let storage_state = self.storage_state.clone();
        proof {
            assert(call_ensures(S::clone, (&self.held_storage(),), storage_state));
        }
        JsonRpcRequestProcessor { bank, storage_state }
    }
}

/// Whether `r` is the account that the bank found, or the error for having found none.
pub open spec fn is_account_answer(found: Option<Account>, r: Result<Account, Error>) -> bool {
    match found {
        Some(account) => r == Ok::<Account, Error>(account),
        None => fails_with(r, invalid_request_view()),
    }
}

/// The account that the bank found. To ask for one that is not there is an invalid request.
pub fn account_answer(found: Option<Account>) -> (r: Result<Account, Error>)
    ensures
        is_account_answer(found, r),
{
    match found {
        Some(account) => Ok(account),
        None => Err(Error::invalid_request()),
    }
}

/// Whether `r` is where the leader takes transactions, or the error for not knowing a leader.
pub open spec fn is_leader_answer<A>(leader: Option<NodeInfo<A>>, r: Result<A, Error>) -> bool {
    match leader {
        Some(node) => r == Ok::<A, Error>(node.tpu),
        None => fails_with(r, no_leader_view()),
    }
}

/// Where the leader takes transactions.
pub fn leader_answer<A>(leader: Option<NodeInfo<A>>) -> (r: Result<A, Error>)
    ensures
        is_leader_answer(leader, r),
{
    match leader {
        Some(node) => Ok(node.tpu),
        None => Err(Error::no_leader()),
    }
}

/// Where the leader of the cluster takes transactions.
pub fn get_leader_addr<C: ClusterInfo>(cluster_info: &C) -> (r: Result<C::Addr, Error>)
    ensures
        exists|leader: Option<NodeInfo<C::Addr>>| #[trigger]
            call_ensures(C::leader_data, (cluster_info,), leader) && is_leader_answer(leader, r),
{
    leader_answer(cluster_info.leader_data())
}

/// The address made of what a text decoded to. Anything but the bytes of an address is an invalid
/// request.
pub fn pubkey_answer(decoded: Option<Vec<u8>>) -> (r: Result<Pubkey, Error>)
    ensures
        match decoded {
            Some(bytes) => if bytes@.len() == 32 {
                r matches Ok(pubkey) && pubkey@ == bytes@
            } else {
                fails_with(r, invalid_request_view())
            },
            None => fails_with(r, invalid_request_view()),
        },
{
    match decoded {
        Some(pubkey_vec) => {
            if pubkey_vec.len() != PUBKEY_BYTES {
                Err(Error::invalid_request())
            } else {
                Ok(Pubkey::new(pubkey_vec.as_slice()))
            }
        },
        None => Err(Error::invalid_request()),
    }
}

/// The address that `input` names.
pub fn verify_pubkey(input: String) -> (r: Result<Pubkey, Error>)
    ensures
        match named(input@, 32) {
            Some(bytes) => r matches Ok(pubkey) && pubkey@ == bytes,
            None => fails_with(r, invalid_request_view()),
        },
{
    pubkey_answer(base58_decode(input.as_str()))
}

/// The signature made of what a text decoded to. Anything but the bytes of a signature is an
/// invalid request.
pub fn signature_answer(decoded: Option<Vec<u8>>) -> (r: Result<Signature, Error>)
    ensures
        match decoded {
            Some(bytes) => if bytes@.len() == 64 {
                r matches Ok(signature) && signature@ == bytes@
            } else {
                fails_with(r, invalid_request_view())
            },
            None => fails_with(r, invalid_request_view()),
        },
{
    match decoded {
        Some(signature_vec) => {
            if signature_vec.len() != SIGNATURE_BYTES {
                Err(Error::invalid_request())
            } else {
                Ok(Signature::new(signature_vec.as_slice()))
            }
        },
        None => Err(Error::invalid_request()),
    }
}

/// The signature that `input` names.
pub fn verify_signature(input: &str) -> (r: Result<Signature, Error>)
    ensures
        match named(input@, 64) {
            Some(bytes) => r matches Ok(signature) && signature@ == bytes,
            None => fails_with(r, invalid_request_view()),
        },
{
    signature_answer(base58_decode(input))
}

/// What a request is told of a transaction.
#[derive(Clone, Copy, Debug, PartialEq, Eq, Structural)]
pub enum RpcSignatureStatus {
    AccountInUse,
    AccountLoadedTwice,
    Confirmed,
    GenericFailure,
    ProgramRuntimeError,
    SignatureNotFound,
}

/// What a request is told where this is known of the transaction.
pub open spec fn status_of(known: Option<Result<(), BankError>>) -> RpcSignatureStatus {
    match known {
        None => RpcSignatureStatus::SignatureNotFound,
        Some(Ok(_)) => RpcSignatureStatus::Confirmed,
        Some(Err(BankError::AccountInUse)) => RpcSignatureStatus::AccountInUse,
        Some(Err(BankError::AccountLoadedTwice)) => RpcSignatureStatus::AccountLoadedTwice,
        Some(Err(BankError::ProgramError(_, _))) => RpcSignatureStatus::ProgramRuntimeError,
        Some(Err(BankError::Other)) => RpcSignatureStatus::GenericFailure,
    }
}

/// What a request is told where this is known of the transaction.
pub fn status_answer(known: Option<Result<(), BankError>>) -> (r: RpcSignatureStatus)
    ensures
        r == status_of(known),
{
    match known {
        None => RpcSignatureStatus::SignatureNotFound,
        Some(Ok(_)) => RpcSignatureStatus::Confirmed,
        Some(Err(BankError::AccountInUse)) => RpcSignatureStatus::AccountInUse,
        Some(Err(BankError::AccountLoadedTwice)) => RpcSignatureStatus::AccountLoadedTwice,
        Some(Err(BankError::ProgramError(_, _))) => RpcSignatureStatus::ProgramRuntimeError,
        Some(Err(BankError::Other)) => RpcSignatureStatus::GenericFailure,
    }
}

/// What requests are answered from. The processor and the cluster are shared with whoever else is
/// answering.
pub struct Meta<'a, B, S, C: ClusterInfo> {
    pub request_processor: &'a JsonRpcRequestProcessor<B, S>,
    pub cluster_info: &'a C,
    pub rpc_addr: C::Addr,
    pub drone_addr: C::Addr,
}

impl<'a, B, S, C: ClusterInfo> Clone for Meta<'a, B, S, C> {
    /// Another that answers from the same processor and the same cluster.
    fn clone(&self) -> (r: Self)
        ensures
            r == *self,
    {
        Meta {
            request_processor: self.request_processor,
            cluster_info: self.cluster_info,
            rpc_addr: self.rpc_addr,
            drone_addr: self.drone_addr,
        }
    }
}

/// The number of bytes of a packet. A transaction has to be shorter.
pub const PACKET_DATA_SIZE: usize = 512;

/// A transaction that is to be sent: its bytes, where to, and its signatures.
pub struct Outgoing<A> {
    pub data: Vec<u8>,
    pub to: A,
    pub signatures: Vec<Signature>,
}

/// Whether `r` is a transaction on its way to the leader, or the error for not knowing one.
pub open spec fn is_outgoing<C: ClusterInfo>(
    cluster_info: C,
    data: Seq<u8>,
    signatures: Seq<Signature>,
    r: Result<Outgoing<C::Addr>, Error>,
) -> bool {
    exists|leader: Option<NodeInfo<C::Addr>>| #[trigger]
        call_ensures(C::leader_data, (&cluster_info,), leader) && match leader {
            Some(node) => r matches Ok(out) && out.data@ == data && out.to == node.tpu
                && out.signatures@ == signatures,
            None => fails_with(r, no_leader_view()),
        }
}

/// A transaction that may be sent: its bytes and its signatures.
pub struct Prepared {
    pub data: Vec<u8>,
    pub signatures: Vec<Signature>,
}

/// Addresses a transaction to the leader.
pub fn to_leader<C: ClusterInfo>(cluster_info: &C, prepared: Prepared) -> (r: Result<
    Outgoing<C::Addr>,
    Error,
>)
    ensures
        is_outgoing(*cluster_info, prepared.data@, prepared.signatures@, r),
{
    match get_leader_addr(cluster_info) {
        Ok(to) => Ok(Outgoing { data: prepared.data, to, signatures: prepared.signatures }),
        Err(e) => Err(e),
    }
}

/// The transaction that was handed in as `data`, where `signatures` are those of the transaction
/// that the bytes hold, if they hold one. What holds none, or does not fit a packet, is an invalid
/// request.
pub fn checked_transaction(data: Vec<u8>, signatures: Option<Vec<Signature>>) -> (r: Result<
    Prepared,
    Error,
>)
    ensures
        match signatures {
            Some(signatures) if data@.len() < PACKET_DATA_SIZE => r == Ok::<Prepared, Error>(
                Prepared { data, signatures },
            ),
            _ => fails_with(r, invalid_request_view()),
        },
{
    let signatures = match signatures {
        Some(signatures) => signatures,
        None => return Err(Error::invalid_request()),
    };
    if data.len() >= PACKET_DATA_SIZE {
        return Err(Error::invalid_request());
    }
    Ok(Prepared { data, signatures })
}

/// Whether `r` is the transaction that was handed in as `data` on its way to the leader, or the
/// error for its being none, for its not fitting a packet or for not knowing a leader.
pub open spec fn is_transaction_outgoing<C: ClusterInfo>(
    cluster_info: C,
    data: Seq<u8>,
    signatures: Option<Vec<Signature>>,
    r: Result<Outgoing<C::Addr>, Error>,
) -> bool {
    match signatures {
        None => fails_with(r, invalid_request_view()),
        Some(signatures) => if data.len() >= PACKET_DATA_SIZE {
            fails_with(r, invalid_request_view())
        } else {
            is_outgoing(cluster_info, data, signatures@, r)
        },
    }
}

/// Whether `r` is the text of the first of the signatures, or the error for their transaction not
/// being sent.
pub open spec fn is_sent_answer(
    signatures: Seq<Signature>,
    sent: bool,
    r: Result<String, Error>,
) -> bool {
    if sent {
        r matches Ok(text) && text@ == base58_encoded(signatures[0]@)
    } else {
        fails_with(r, internal_error_view())
    }
}

/// Answers requests.
pub struct RpcSolImpl;

impl RpcSolImpl {
    /// Whether the transaction whose signature `id` names is confirmed.
    pub fn confirm_transaction<B: Bank, S: StorageState, C: ClusterInfo>(
        &self,
        meta: &Meta<'_, B, S, C>,
        id: String,
    ) -> (r: Result<bool, Error>)
        ensures
            match named(id@, 64) {
                Some(bytes) => exists|signature: Signature, known: Option<Result<(), BankError>>|
                    {
                        &&& signature@ == bytes
                        &&& #[trigger] meta.request_processor.status_reply(signature, known)
                        &&& r == Ok::<bool, Error>(status_of(known) == RpcSignatureStatus::Confirmed)
                    },
                None => fails_with(r, invalid_request_view()),
            },
    {
        match self.get_signature_status(meta, id) {
            Ok(status) => Ok(status == RpcSignatureStatus::Confirmed),
            Err(e) => Err(e),
        }
    }

    /// The account at the address that `id` names.
    pub fn get_account_info<B: Bank, S: StorageState, C: ClusterInfo>(
        &self,
        meta: &Meta<'_, B, S, C>,
        id: String,
    ) -> (r: Result<Account, Error>)
        ensures
            match named(id@, 32) {
                Some(bytes) => exists|pubkey: Pubkey|
                    pubkey@ == bytes && #[trigger] meta.request_processor.account_reply(pubkey, r),
                None => fails_with(r, invalid_request_view()),
            },
    {
        match verify_pubkey(id) {
            Ok(pubkey) => meta.request_processor.get_account_info(pubkey),
            Err(e) => Err(e),
        }
    }

    /// The tokens at the address that `id` names.
    pub fn get_balance<B: Bank, S: StorageState, C: ClusterInfo>(
        &self,
        meta: &Meta<'_, B, S, C>,
        id: String,
    ) -> (r: Result<u64, Error>)
        ensures
            match named(id@, 32) {
                Some(bytes) => exists|pubkey: Pubkey|
                    pubkey@ == bytes && #[trigger] meta.request_processor.balance_reply(pubkey, r),
                None => fails_with(r, invalid_request_view()),
            },
    {
        match verify_pubkey(id) {
            Ok(pubkey) => meta.request_processor.get_balance(pubkey),
            Err(e) => Err(e),
        }
    }

    /// The last entry's hash, as text.
    pub fn get_last_id<B: Bank, S: StorageState, C: ClusterInfo>(&self, meta: &Meta<'_, B, S, C>) -> (r:
        Result<String, Error>)
        ensures
            meta.request_processor.last_id_reply(r),
    {
        meta.request_processor.get_last_id()
    }

    /// What became of the transaction whose signature `id` names.
    pub fn get_signature_status<B: Bank, S: StorageState, C: ClusterInfo>(
        &self,
        meta: &Meta<'_, B, S, C>,
        id: String,
    ) -> (r: Result<RpcSignatureStatus, Error>)
        ensures
            match named(id@, 64) {
                Some(bytes) => exists|signature: Signature, known: Option<Result<(), BankError>>|
                    {
                        &&& signature@ == bytes
                        &&& #[trigger] meta.request_processor.status_reply(signature, known)
                        &&& r == Ok::<RpcSignatureStatus, Error>(status_of(known))
                    },
                None => fails_with(r, invalid_request_view()),
            },
    {
        match verify_signature(id.as_str()) {
            Ok(signature) => {
                let res = meta.request_processor.get_signature_status(signature);
                Ok(status_answer(res))
            },
            Err(e) => Err(e),
        }
    }

    /// How many transactions the bank has carried out.
    pub fn get_transaction_count<B: Bank, S: StorageState, C: ClusterInfo>(
        &self,
        meta: &Meta<'_, B, S, C>,
    ) -> (r: Result<u64, Error>)
        ensures
            meta.request_processor.count_reply(r),
    {
        meta.request_processor.get_transaction_count()
    }

    /// What has to be sent for a transaction that was handed in as `data`, where `signatures` are
    /// those of the transaction that the bytes hold, if they hold one.
    pub fn send_transaction<B: Bank, S: StorageState, C: ClusterInfo>(
        &self,
        meta: &Meta<'_, B, S, C>,
        data: Vec<u8>,
        signatures: Option<Vec<Signature>>,
    ) -> (r: Result<Outgoing<C::Addr>, Error>)
        ensures
            is_transaction_outgoing(*meta.cluster_info, data@, signatures, r),
    {
        match checked_transaction(data, signatures) {
            Ok(prepared) => to_leader(meta.cluster_info, prepared),
            Err(e) => Err(e),
        }
    }

    /// The answer to a request to send a transaction, once it is known whether it was sent: its
    /// first signature, as text.
    pub fn transaction_sent<A>(&self, outgoing: Outgoing<A>, sent: bool) -> (r: Result<
        String,
        Error,
    >)
        requires
            sent ==> outgoing.signatures@.len() > 0,
        ensures
            is_sent_answer(outgoing.signatures@, sent, r),
    {
        if sent {
            Ok(outgoing.signatures[0].to_string())
        } else {
            Err(Error::internal_error())
        }
    }

    /// The hash to mine with, as text.
    pub fn get_storage_mining_last_id<B: Bank, S: StorageState, C: ClusterInfo>(
        &self,
        meta: &Meta<'_, B, S, C>,
    ) -> (r: Result<String, Error>)
        ensures
            meta.request_processor.mining_last_id_reply(r),
    {
        meta.request_processor.get_storage_mining_last_id()
    }

    /// The height of the entry to mine for.
    pub fn get_storage_mining_entry_height<B: Bank, S: StorageState, C: ClusterInfo>(
        &self,
        meta: &Meta<'_, B, S, C>,
    ) -> (r: Result<u64, Error>)
        ensures
            meta.request_processor.mining_height_reply(r),
    {
        meta.request_processor.get_storage_mining_entry_height()
    }

    /// The miners that store the segment of an entry.
    pub fn get_storage_pubkeys_for_entry_height<B: Bank, S: StorageState, C: ClusterInfo>(
        &self,
        meta: &Meta<'_, B, S, C>,
        entry_height: u64,
    ) -> (r: Result<Vec<Pubkey>, Error>)
        ensures
            meta.request_processor.miners_reply(entry_height, r),
    {
        meta.request_processor.get_storage_pubkeys_for_entry_height(entry_height)
    }
}

/// A transaction is confirmed exactly where it is known to have been carried out.
pub proof fn law_confirmed_means_carried_out(known: Option<Result<(), BankError>>)
    ensures
        status_of(known) == RpcSignatureStatus::Confirmed <==> known matches Some(Ok(_)),
{
}

/// Without a bank no signature is found, and every request for what the bank holds is answered
/// with the error that there is none.
pub proof fn law_without_bank_nothing_is_found<B: Bank, S: StorageState>(
    processor: JsonRpcRequestProcessor<B, S>,
    pubkey: Pubkey,
    signature: Signature,
    known: Option<Result<(), BankError>>,
    account: Result<Account, Error>,
    balance: Result<u64, Error>,
    last_id: Result<String, Error>,
    count: Result<u64, Error>,
)
    requires
        processor.held_bank() is None,
        processor.status_reply(signature, known),
        processor.account_reply(pubkey, account),
        processor.balance_reply(pubkey, balance),
        processor.last_id_reply(last_id),
        processor.count_reply(count),
    ensures
        status_of(known) == RpcSignatureStatus::SignatureNotFound,
        fails_with(account, no_bank_view()),
        fails_with(balance, no_bank_view()),
        fails_with(last_id, no_bank_view()),
        fails_with(count, no_bank_view()),
{
}

/// What is sent for a transaction that was handed in is what was handed in, it fits a packet, and
/// the answer is the text of the transaction's first signature.
pub proof fn law_sent_transaction_is_the_one_handed_in<C: ClusterInfo>(
    cluster_info: C,
    data: Seq<u8>,
    signatures: Option<Vec<Signature>>,
    outgoing: Outgoing<C::Addr>,
    text: String,
)
    requires
        is_transaction_outgoing(cluster_info, data, signatures, Ok(outgoing)),
        is_sent_answer(outgoing.signatures@, true, Ok(text)),
    ensures
        outgoing.data@ == data,
        data.len() < PACKET_DATA_SIZE,
        signatures matches Some(signatures) && text@ == base58_encoded(signatures@[0]@),
{
}

/// What may happen to a processor.
pub enum ProcessorStep<B> {
    /// `set_bank` is called with this bank.
    Given(B),
    /// A clone goes on in its place.
    Cloned,
}

/// Whether a step leads from one processor to the other, as `set_bank` and `clone` say.
pub open spec fn is_step<B: Bank, S: StorageState>(
    before: JsonRpcRequestProcessor<B, S>,
    step: ProcessorStep<B>,
    after: JsonRpcRequestProcessor<B, S>,
) -> bool {
    match step {
        ProcessorStep::Given(bank) => after.held_bank() == Some(bank),
        ProcessorStep::Cloned => after.held_bank() == before.held_bank(),
    }
}

/// The bank that was set last, if one was.
pub open spec fn last_set<B>(steps: Seq<ProcessorStep<B>>) -> Option<B>
    decreases steps.len(),
{
    if steps.len() == 0 {
        None
    } else {
        match steps.last() {
            ProcessorStep::Given(bank) => Some(bank),
            ProcessorStep::Cloned => last_set(steps.drop_last()),
        }
    }
}

/// However often a processor that was made without a bank is given one and is cloned, it has the
/// bank that was set last, and lacks one exactly where none was ever set.
pub proof fn law_bank_is_the_one_set_last<B: Bank, S: StorageState>(
    processors: Seq<JsonRpcRequestProcessor<B, S>>,
    steps: Seq<ProcessorStep<B>>,
    r: Result<&Arc<B>, Error>,
)
    requires
        processors.len() == steps.len() + 1,
        processors[0].held_bank() is None,
        forall|i: int|
            0 <= i < steps.len() ==> is_step(processors[i], #[trigger] steps[i], processors[i + 1]),
        processors.last().bank_reply(r),
    ensures
        processors.last().held_bank() == last_set(steps),
        fails_with(r, no_bank_view()) <==> forall|i: int|
            0 <= i < steps.len() ==> #[trigger] steps[i] is Cloned,
        match last_set(steps) {
            Some(bank) => r matches Ok(b) && **b == bank,
            None => fails_with(r, no_bank_view()),
        },
{
    lemma_last_set(processors, steps);
    lemma_none_set(steps);
}

proof fn lemma_last_set<B: Bank, S: StorageState>(
    processors: Seq<JsonRpcRequestProcessor<B, S>>,
    steps: Seq<ProcessorStep<B>>,
)
    requires
        processors.len() == steps.len() + 1,
        processors[0].held_bank() is None,
        forall|i: int|
            0 <= i < steps.len() ==> is_step(processors[i], #[trigger] steps[i], processors[i + 1]),
    ensures
        processors.last().held_bank() == last_set(steps),
    decreases steps.len(),
{
    if steps.len() > 0 {
        let last = steps.len() - 1;
        assert forall|i: int| 0 <= i < last implies is_step(
            processors.drop_last()[i],
            #[trigger] steps.drop_last()[i],
            processors.drop_last()[i + 1],
        ) by {
            assert(steps.drop_last()[i] == steps[i]);
        }
        lemma_last_set(processors.drop_last(), steps.drop_last());
        assert(is_step(processors[last], steps[last], processors[last + 1]));
    }
}

proof fn lemma_none_set<B>(steps: Seq<ProcessorStep<B>>)
    ensures
        last_set(steps) is None <==> forall|i: int|
            0 <= i < steps.len() ==> #[trigger] steps[i] is Cloned,
    decreases steps.len(),
{
    if steps.len() > 0 {
        let front = steps.drop_last();
        lemma_none_set(front);
        assert(steps[steps.len() - 1] == steps.last());
        assert forall|i: int| 0 <= i < front.len() implies #[trigger] front[i] == steps[i] by {}
        if last_set(steps) is None {
            assert forall|i: int| 0 <= i < steps.len() implies #[trigger] steps[i] is Cloned by {
                if i < front.len() {
                    assert(front[i] is Cloned);
                }
            }
        }
    }
}

} // verus!
