//! Laws of the requests that a node answers.
use crate::account::Account;
use crate::base58::{
    base58_decoded, base58_encoded, law_decoding_undoes_encoding, law_encoding_undoes_decoding,
};
use crate::pubkey::{lemma_pubkey_determined, Pubkey, Signature};
use crate::rpc::{
    account_answer, checked_transaction, get_leader_addr, leader_answer, pubkey_answer,
    signature_answer, status_answer, to_leader, verify_pubkey, verify_signature,
    JsonRpcRequestProcessor, Meta, Outgoing, Prepared, RpcSignatureStatus, RpcSolImpl,
};
use crate::rpc_error::Error;
use crate::services::{Bank, BankError, ClusterInfo, NodeInfo, StorageState};
use std::sync::Arc;
use vstd::prelude::*;

verus! {

/// Whether `r` is the error for a request that cannot be right.
pub open spec fn is_invalid_request<T>(r: Result<T, Error>) -> bool {
    r matches Err(e) && e.code == -32600 && e.message@ == "Invalid request"@
}

/// Whether `r` is the error for a request that could not be served.
pub open spec fn is_internal_error<T>(r: Result<T, Error>) -> bool {
    r matches Err(e) && e.code == -32603 && e.message@ == "Internal error"@
}

/// Whether `r` is the error for a request that needs a bank where there is none.
pub open spec fn is_no_bank<T>(r: Result<T, Error>) -> bool {
    r matches Err(e) && e.code == -32603 && e.message@ == "No bank available"@
}

/// Whether `r` is the error for a request that needs a leader where none is known.
pub open spec fn is_no_leader<T>(r: Result<T, Error>) -> bool {
    r matches Err(e) && e.code == -32603 && e.message@ == "No leader detected"@
}

/// Whether a text is base58 for so many bytes.
pub open spec fn names_bytes(text: Seq<char>, n: nat) -> bool {
    base58_decoded(text) matches Some(bytes) && bytes.len() == n
}

/// Whether the status tells what is known: a signature is not found exactly where nothing is known,
/// confirmed exactly where the transaction was carried out, and each failure has its own status.
pub open spec fn status_tells(
    status: RpcSignatureStatus,
    known: Option<Result<(), BankError>>,
) -> bool {
    &&& status is SignatureNotFound <==> known is None
    &&& status is Confirmed <==> (known matches Some(Ok(_)))
    &&& status is AccountInUse <==> (known matches Some(Err(BankError::AccountInUse)))
    &&& status is AccountLoadedTwice <==> (known matches Some(Err(BankError::AccountLoadedTwice)))
    &&& status is ProgramRuntimeError <==> (known matches Some(Err(BankError::ProgramError(_, _))))
    &&& status is GenericFailure <==> (known matches Some(Err(BankError::Other)))
}

/// Two signatures with the same bytes are the same signature.
proof fn lemma_signature_determined(a: Signature, b: Signature)
    requires
        a.bytes@ == b.bytes@,
    ensures
        a == b,
{
    assert forall|i: int| 0 <= i < 64 implies a.bytes[i] == b.bytes[i] by {
        assert(a.bytes@[i] == b.bytes@[i]);
    }
    assert(a.bytes =~= b.bytes);
}

/// The status tells what is known of a transaction.
pub proof fn law_status_tells_what_is_known(
    known: Option<Result<(), BankError>>,
    r: RpcSignatureStatus,
)
    requires
        call_ensures(status_answer, (known,), r),
    ensures
        status_tells(r, known),
{
}

/// An account that was found is answered as it is, and one that was not is an invalid request.
pub proof fn law_account_is_answered_as_found(found: Option<Account>, r: Result<Account, Error>)
    requires
        call_ensures(account_answer, (found,), r),
    ensures
        match found {
            Some(b) => {
                &&& r matches Ok(a)
                &&& a.tokens == b.tokens
                &&& a.userdata@ == b.userdata@
                &&& a.owner.bytes@ == b.owner.bytes@
                &&& a.executable == b.executable
            },
            None => is_invalid_request(r),
        },
{
}

/// The leader is where it takes transactions, and to know none is an error.
pub proof fn law_leader_is_answered_as_known<A>(
    leader: Option<NodeInfo<A>>,
    r: Result<A, Error>,
)
    requires
        call_ensures(leader_answer::<A>, (leader,), r),
    ensures
        match leader {
            Some(node) => r matches Ok(to) && to == node.tpu,
            None => is_no_leader(r),
        },
{
}

/// The leader's address is one that the cluster can give, and is refused only where the cluster can
/// know no leader.
pub proof fn law_leader_is_the_clusters<C: ClusterInfo>(cluster_info: C, r: Result<C::Addr, Error>)
    requires
        call_ensures(get_leader_addr::<C>, (&cluster_info,), r),
    ensures
        r matches Ok(to) ==> exists|node: NodeInfo<C::Addr>|
            node.tpu == to && #[trigger] call_ensures(
                C::leader_data,
                (&cluster_info,),
                Some(node),
            ),
        r is Err ==> is_no_leader(r) && call_ensures(
            C::leader_data,
            (&cluster_info,),
            None::<NodeInfo<C::Addr>>,
        ),
{
}

/// Decoded bytes are an address exactly where there are 32 of them, and a signature exactly where
/// there are 64. Everything else is an invalid request.
pub proof fn law_decoded_bytes_are_taken_whole(
    decoded: Option<Vec<u8>>,
    pubkey: Result<Pubkey, Error>,
    signature: Result<Signature, Error>,
)
    requires
        call_ensures(pubkey_answer, (decoded,), pubkey),
        call_ensures(signature_answer, (decoded,), signature),
    ensures
        pubkey is Ok <==> decoded is Some && decoded->0@.len() == 32,
        pubkey matches Ok(p) ==> decoded matches Some(bytes) && p.bytes@ == bytes@,
        pubkey is Err ==> is_invalid_request(pubkey),
        signature is Ok <==> decoded is Some && decoded->0@.len() == 64,
        signature matches Ok(s) ==> decoded matches Some(bytes) && s.bytes@ == bytes@,
        signature is Err ==> is_invalid_request(signature),
{
}

/// A text is taken for an address exactly where it is the text of an address, and then for that
/// one. Everything else is an invalid request.
pub proof fn law_text_names_its_address(
    pubkey: Pubkey,
    text: String,
    input: String,
    r: Result<Pubkey, Error>,
)
    requires
        call_ensures(Pubkey::to_string, (&pubkey,), text),
        call_ensures(verify_pubkey, (input,), r),
    ensures
        r == Ok::<Pubkey, Error>(pubkey) <==> input@ == text@,
        r is Ok <==> names_bytes(input@, 32),
        r is Err ==> is_invalid_request(r),
        r matches Ok(p) ==> base58_decoded(input@) == Some(p.bytes@) && input@ == base58_encoded(
            p.bytes@,
        ),
{
    law_decoding_undoes_encoding(pubkey.bytes@);
    if r is Ok {
        law_encoding_undoes_decoding(input@, r->Ok_0.bytes@);
        if input@ == text@ {
            lemma_pubkey_determined(r->Ok_0, pubkey);
        }
    }
}

/// A text is taken for a signature exactly where it is the text of a signature, and then for that
/// one. Everything else is an invalid request.
pub proof fn law_text_names_its_signature(
    signature: Signature,
    text: String,
    input: &str,
    r: Result<Signature, Error>,
)
    requires
        call_ensures(Signature::to_string, (&signature,), text),
        call_ensures(verify_signature, (input,), r),
    ensures
        r == Ok::<Signature, Error>(signature) <==> input@ == text@,
        r is Ok <==> names_bytes(input@, 64),
        r is Err ==> is_invalid_request(r),
        r matches Ok(s) ==> base58_decoded(input@) == Some(s.bytes@) && input@ == base58_encoded(
            s.bytes@,
        ),
{
    law_decoding_undoes_encoding(signature.bytes@);
    if r is Ok {
        law_encoding_undoes_decoding(input@, r->Ok_0.bytes@);
        if input@ == text@ {
            lemma_signature_determined(r->Ok_0, signature);
        }
    }
}

/// A new processor has no bank, and answers for the storage that it is given.
pub proof fn law_new_processor_has_no_bank<B: Bank, S: StorageState>(
    storage_state: S,
    processor: JsonRpcRequestProcessor<B, S>,
    bank: Result<&Arc<B>, Error>,
    last_id: Result<String, Error>,
    height: Result<u64, Error>,
    entry_height: u64,
    miners: Result<Vec<Pubkey>, Error>,
)
    requires
        call_ensures(JsonRpcRequestProcessor::<B, S>::new, (storage_state,), processor),
        call_ensures(JsonRpcRequestProcessor::<B, S>::bank, (&processor,), bank),
        call_ensures(
            JsonRpcRequestProcessor::<B, S>::get_storage_mining_last_id,
            (&processor,),
            last_id,
        ),
        call_ensures(
            JsonRpcRequestProcessor::<B, S>::get_storage_mining_entry_height,
            (&processor,),
            height,
        ),
        call_ensures(
            JsonRpcRequestProcessor::<B, S>::get_storage_pubkeys_for_entry_height,
            (&processor, entry_height),
            miners,
        ),
    ensures
        is_no_bank(bank),
        answers_storage(storage_state, last_id, height, entry_height, miners),
{
    lemma_storage(processor, last_id, height, entry_height, miners);
}

/// Whether these are what a storage state can answer: a hash as text that decodes to it, a height,
/// and the miners of an entry.
pub open spec fn answers_storage<S: StorageState>(
    storage_state: S,
    last_id: Result<String, Error>,
    height: Result<u64, Error>,
    entry_height: u64,
    miners: Result<Vec<Pubkey>, Error>,
) -> bool {
    &&& last_id matches Ok(text) && exists|id: crate::pubkey::Hash| #[trigger]
        call_ensures(S::get_last_id, (&storage_state,), id) && base58_decoded(text@) == Some(
            id.bytes@,
        )
    &&& height matches Ok(h) && call_ensures(S::get_entry_height, (&storage_state,), h)
    &&& miners matches Ok(m) && call_ensures(
        S::get_pubkeys_for_entry_height,
        (&storage_state, entry_height),
        m,
    )
}

proof fn lemma_storage<B: Bank, S: StorageState>(
    processor: JsonRpcRequestProcessor<B, S>,
    last_id: Result<String, Error>,
    height: Result<u64, Error>,
    entry_height: u64,
    miners: Result<Vec<Pubkey>, Error>,
)
    requires
        processor.mining_last_id_reply(last_id),
        processor.mining_height_reply(height),
        processor.miners_reply(entry_height, miners),
    ensures
        answers_storage(processor.held_storage(), last_id, height, entry_height, miners),
{
    let storage_state = processor.held_storage();
    let id = choose|id: crate::pubkey::Hash| #[trigger]
        call_ensures(S::get_last_id, (&storage_state,), id) && last_id->Ok_0@ == base58_encoded(
            id@,
        );
    law_decoding_undoes_encoding(id.bytes@);
    assert(call_ensures(S::get_last_id, (&storage_state,), id));
    assert(base58_decoded(last_id->Ok_0@) == Some(id.bytes@));
}

/// The bank that is set is the one that the processor then gives, and setting it leaves the
/// storage. A clone gives the same bank.
pub proof fn law_bank_that_is_set_is_given<B: Bank, S: StorageState + Clone>(
    processor: &mut JsonRpcRequestProcessor<B, S>,
    bank: Arc<B>,
    given: Result<&Arc<B>, Error>,
    clone: JsonRpcRequestProcessor<B, S>,
    given_by_clone: Result<&Arc<B>, Error>,
    height: Result<u64, Error>,
)
    requires
        call_ensures(JsonRpcRequestProcessor::<B, S>::set_bank, (processor, &bank), ()),
        call_ensures(JsonRpcRequestProcessor::<B, S>::bank, (&*final(processor),), given),
        call_ensures(
            <JsonRpcRequestProcessor<B, S> as Clone>::clone,
            (&*final(processor),),
            clone,
        ),
        call_ensures(JsonRpcRequestProcessor::<B, S>::bank, (&clone,), given_by_clone),
        call_ensures(
            JsonRpcRequestProcessor::<B, S>::get_storage_mining_entry_height,
            (&*final(processor),),
            height,
        ),
    ensures
        given matches Ok(b) && **b == *bank,
        given_by_clone matches Ok(b) && **b == *bank,
        height matches Ok(h) && call_ensures(
            S::get_entry_height,
            (&old(processor).held_storage(),),
            h,
        ),
{
}

/// Whether these are what the bank can answer: the account at the address with all its fields, or
/// an invalid request where it has none; the tokens there; the last hash, as text that decodes to
/// it; the number of transactions; and what became of a transaction.
pub open spec fn answers_from_bank<B: Bank>(
    bank: B,
    pubkey: Pubkey,
    signature: Signature,
    account: Result<Account, Error>,
    balance: Result<u64, Error>,
    last_id: Result<String, Error>,
    count: Result<u64, Error>,
    known: Option<Result<(), BankError>>,
) -> bool {
    &&& gives_account(bank, pubkey, account)
    &&& balance matches Ok(tokens) && call_ensures(B::get_balance, (&bank, &pubkey), tokens)
    &&& gives_last_id(bank, last_id)
    &&& count matches Ok(n) && exists|c: usize| #[trigger]
        call_ensures(B::transaction_count, (&bank,), c) && n == c
    &&& call_ensures(B::get_signature_status, (&bank, &signature), known)
}

/// Whether `r` is an account that the bank can give at the address, with all its fields, or an
/// invalid request where it can have none.
pub open spec fn gives_account<B: Bank>(
    bank: B,
    pubkey: Pubkey,
    r: Result<Account, Error>,
) -> bool {
    match r {
        Ok(a) => exists|b: Account| #[trigger]
            call_ensures(B::get_account, (&bank, &pubkey), Some(b)) && a.tokens == b.tokens
                && a.userdata@ == b.userdata@ && a.owner.bytes@ == b.owner.bytes@ && a.executable
                == b.executable,
        Err(_) => is_invalid_request(r) && call_ensures(
            B::get_account,
            (&bank, &pubkey),
            None::<Account>,
        ),
    }
}

/// Whether `r` is the text of a hash that the bank can give as its last: decoding it gives the hash.
pub open spec fn gives_last_id<B: Bank>(bank: B, r: Result<String, Error>) -> bool {
    r matches Ok(text) && exists|id: crate::pubkey::Hash| #[trigger]
        call_ensures(B::last_id, (&bank,), id) && base58_decoded(text@) == Some(id.bytes@)
}

proof fn lemma_gives_account<B: Bank, S: StorageState>(
    processor: JsonRpcRequestProcessor<B, S>,
    pubkey: Pubkey,
    r: Result<Account, Error>,
)
    requires
        processor.held_bank() is Some,
        processor.account_reply(pubkey, r),
    ensures
        gives_account(processor.held_bank()->0, pubkey, r),
{
    let bank = processor.held_bank()->0;
    match r {
        Ok(a) => {
            let found = choose|found: Option<Account>| #[trigger]
                call_ensures(B::get_account, (&bank, &pubkey), found) && (match found {
                    Some(account) => r == Ok::<Account, Error>(account),
                    None => false,
                });
            assert(call_ensures(B::get_account, (&bank, &pubkey), Some(a)));
        },
        Err(_) => {},
    }
}

proof fn lemma_gives_last_id<B: Bank, S: StorageState>(
    processor: JsonRpcRequestProcessor<B, S>,
    r: Result<String, Error>,
)
    requires
        processor.held_bank() is Some,
        processor.last_id_reply(r),
    ensures
        gives_last_id(processor.held_bank()->0, r),
{
    let bank = processor.held_bank()->0;
    let text = r->Ok_0;
    let id = choose|id: crate::pubkey::Hash| #[trigger]
        call_ensures(B::last_id, (&bank,), id) && text@ == base58_encoded(id@);
    law_decoding_undoes_encoding(id.bytes@);
    assert(call_ensures(B::last_id, (&bank,), id));
    assert(base58_decoded(text@) == Some(id.bytes@));
}

/// A processor that has a bank answers from that bank, and one that has none answers that there is
/// none, and that nothing is known of any transaction.
pub proof fn law_processor_answers_from_its_bank<B: Bank, S: StorageState>(
    processor: JsonRpcRequestProcessor<B, S>,
    bank: Result<&Arc<B>, Error>,
    pubkey: Pubkey,
    signature: Signature,
    account: Result<Account, Error>,
    balance: Result<u64, Error>,
    last_id: Result<String, Error>,
    count: Result<u64, Error>,
    known: Option<Result<(), BankError>>,
)
    requires
        call_ensures(JsonRpcRequestProcessor::<B, S>::bank, (&processor,), bank),
        call_ensures(
            JsonRpcRequestProcessor::<B, S>::get_account_info,
            (&processor, pubkey),
            account,
        ),
        call_ensures(JsonRpcRequestProcessor::<B, S>::get_balance, (&processor, pubkey), balance),
        call_ensures(JsonRpcRequestProcessor::<B, S>::get_last_id, (&processor,), last_id),
        call_ensures(
            JsonRpcRequestProcessor::<B, S>::get_transaction_count,
            (&processor,),
            count,
        ),
        call_ensures(
            JsonRpcRequestProcessor::<B, S>::get_signature_status,
            (&processor, signature),
            known,
        ),
    ensures
        bank matches Ok(b) ==> answers_from_bank(
            **b,
            pubkey,
            signature,
            account,
            balance,
            last_id,
            count,
            known,
        ),
        bank is Err ==> {
            &&& is_no_bank(bank)
            &&& is_no_bank(account)
            &&& is_no_bank(balance)
            &&& is_no_bank(last_id)
            &&& is_no_bank(count)
            &&& known is None
        },
{
    match bank {
        Ok(b) => {
            lemma_gives_account(processor, pubkey, account);
            lemma_gives_last_id(processor, last_id);
        },
        Err(_) => {},
    }
}

/// Requests that name an address are answered from the bank for the address whose text they hold,
/// and are invalid where they hold the text of none.
pub proof fn law_address_requests_are_answered_for_the_address<
    B: Bank,
    S: StorageState,
    C: ClusterInfo,
>(
    rpc: RpcSolImpl,
    meta: Meta<'_, B, S, C>,
    bank: Result<&Arc<B>, Error>,
    pubkey: Pubkey,
    id: String,
    account: Result<Account, Error>,
    balance: Result<u64, Error>,
)
    requires
        call_ensures(JsonRpcRequestProcessor::<B, S>::bank, (meta.request_processor,), bank),
        call_ensures(RpcSolImpl::get_account_info::<B, S, C>, (&rpc, &meta, id), account),
        call_ensures(RpcSolImpl::get_balance::<B, S, C>, (&rpc, &meta, id), balance),
    ensures
        !names_bytes(id@, 32) ==> is_invalid_request(account) && is_invalid_request(balance),
        id@ == base58_encoded(pubkey.bytes@) ==> match bank {
            Ok(b) => {
                &&& gives_account(**b, pubkey, account)
                &&& balance matches Ok(tokens) && call_ensures(
                    B::get_balance,
                    (&**b, &pubkey),
                    tokens,
                )
            },
            Err(_) => is_no_bank(account) && is_no_bank(balance),
        },
{
    if id@ == base58_encoded(pubkey.bytes@) {
        law_decoding_undoes_encoding(pubkey.bytes@);
        let processor = *meta.request_processor;
        let p = choose|p: Pubkey|
            p@ == pubkey@ && #[trigger] processor.account_reply(p, account);
        lemma_pubkey_determined(p, pubkey);
        let q = choose|q: Pubkey|
            q@ == pubkey@ && #[trigger] processor.balance_reply(q, balance);
        lemma_pubkey_determined(q, pubkey);
        if bank is Ok {
            lemma_gives_account(processor, pubkey, account);
        }
    }
}

/// Requests that name a signature are answered from the bank for the signature whose text they
/// hold: the status tells what the bank can know, and confirmed is what was carried out. They are
/// invalid where they hold the text of no signature, and without a bank nothing is found.
pub proof fn law_signature_requests_are_answered_for_the_signature<
    B: Bank,
    S: StorageState,
    C: ClusterInfo,
>(
    rpc: RpcSolImpl,
    meta: Meta<'_, B, S, C>,
    bank: Result<&Arc<B>, Error>,
    signature: Signature,
    id: String,
    status: Result<RpcSignatureStatus, Error>,
    confirmed: Result<bool, Error>,
)
    requires
        call_ensures(JsonRpcRequestProcessor::<B, S>::bank, (meta.request_processor,), bank),
        call_ensures(RpcSolImpl::get_signature_status::<B, S, C>, (&rpc, &meta, id), status),
        call_ensures(RpcSolImpl::confirm_transaction::<B, S, C>, (&rpc, &meta, id), confirmed),
    ensures
        !names_bytes(id@, 64) ==> is_invalid_request(status) && is_invalid_request(confirmed),
        id@ == base58_encoded(signature.bytes@) ==> match bank {
            Ok(b) => {
                &&& status matches Ok(s) && exists|known: Option<Result<(), BankError>>| #[trigger]
                    call_ensures(B::get_signature_status, (&**b, &signature), known)
                        && status_tells(s, known)
                &&& confirmed matches Ok(c) && exists|known: Option<Result<(), BankError>>|
                    #[trigger]
                    call_ensures(B::get_signature_status, (&**b, &signature), known) && (c <==> (
                    known matches Some(Ok(_))))
            },
            Err(_) => {
                &&& status matches Ok(s) && s is SignatureNotFound
                &&& confirmed matches Ok(c) && !c
            },
        },
{
    if id@ == base58_encoded(signature.bytes@) {
        law_decoding_undoes_encoding(signature.bytes@);
        let processor = *meta.request_processor;
        let (s, known) = choose|s: Signature, known: Option<Result<(), BankError>>|
            {
                &&& s@ == signature@
                &&& #[trigger] processor.status_reply(s, known)
                &&& status == Ok::<RpcSignatureStatus, Error>(crate::rpc::status_of(known))
            };
        lemma_signature_determined(s, signature);
        let (t, seen) = choose|t: Signature, seen: Option<Result<(), BankError>>|
            {
                &&& t@ == signature@
                &&& #[trigger] processor.status_reply(t, seen)
                &&& confirmed == Ok::<bool, Error>(
                    crate::rpc::status_of(seen) == RpcSignatureStatus::Confirmed,
                )
            };
        lemma_signature_determined(t, signature);
        if bank is Ok {
            let b = **bank->Ok_0;
            assert(call_ensures(B::get_signature_status, (&b, &signature), known));
            assert(call_ensures(B::get_signature_status, (&b, &signature), seen));
        }
    }
}

/// Requests that name nothing are answered from the bank and from the storage.
pub proof fn law_other_requests_are_answered_from_the_node<
    B: Bank,
    S: StorageState,
    C: ClusterInfo,
>(
    rpc: RpcSolImpl,
    meta: Meta<'_, B, S, C>,
    bank: Result<&Arc<B>, Error>,
    last_id: Result<String, Error>,
    count: Result<u64, Error>,
    mining_last_id: Result<String, Error>,
    height: Result<u64, Error>,
    entry_height: u64,
    miners: Result<Vec<Pubkey>, Error>,
)
    requires
        call_ensures(JsonRpcRequestProcessor::<B, S>::bank, (meta.request_processor,), bank),
        call_ensures(RpcSolImpl::get_last_id::<B, S, C>, (&rpc, &meta), last_id),
        call_ensures(RpcSolImpl::get_transaction_count::<B, S, C>, (&rpc, &meta), count),
        call_ensures(
            RpcSolImpl::get_storage_mining_last_id::<B, S, C>,
            (&rpc, &meta),
            mining_last_id,
        ),
        call_ensures(
            RpcSolImpl::get_storage_mining_entry_height::<B, S, C>,
            (&rpc, &meta),
            height,
        ),
        call_ensures(
            RpcSolImpl::get_storage_pubkeys_for_entry_height::<B, S, C>,
            (&rpc, &meta, entry_height),
            miners,
        ),
    ensures
        match bank {
            Ok(b) => {
                &&& gives_last_id(**b, last_id)
                &&& count matches Ok(n) && exists|c: usize| #[trigger]
                    call_ensures(B::transaction_count, (&**b,), c) && n == c
            },
            Err(_) => is_no_bank(last_id) && is_no_bank(count),
        },
        answers_storage(
            meta.request_processor.held_storage(),
            mining_last_id,
            height,
            entry_height,
            miners,
        ),
{
    let processor = *meta.request_processor;
    if bank is Ok {
        lemma_gives_last_id(processor, last_id);
    }
    lemma_storage(processor, mining_last_id, height, entry_height, miners);
}

/// A clone answers from the same processor and the same cluster, and has the same addresses.
pub proof fn law_clones_are_the_same<'a, B, S, C: ClusterInfo>(
    meta: Meta<'a, B, S, C>,
    r: Meta<'a, B, S, C>,
)
    requires
        call_ensures(<Meta<'a, B, S, C> as Clone>::clone, (&meta,), r),
    ensures
        r.request_processor == meta.request_processor,
        r.cluster_info == meta.cluster_info,
        r.rpc_addr == meta.rpc_addr,
        r.drone_addr == meta.drone_addr,
{
}

/// A transaction that is handed in may be sent exactly where its bytes hold one and are fewer than
/// 512, and then it is what was handed in. Everything else is an invalid request.
pub proof fn law_transactions_fit_a_packet(
    data: Vec<u8>,
    signatures: Option<Vec<Signature>>,
    r: Result<Prepared, Error>,
)
    requires
        call_ensures(checked_transaction, (data, signatures), r),
    ensures
        r is Ok <==> signatures is Some && data@.len() < 512,
        r is Err ==> is_invalid_request(r),
        r matches Ok(p) ==> p.data@ == data@ && p.signatures@ == signatures->0@,
{
}

/// Whether `r` is on its way, with these bytes and signatures, to a leader that the cluster can
/// give, or is refused where the cluster can know none.
pub open spec fn goes_to_the_leader<C: ClusterInfo>(
    cluster_info: C,
    data: Seq<u8>,
    signatures: Seq<Signature>,
    r: Result<Outgoing<C::Addr>, Error>,
) -> bool {
    match r {
        Ok(out) => {
            &&& out.data@ == data
            &&& out.signatures@ == signatures
            &&& exists|node: NodeInfo<C::Addr>|
                node.tpu == out.to && #[trigger] call_ensures(
                    C::leader_data,
                    (&cluster_info,),
                    Some(node),
                )
        },
        Err(_) => is_no_leader(r) && call_ensures(
            C::leader_data,
            (&cluster_info,),
            None::<NodeInfo<C::Addr>>,
        ),
    }
}

/// A prepared transaction goes to the leader as it is.
pub proof fn law_prepared_transaction_goes_to_the_leader<C: ClusterInfo>(
    cluster_info: C,
    prepared: Prepared,
    r: Result<Outgoing<C::Addr>, Error>,
)
    requires
        call_ensures(to_leader::<C>, (&cluster_info, prepared), r),
    ensures
        goes_to_the_leader(cluster_info, prepared.data@, prepared.signatures@, r),
{
}

/// A transaction that is handed in goes to the leader as it is, exactly where it may be sent.
pub proof fn law_transaction_goes_to_the_leader<B: Bank, S: StorageState, C: ClusterInfo>(
    rpc: RpcSolImpl,
    meta: Meta<'_, B, S, C>,
    data: Vec<u8>,
    signatures: Option<Vec<Signature>>,
    r: Result<Outgoing<C::Addr>, Error>,
)
    requires
        call_ensures(
            RpcSolImpl::send_transaction::<B, S, C>,
            (&rpc, &meta, data, signatures),
            r,
        ),
    ensures
        signatures is None || data@.len() >= 512 ==> is_invalid_request(r),
        signatures is Some && data@.len() < 512 ==> goes_to_the_leader(
            *meta.cluster_info,
            data@,
            signatures->0@,
            r,
        ),
{
}

/// A transaction that was sent is answered with the text of its first signature, and one that was
/// not is an internal error.
pub proof fn law_sent_transaction_is_answered_with_its_signature<A>(
    rpc: RpcSolImpl,
    outgoing: Outgoing<A>,
    sent: bool,
    r: Result<String, Error>,
)
    requires
        sent ==> outgoing.signatures@.len() > 0,
        call_ensures(RpcSolImpl::transaction_sent::<A>, (&rpc, outgoing, sent), r),
    ensures
        sent ==> {
            &&& r matches Ok(text)
            &&& base58_decoded(text@) == Some(outgoing.signatures@[0].bytes@)
        },
        !sent ==> is_internal_error(r),
{
    if sent {
        law_decoding_undoes_encoding(outgoing.signatures@[0].bytes@);
    }
}

/// Every request is taken, whatever it holds, and every answer to what was sent that has a
/// signature to give.
pub proof fn law_every_request_is_taken<B: Bank, S: StorageState, C: ClusterInfo>(
    rpc: RpcSolImpl,
    meta: Meta<'_, B, S, C>,
    id: String,
    text: &str,
    entry_height: u64,
    data: Vec<u8>,
    signatures: Option<Vec<Signature>>,
    known: Option<Result<(), BankError>>,
    outgoing: Outgoing<C::Addr>,
    sent: bool,
)
    ensures
        call_requires(verify_pubkey, (id,)),
        call_requires(verify_signature, (text,)),
        call_requires(status_answer, (known,)),
        call_requires(checked_transaction, (data, signatures)),
        call_requires(get_leader_addr::<C>, (meta.cluster_info,)),
        call_requires(RpcSolImpl::confirm_transaction::<B, S, C>, (&rpc, &meta, id)),
        call_requires(RpcSolImpl::get_account_info::<B, S, C>, (&rpc, &meta, id)),
        call_requires(RpcSolImpl::get_balance::<B, S, C>, (&rpc, &meta, id)),
        call_requires(RpcSolImpl::get_last_id::<B, S, C>, (&rpc, &meta)),
        call_requires(RpcSolImpl::get_signature_status::<B, S, C>, (&rpc, &meta, id)),
        call_requires(RpcSolImpl::get_transaction_count::<B, S, C>, (&rpc, &meta)),
        call_requires(
            RpcSolImpl::send_transaction::<B, S, C>,
            (&rpc, &meta, data, signatures),
        ),
        call_requires(RpcSolImpl::get_storage_mining_last_id::<B, S, C>, (&rpc, &meta)),
        call_requires(RpcSolImpl::get_storage_mining_entry_height::<B, S, C>, (&rpc, &meta)),
        call_requires(
            RpcSolImpl::get_storage_pubkeys_for_entry_height::<B, S, C>,
            (&rpc, &meta, entry_height),
        ),
        (sent ==> outgoing.signatures@.len() > 0) ==> call_requires(
            RpcSolImpl::transaction_sent::<C::Addr>,
            (&rpc, outgoing, sent),
        ),
{
}

} // verus!
