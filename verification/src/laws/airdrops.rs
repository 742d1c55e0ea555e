//! Laws of the steps of an airdrop.
use crate::airdrop::{made_transaction, AirdropPoll, AirdropRequest, AirdropTransaction};
use crate::base58::{base58_decoded, base58_encoded, law_decoding_undoes_encoding};
use crate::laws::requests::{
    goes_to_the_leader, is_internal_error, is_invalid_request, is_no_bank, names_bytes,
};
use crate::pubkey::{lemma_pubkey_determined, Pubkey, Signature};
use crate::rpc::{JsonRpcRequestProcessor, Meta, Outgoing, Prepared, RpcSolImpl};
use crate::rpc_error::Error;
use crate::services::{Bank, BankError, ClusterInfo, StorageState};
use std::sync::Arc;
use vstd::prelude::*;

verus! {

/// The node's drone is asked for the tokens, for the address whose text the request holds and with
/// a hash that the bank can give as its last. The request is invalid where it holds the text of no
/// address, and without a bank it is answered that there is none.
pub proof fn law_drone_is_asked_for_the_address<B: Bank, S: StorageState, C: ClusterInfo>(
    rpc: RpcSolImpl,
    meta: Meta<'_, B, S, C>,
    bank: Result<&Arc<B>, Error>,
    pubkey: Pubkey,
    id: String,
    tokens: u64,
    r: Result<AirdropRequest<C::Addr>, Error>,
)
    requires
        call_ensures(JsonRpcRequestProcessor::<B, S>::bank, (meta.request_processor,), bank),
        call_ensures(RpcSolImpl::request_airdrop::<B, S, C>, (&rpc, &meta, id, tokens), r),
    ensures
        !names_bytes(id@, 32) ==> is_invalid_request(r),
        id@ == base58_encoded(pubkey.bytes@) ==> match bank {
            Ok(b) => {
                &&& r matches Ok(request)
                &&& request.drone_addr == meta.drone_addr
                &&& request.pubkey == pubkey
                &&& request.tokens == tokens
                &&& call_ensures(B::last_id, (&**b,), request.last_id)
            },
            Err(_) => is_no_bank(r),
        },
{
    if id@ == base58_encoded(pubkey.bytes@) {
        law_decoding_undoes_encoding(pubkey.bytes@);
        if r is Ok {
            lemma_pubkey_determined(r->Ok_0.pubkey, pubkey);
        }
    }
}

/// What the drone made may be sent as it is exactly where it made a transaction and that was
/// serialized. Else there is an internal error.
pub proof fn law_made_transaction_may_be_sent(
    made: Option<AirdropTransaction>,
    r: Result<Prepared, Error>,
)
    requires
        call_ensures(made_transaction, (made,), r),
    ensures
        r is Ok <==> made is Some && made->0.data is Some,
        r is Err ==> is_internal_error(r),
        r matches Ok(p) ==> {
            &&& p.data@ == made->0.data->0@
            &&& p.signatures@ == made->0.signatures@
        },
{
}

/// What the drone made goes to the leader as it is, exactly where it may be sent.
pub proof fn law_made_transaction_goes_to_the_leader<B: Bank, S: StorageState, C: ClusterInfo>(
    rpc: RpcSolImpl,
    meta: Meta<'_, B, S, C>,
    made: Option<AirdropTransaction>,
    r: Result<Outgoing<C::Addr>, Error>,
)
    requires
        call_ensures(RpcSolImpl::airdrop_transaction::<B, S, C>, (&rpc, &meta, made), r),
    ensures
        made is None || made->0.data is None ==> is_internal_error(r),
        made is Some && made->0.data is Some ==> goes_to_the_leader(
            *meta.cluster_info,
            made->0.data->0@,
            made->0.signatures@,
            r,
        ),
{
}

/// Once a transaction was sent its first signature is waited for. That it was not sent is an
/// internal error.
pub proof fn law_first_signature_is_awaited<A>(
    rpc: RpcSolImpl,
    outgoing: Outgoing<A>,
    sent: bool,
    r: Result<Signature, Error>,
)
    requires
        sent ==> outgoing.signatures@.len() > 0,
        call_ensures(RpcSolImpl::airdrop_sent::<A>, (&rpc, outgoing, sent), r),
    ensures
        sent ==> {
            &&& r matches Ok(signature)
            &&& signature.bytes@ == outgoing.signatures@[0].bytes@
        },
        !sent ==> is_internal_error(r),
{
}

/// An airdrop is answered with the text of its signature as soon as it is known to be carried out.
/// Until more than five seconds have passed it is looked at again after a tenth of a second, and
/// then there is an internal error.
pub proof fn law_airdrop_is_awaited_for_five_seconds(
    rpc: RpcSolImpl,
    signature: Signature,
    known: Option<Result<(), BankError>>,
    elapsed_secs: u64,
    r: AirdropPoll,
)
    requires
        call_ensures(RpcSolImpl::airdrop_poll, (&rpc, signature, known, elapsed_secs), r),
    ensures
        match known {
            Some(Ok(_)) => {
                &&& r matches AirdropPoll::Done(Ok(text))
                &&& base58_decoded(text@) == Some(signature.bytes@)
            },
            _ => {
                &&& elapsed_secs > 5 ==> {
                    &&& r matches AirdropPoll::Done(answer)
                    &&& is_internal_error(answer)
                }
                &&& elapsed_secs <= 5 ==> {
                    &&& r matches AirdropPoll::Wait { millis }
                    &&& millis == 100
                }
            },
        },
{
    law_decoding_undoes_encoding(signature.bytes@);
}

/// Every step of an airdrop is taken, whatever came back from the one before, where what was sent
/// has a signature to wait for.
pub proof fn law_every_step_is_taken<B: Bank, S: StorageState, C: ClusterInfo>(
    rpc: RpcSolImpl,
    meta: Meta<'_, B, S, C>,
    id: String,
    tokens: u64,
    made: Option<AirdropTransaction>,
    outgoing: Outgoing<C::Addr>,
    sent: bool,
    signature: Signature,
    known: Option<Result<(), BankError>>,
    elapsed_secs: u64,
)
    ensures
        call_requires(RpcSolImpl::request_airdrop::<B, S, C>, (&rpc, &meta, id, tokens)),
        call_requires(made_transaction, (made,)),
        call_requires(RpcSolImpl::airdrop_transaction::<B, S, C>, (&rpc, &meta, made)),
        (sent ==> outgoing.signatures@.len() > 0) ==> call_requires(
            RpcSolImpl::airdrop_sent::<C::Addr>,
            (&rpc, outgoing, sent),
        ),
        call_requires(RpcSolImpl::airdrop_poll, (&rpc, signature, known, elapsed_secs)),
{
}

} // verus!
