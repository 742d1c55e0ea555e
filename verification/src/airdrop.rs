//! Airdrops: tokens that the drone hands out on request.
//!
//! A request goes through four steps. The drone is asked for a transaction (`request_airdrop`), the
//! transaction goes to the leader (`airdrop_transaction`), whether it was sent decides what is
//! waited for (`airdrop_sent`), and what is known of it is looked at until the request can be
//! answered (`airdrop_poll`).
use crate::base58::{base58_encoded, named};
use crate::pubkey::{Pubkey, Signature};
use crate::rpc::{is_outgoing, to_leader, verify_pubkey, Meta, Outgoing, Prepared, RpcSolImpl};
use crate::rpc_error::{
    fails_with, internal_error_view, invalid_request_view, no_bank_view, Error,
};
use crate::services::{Bank, BankError, ClusterInfo, StorageState};
use vstd::prelude::*;

verus! {

/// What a drone is asked for, and where that drone is.
#[derive(Clone, Copy, Debug, PartialEq, Eq)]
pub struct AirdropRequest<A> {
    pub drone_addr: A,
    pub pubkey: Pubkey,
    pub tokens: u64,
    pub last_id: crate::pubkey::Hash,
}

/// A transaction that the drone made: its signatures, and its bytes if it could be serialized.
pub struct AirdropTransaction {
    pub signatures: Vec<Signature>,
    pub data: Option<Vec<u8>>,
}

/// For how many seconds an airdrop is waited for.
pub const AIRDROP_TIMEOUT_SECS: u64 = 5;

/// How many milliseconds pass between two looks at what became of an airdrop.
pub const AIRDROP_POLL_MILLIS: u64 = 100;

/// What to do after a look at what became of an airdrop.
pub enum AirdropPoll {
    /// The request is answered with this.
    Done(Result<String, Error>),
    /// Wait so many milliseconds, then look again.
    Wait { millis: u64 },
}

/// How waiting for an airdrop goes on.
pub enum PollOutcome {
    Confirmed,
    TimedOut,
    Wait,
}

/// How waiting for an airdrop goes on where this is known of it and so many seconds have passed.
pub open spec fn poll_outcome(
    known: Option<Result<(), BankError>>,
    elapsed_secs: u64,
) -> PollOutcome {
    if known matches Some(Ok(_)) {
        PollOutcome::Confirmed
    } else if elapsed_secs > AIRDROP_TIMEOUT_SECS {
        PollOutcome::TimedOut
    } else {
        PollOutcome::Wait
    }
}

/// Whether `r` is the drone's transaction on its way to the leader, or the error for there being
/// none, for its not being serialized or for not knowing a leader.
pub open spec fn is_airdrop_outgoing<C: ClusterInfo>(
    cluster_info: C,
    made: Option<AirdropTransaction>,
    r: Result<Outgoing<C::Addr>, Error>,
) -> bool {
    match made {
        None => fails_with(r, internal_error_view()),
        Some(transaction) => match transaction.data {
            None => fails_with(r, internal_error_view()),
            Some(data) => is_outgoing(cluster_info, data@, transaction.signatures@, r),
        },
    }
}

/// Whether `r` is the first of the signatures, or the error for their transaction not being sent.
pub open spec fn is_awaited(
    signatures: Seq<Signature>,
    sent: bool,
    r: Result<Signature, Error>,
) -> bool {
    if sent {
        r == Ok::<Signature, Error>(signatures[0])
    } else {
        fails_with(r, internal_error_view())
    }
}

/// Whether `r` is what to do where this is known of the airdrop that `signature` signs and so many
/// seconds have passed.
pub open spec fn is_poll(
    signature: Signature,
    known: Option<Result<(), BankError>>,
    elapsed_secs: u64,
    r: AirdropPoll,
) -> bool {
    match poll_outcome(known, elapsed_secs) {
        PollOutcome::Confirmed => r matches AirdropPoll::Done(Ok(text)) && text@ == base58_encoded(
            signature@,
        ),
        PollOutcome::TimedOut => r matches AirdropPoll::Done(Err(e)) && e@ == internal_error_view(),
        PollOutcome::Wait => r == (AirdropPoll::Wait { millis: AIRDROP_POLL_MILLIS }),
    }
}

/// The drone's transaction. That there is none, or that it was not serialized, is an internal
/// error.
pub fn made_transaction(made: Option<AirdropTransaction>) -> (r: Result<Prepared, Error>)
    ensures
        match made {
            Some(AirdropTransaction { signatures, data: Some(data) }) => r == Ok::<Prepared, Error>(
                Prepared { data, signatures },
            ),
            _ => fails_with(r, internal_error_view()),
        },
{
    let transaction = match made {
        Some(transaction) => transaction,
        None => return Err(Error::internal_error()),
    };
    match transaction.data {
        Some(data) => Ok(Prepared { data, signatures: transaction.signatures }),
        None => Err(Error::internal_error()),
    }
}

impl RpcSolImpl {
    /// Which drone has to be asked, and for what, so that the address that `id` names gets `tokens`.
    pub fn request_airdrop<B: Bank, S: StorageState, C: ClusterInfo>(
        &self,
        meta: &Meta<'_, B, S, C>,
        id: String,
        tokens: u64,
    ) -> (r: Result<AirdropRequest<C::Addr>, Error>)
        ensures
            match (named(id@, 32), meta.request_processor.held_bank()) {
                (None, _) => fails_with(r, invalid_request_view()),
                (Some(_), None) => fails_with(r, no_bank_view()),
                (Some(bytes), Some(bank)) => {
                    &&& r matches Ok(request)
                    &&& request.drone_addr == meta.drone_addr
                    &&& request.pubkey@ == bytes
                    &&& request.tokens == tokens
                    &&& call_ensures(B::last_id, (&bank,), request.last_id)
                },
            },
    {
        let pubkey = match verify_pubkey(id) {
            Ok(pubkey) => pubkey,
            Err(e) => return Err(e),
        };
        let last_id = match meta.request_processor.bank() {
            Ok(bank) => bank.last_id(),
            Err(e) => return Err(e),
        };
        Ok(AirdropRequest { drone_addr: meta.drone_addr, pubkey, tokens, last_id })
    }

    /// What has to be sent once the drone has answered with a transaction, if it did.
    pub fn airdrop_transaction<B: Bank, S: StorageState, C: ClusterInfo>(
        &self,
        meta: &Meta<'_, B, S, C>,
        made: Option<AirdropTransaction>,
    ) -> (r: Result<Outgoing<C::Addr>, Error>)
        ensures
            is_airdrop_outgoing(*meta.cluster_info, made, r),
    {
        match made_transaction(made) {
            Ok(prepared) => to_leader(meta.cluster_info, prepared),
            Err(e) => Err(e),
        }
    }

    /// The signature to wait for, once it is known whether the transaction was sent.
    pub fn airdrop_sent<A>(&self, outgoing: Outgoing<A>, sent: bool) -> (r: Result<
        Signature,
        Error,
    >)
        requires
            sent ==> outgoing.signatures@.len() > 0,
        ensures
            is_awaited(outgoing.signatures@, sent, r),
    {
        if sent {
            Ok(outgoing.signatures[0])
        } else {
            Err(Error::internal_error())
        }
    }

    /// What to do where this is known of the airdrop that `signature` signs and so many seconds
    /// have passed since it was sent.
    pub fn airdrop_poll(
        &self,
        signature: Signature,
        known: Option<Result<(), BankError>>,
        elapsed_secs: u64,
    ) -> (r: AirdropPoll)
        ensures
            is_poll(signature, known, elapsed_secs, r),
    {
        match known {
            Some(Ok(())) => AirdropPoll::Done(Ok(signature.to_string())),
            _ => {
                if elapsed_secs > AIRDROP_TIMEOUT_SECS {
                    AirdropPoll::Done(Err(Error::internal_error()))
                } else {
                    AirdropPoll::Wait { millis: AIRDROP_POLL_MILLIS }
                }
            },
        }
    }
}

/// An airdrop that succeeds is answered with the first signature of the drone's transaction, which
/// is the transaction that was sent and is known to be carried out.
pub proof fn law_airdrop_is_answered_with_its_signature<C: ClusterInfo>(
    cluster_info: C,
    made: Option<AirdropTransaction>,
    outgoing: Outgoing<C::Addr>,
    signature: Signature,
    known: Option<Result<(), BankError>>,
    elapsed_secs: u64,
    text: String,
)
    requires
        is_airdrop_outgoing(cluster_info, made, Ok(outgoing)),
        is_awaited(outgoing.signatures@, true, Ok(signature)),
        is_poll(signature, known, elapsed_secs, AirdropPoll::Done(Ok(text))),
    ensures
        made matches Some(transaction) && {
            &&& transaction.data matches Some(data)
            &&& outgoing.data@ == data@
            &&& text@ == base58_encoded(transaction.signatures@[0]@)
        },
        known matches Some(Ok(_)),
{
}

/// Waiting for an airdrop comes to an end: sixty waits after the first look the request is
/// answered, whatever is known.
pub proof fn law_airdrop_wait_ends(
    signature: Signature,
    known: Option<Result<(), BankError>>,
    waits: nat,
    elapsed_millis: nat,
    elapsed_secs: u64,
    r: AirdropPoll,
)
    requires
        waits >= 60,
        elapsed_millis >= waits * AIRDROP_POLL_MILLIS,
        elapsed_secs == elapsed_millis / 1000,
        is_poll(signature, known, elapsed_secs, r),
    ensures
        r is Done,
{
    assert(waits * AIRDROP_POLL_MILLIS >= 6000);
}

/// An airdrop that is carried out is never answered as having failed, however late it is.
pub proof fn law_confirmed_airdrop_succeeds(
    signature: Signature,
    elapsed_secs: u64,
    r: AirdropPoll,
)
    requires
        is_poll(signature, Some(Ok(())), elapsed_secs, r),
    ensures
        r matches AirdropPoll::Done(Ok(text)) && text@ == base58_encoded(signature@),
{
}

} // verus!
