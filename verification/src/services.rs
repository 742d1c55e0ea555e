//! What a node's other parts answer when a request asks them.
//!
//! They are live: what one of them answers may change from one call to the next, and nothing is
//! promised of it.
use crate::account::Account;
use crate::pubkey::{Pubkey, Signature};
use crate::system::ProgramError;
use vstd::prelude::*;

verus! {

/// Why the bank did not carry out a transaction.
#[derive(Clone, Copy, Debug, PartialEq, Eq)]
pub enum BankError {
    /// Another transaction is using one of the accounts.
    AccountInUse,
    /// The transaction names an account twice.
    AccountLoadedTwice,
    /// The program that runs the instruction of this number refused it.
    ProgramError(u8, ProgramError),
    /// Anything else.
    Other,
}

/// The accounts and what became of the transactions.
pub trait Bank {
    /// The account at an address, if there is one.
    fn get_account(&self, pubkey: &Pubkey) -> (r: Option<Account>);

    /// The tokens at an address.
    fn get_balance(&self, pubkey: &Pubkey) -> (r: u64);

    /// The last entry's hash.
    fn last_id(&self) -> (r: crate::pubkey::Hash);

    /// What became of a transaction, if it is known.
    fn get_signature_status(&self, signature: &Signature) -> (r: Option<Result<(), BankError>>);

    /// How many transactions were carried out.
    fn transaction_count(&self) -> (r: usize);
}

/// What storage mining works on.
pub trait StorageState {
    /// The hash to mine with.
    fn get_last_id(&self) -> (r: crate::pubkey::Hash);

    /// The height of the entry to mine for.
    fn get_entry_height(&self) -> (r: u64);

    /// The miners that store the segment of an entry.
    fn get_pubkeys_for_entry_height(&self, entry_height: u64) -> (r: Vec<Pubkey>);
}

/// A node of the cluster.
#[derive(Clone, Copy, Debug, PartialEq, Eq)]
pub struct NodeInfo<A> {
    /// Where the node takes transactions.
    pub tpu: A,
}

/// The nodes of the cluster.
pub trait ClusterInfo {
    /// An address of a node.
    type Addr: Copy;

    /// The node that leads, if one is known.
    fn leader_data(&self) -> (r: Option<NodeInfo<Self::Addr>>);
}

} // verus!
