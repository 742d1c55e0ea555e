//! Accounts, and accounts as a program is handed them.
use crate::pubkey::Pubkey;
use vstd::prelude::*;

verus! {

/// An account of the ledger.
#[derive(Clone, Debug, PartialEq, Eq)]
pub struct Account {
    /// Tokens that the account holds.
    pub tokens: u64,
    /// Data that the owning program keeps in the account.
    pub userdata: Vec<u8>,
    /// The program that owns the account.
    pub owner: Pubkey,
    /// Whether the account holds a program.
    pub executable: bool,
}

/// What an `Account` is.
#[verifier::ext_equal]
pub struct AccountView {
    pub tokens: u64,
    pub userdata: Seq<u8>,
    pub owner: Seq<u8>,
    pub executable: bool,
}

impl View for Account {
    type V = AccountView;

    open spec fn view(&self) -> AccountView {
        AccountView {
            tokens: self.tokens,
            userdata: self.userdata@,
            owner: self.owner@,
            executable: self.executable,
        }
    }
}

/// An account that an instruction names, with its address and whether that address signed the
/// transaction.
#[derive(Clone, Debug, PartialEq, Eq)]
pub struct KeyedAccount {
    pub is_signer: bool,
    pub key: Pubkey,
    pub account: Account,
}

/// What a `KeyedAccount` is.
#[verifier::ext_equal]
pub struct KeyedAccountView {
    pub is_signer: bool,
    pub key: Seq<u8>,
    pub account: AccountView,
}

impl View for KeyedAccount {
    type V = KeyedAccountView;

    open spec fn view(&self) -> KeyedAccountView {
        KeyedAccountView { is_signer: self.is_signer, key: self.key@, account: self.account@ }
    }
}

impl KeyedAccount {
    /// The account's address, if it signed the transaction.
    pub fn signer_key(&self) -> (r: Option<&Pubkey>)
        ensures
            r == (if self.is_signer {
                Some(&self.key)
            } else {
                None
            }),
    {
        if self.is_signer {
            Some(&self.key)
        } else {
            None
        }
    }
}

/// What a run of accounts is.
pub open spec fn account_views(accounts: Seq<KeyedAccount>) -> Seq<KeyedAccountView> {
    accounts.map_values(|k: KeyedAccount| k@)
}

} // verus!
