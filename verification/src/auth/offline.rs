//! Offline accounts.
use vstd::prelude::*;
use crate::config::{Account, AccountType};

verus! {

/// A new offline account with this username, under the id `id` (the caller
/// draws a fresh one).
pub fn create_offline_account(id: String, username: String) -> (a: Account)
    ensures
        a.id == id,
        a.username == username,
        a.account_type == AccountType::Offline,
        a.access_token is None,
        a.refresh_token is None,
        a.xbox_uid is None,
{
    Account {
        id,
        username,
        account_type: AccountType::Offline,
        access_token: None,
        refresh_token: None,
        xbox_uid: None,
    }
}

} // verus!
