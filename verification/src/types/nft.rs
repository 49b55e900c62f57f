//! The token record.

use vstd::prelude::*;
use crate::types::account::{Account, AccountView};

verus! {

/// What a token is: its identifier and the view of its owner.
pub struct Icrc7TokenView {
    pub token_id: u64,
    pub token_owner: AccountView,
}

/// A token: its identifier and the account that owns it.
#[derive(Clone, Copy, Debug)]
pub struct Icrc7Token {
    pub token_id: u64,
    pub token_owner: Account,
}

impl View for Icrc7Token {
    type V = Icrc7TokenView;

    open spec fn view(&self) -> Icrc7TokenView {
        Icrc7TokenView { token_id: self.token_id, token_owner: self.token_owner@ }
    }
}

impl Icrc7Token {
    /// The token `token_id`, owned by `token_owner`.
    pub fn new(token_id: u64, token_owner: Account) -> (r: Self)
        ensures
            r.token_id == token_id,
            r.token_owner == token_owner,
    {
        Icrc7Token { token_id, token_owner }
    }

    /// Hands the token to `to`; its identifier stays.
    pub fn transfer(&mut self, to: Account)
        ensures
            final(self).token_owner == to,
            final(self).token_id == old(self).token_id,
    {
        self.token_owner = to;
    }
}

} // verus!
