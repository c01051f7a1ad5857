//! What the engine decides about single items. The items themselves live in
//! the item ledger, which tells the engine who holds an item and is told
//! what to register and what to remove.

use vstd::prelude::*;
use vstd::string::*;
use crate::context::CallContext;
use crate::error::Error;
use crate::ids::{id_is_object, is_object_id, series_id_of_item, series_of_item};
use crate::metadata::opt_text;
use crate::payout::{Payout, PayoutView, split, split_result, sum_amounts};
use crate::state::{Contract, ContractView, has_series, may_manage, series_of};
use crate::text::{find_text, has_text, lemma_text_position};

verus! {

/// The record of a burnt item: what the ledger is to remove.
#[derive(Clone, Debug, PartialEq, Eq)]
pub struct Burn {
    /// The account that held the item.
    pub owner_id: String,
    /// The item.
    pub token_id: String,
    /// The series of the item.
    pub token_object_id: String,
    /// The account that burnt it.
    pub user_burn: String,
}

/// The record of a companion item that was approved.
#[derive(Clone, Debug, PartialEq, Eq)]
pub struct Approved {
    /// The item.
    pub token_id: String,
    /// The account that approved it.
    pub user_approved: String,
}

/// The record of a transfer of an item.
#[derive(Clone, Debug, PartialEq, Eq)]
pub struct TransferLog {
    /// The account that held the item.
    pub old_owner_id: String,
    /// The account that holds it now.
    pub new_owner_id: String,
    /// The item.
    pub token_id: String,
    /// The account that moved the item, where it was not its holder.
    pub authorized_id: Option<String>,
    /// A note that came with the transfer.
    pub memo: Option<String>,
}

/// Why the holder's burn of an item is refused, if it is: the deposit is not
/// exactly one smallest unit, the ledger knows no holder, or the caller is
/// not the holder.
pub open spec fn nft_burn_fault(predecessor: Seq<char>, attached_deposit: u128, owner: Option<Seq<char>>) -> Option<
    Error,
> {
    if attached_deposit != 1 {
        Some(Error::OneYoctoRequired)
    } else if owner is None {
        Some(Error::TokenNotFound)
    } else if owner != Some(predecessor) {
        Some(Error::TokenOwnerOnly)
    } else {
        None
    }
}

/// Why the burn of a companion item by those who manage its series is
/// refused, if it is: the deposit is not exactly one smallest unit, the item
/// is no companion item, the ledger knows no holder, the series of the item
/// does not exist, or the call may not manage that series.
pub open spec fn burn_object_fault(
    c: ContractView,
    predecessor: Seq<char>,
    signer: Seq<char>,
    attached_deposit: u128,
    token_id: Seq<char>,
    owner: Option<Seq<char>>,
) -> Option<Error> {
    if attached_deposit != 1 {
        Some(Error::OneYoctoRequired)
    } else if !is_object_id(token_id) {
        Some(Error::WrongSeriesKind)
    } else if owner is None {
        Some(Error::TokenNotFound)
    } else if !has_series(c, series_of_item(token_id)) {
        Some(Error::SeriesNotFound)
    } else if !may_manage(c, predecessor, signer, series_of(c, series_of_item(token_id)).creator_id) {
        Some(Error::OnlyCreatorOrAdministrator)
    } else {
        None
    }
}

/// Why the approval of a companion item is refused, if it is: the deposit
/// is not exactly one smallest unit, the series that the item names does not
/// exist, the item is no companion item, the caller may not manage the
/// series, or the series never issued the item.
pub open spec fn approved_object_fault(
    c: ContractView,
    predecessor: Seq<char>,
    attached_deposit: u128,
    token_id: Seq<char>,
) -> Option<Error> {
    if attached_deposit != 1 {
        Some(Error::OneYoctoRequired)
    } else if !has_series(c, series_of_item(token_id)) {
        Some(Error::SeriesNotFound)
    } else if !is_object_id(token_id) {
        Some(Error::WrongSeriesKind)
    } else if !may_manage(c, predecessor, predecessor, series_of(c, series_of_item(token_id)).creator_id) {
        Some(Error::OnlyAdministrator)
    } else if !has_text(series_of(c, series_of_item(token_id)).tokens, token_id) {
        Some(Error::TokenNotFound)
    } else {
        None
    }
}

/// How the payout of a sale of an item ends: with a failure where the
/// ledger knows no holder or the series of the item does not exist, else as
/// the split of the balance over the royalties of the series, the holder
/// taking the rest.
pub open spec fn nft_payout_result(
    c: ContractView,
    token_id: Seq<char>,
    owner: Option<Seq<char>>,
    balance: u128,
    max_len_payout: u32,
) -> Result<PayoutView, Error> {
    if owner is None {
        Err(Error::TokenNotFound)
    } else if !has_series(c, series_of_item(token_id)) {
        Err(Error::SeriesNotFound)
    } else {
        split_result(
            balance as nat,
            series_of(c, series_of_item(token_id)).royalty,
            max_len_payout as nat,
            owner->0,
        )
    }
}

/// How the payout that goes with a transfer ends. It fails where the
/// deposit is not exactly one smallest unit, the ledger knows no holder, or
/// the series of the item does not exist. Without a balance there is no
/// payout. With one, a limit on the recipients must be given, and the
/// balance is split as for `nft_payout`, the previous holder taking the rest.
pub open spec fn nft_transfer_payout_result(
    c: ContractView,
    attached_deposit: u128,
    token_id: Seq<char>,
    previous_owner: Option<Seq<char>>,
    balance: Option<u128>,
    max_len_payout: Option<u32>,
) -> Result<Option<PayoutView>, Error> {
    if attached_deposit != 1 {
        Err(Error::OneYoctoRequired)
    } else if previous_owner is None {
        Err(Error::TokenNotFound)
    } else if !has_series(c, series_of_item(token_id)) {
        Err(Error::SeriesNotFound)
    } else if balance is None {
        Ok(None)
    } else if max_len_payout is None {
        Err(Error::MissingPayoutLimit)
    } else {
        match split_result(
            balance->0 as nat,
            series_of(c, series_of_item(token_id)).royalty,
            max_len_payout->0 as nat,
            previous_owner->0,
        ) {
            Ok(p) => Ok(Some(p)),
            Err(e) => Err(e),
        }
    }
}

impl Contract {
    /// Decides the burn of an item by its holder. `owner_id` is the holder
    /// that the ledger knows. On success the ledger is to remove the item;
    /// the series keeps its count of minted items.
    pub fn nft_burn(&self, ctx: &CallContext, token_id: String, owner_id: Option<String>) -> (r: Result<
        Burn,
        Error,
    >)
        ensures
            match nft_burn_fault(ctx.predecessor_id@, ctx.attached_deposit, opt_text(owner_id)) {
                Some(e) => r matches Err(x) && x == e,
                None => r matches Ok(b) && b.owner_id@ == ctx.predecessor_id@ && b.token_id@ == token_id@
                    && b.token_object_id@ == series_of_item(token_id@) && b.user_burn@ == ctx.predecessor_id@,
            },
    {
        if ctx.attached_deposit != 1 {
            return Err(Error::OneYoctoRequired);
        }
        let owner = match owner_id {
            Some(o) => o,
            None => {
                return Err(Error::TokenNotFound);
            },
        };
        if owner != ctx.predecessor_id {
            return Err(Error::TokenOwnerOnly);
        }
        let token_object_id = series_id_of_item(&token_id);
        Ok(Burn { owner_id: owner, token_id, token_object_id, user_burn: ctx.predecessor_id.clone() })
    }

    /// Decides the burn of a companion item by the owner of the contract,
    /// an administrator, or the creator of the series of the item.
    /// `owner_id` is the holder that the ledger knows. On success the ledger
    /// is to remove the item; the series keeps its count of minted items.
    pub fn burn_object(&self, ctx: &CallContext, token_id: String, owner_id: Option<String>) -> (r: Result<
        Burn,
        Error,
    >)
        ensures
            match burn_object_fault(
                self@,
                ctx.predecessor_id@,
                ctx.signer_id@,
                ctx.attached_deposit,
                token_id@,
                opt_text(owner_id),
            ) {
                Some(e) => r matches Err(x) && x == e,
                None => r matches Ok(b) && Some(b.owner_id@) == opt_text(owner_id) && b.token_id@ == token_id@
                    && b.token_object_id@ == series_of_item(token_id@) && b.user_burn@ == ctx.predecessor_id@,
            },
    {
        if ctx.attached_deposit != 1 {
            return Err(Error::OneYoctoRequired);
        }
        if !id_is_object(&token_id) {
            return Err(Error::WrongSeriesKind);
        }
        let owner = match owner_id {
            Some(o) => o,
            None => {
                return Err(Error::TokenNotFound);
            },
        };
        let token_object_id = series_id_of_item(&token_id);
        let position = match self.find_series(&token_object_id) {
            Some(i) => i,
            None => {
                return Err(Error::SeriesNotFound);
            },
        };
        if !self.may_manage(&ctx.predecessor_id, &ctx.signer_id, &self.token_series_by_id[position].creator_id) {
            return Err(Error::OnlyCreatorOrAdministrator);
        }
        Ok(Burn { owner_id: owner, token_id, token_object_id, user_burn: ctx.predecessor_id.clone() })
    }

    /// Approves a companion item: the creator of its series, the owner of
    /// the contract or an administrator confirms an item that the series
    /// issued.
    pub fn approved_object(&self, ctx: &CallContext, token_id: String) -> (r: Result<Approved, Error>)
        ensures
            match approved_object_fault(self@, ctx.predecessor_id@, ctx.attached_deposit, token_id@) {
                Some(e) => r matches Err(x) && x == e,
                None => r matches Ok(a) && a.token_id@ == token_id@ && a.user_approved@ == ctx.predecessor_id@,
            },
    {
        if ctx.attached_deposit != 1 {
            return Err(Error::OneYoctoRequired);
        }
        let token_serie_id = series_id_of_item(&token_id);
        let position = match self.find_series(&token_serie_id) {
            Some(i) => i,
            None => {
                return Err(Error::SeriesNotFound);
            },
        };
        if !id_is_object(&token_id) {
            return Err(Error::WrongSeriesKind);
        }
        if !self.may_manage(
            &ctx.predecessor_id,
            &ctx.predecessor_id,
            &self.token_series_by_id[position].creator_id,
        ) {
            return Err(Error::OnlyAdministrator);
        }
        proof {
            lemma_text_position(self@.series[position as int].tokens, token_id@);
        }
        if find_text(&self.token_series_by_id[position].tokens, &token_id).is_none() {
            return Err(Error::TokenNotFound);
        }
        Ok(Approved { token_id, user_approved: ctx.predecessor_id.clone() })
    }

    /// The record of a transfer that the ledger made for `sender_id`. It
    /// names the sender as authorized where the sender did not hold the item.
    pub fn nft_transfer_unsafe(
        &self,
        sender_id: String,
        previous_owner_id: String,
        receiver_id: String,
        token_id: String,
        memo: Option<String>,
    ) -> (log: TransferLog)
        ensures
            log.old_owner_id@ == previous_owner_id@,
            log.new_owner_id@ == receiver_id@,
            log.token_id@ == token_id@,
            opt_text(log.memo) == opt_text(memo),
            opt_text(log.authorized_id) == (if sender_id@ != previous_owner_id@ {
                Some(sender_id@)
            } else {
                None::<Seq<char>>
            }),
    {
        let authorized_id: Option<String> = if sender_id != previous_owner_id {
            Some(sender_id)
        } else {
            None
        };
        TransferLog { old_owner_id: previous_owner_id, new_owner_id: receiver_id, token_id, authorized_id, memo }
    }

    /// What follows when the ledger has resolved a transfer to a receiver
    /// that was notified. `kept` tells whether the receiver kept the item.
    /// Where it did not, the item went back, and the record of that return
    /// is given.
    pub fn nft_resolve_transfer(
        &self,
        kept: bool,
        previous_owner_id: String,
        receiver_id: String,
        token_id: String,
    ) -> (log: Option<TransferLog>)
        ensures
            kept ==> log is None,
            !kept ==> (log matches Some(t) && t.old_owner_id@ == receiver_id@ && t.new_owner_id@
                == previous_owner_id@ && t.token_id@ == token_id@ && t.authorized_id is None && t.memo is None),
    {
        if kept {
            None
        } else {
            Some(
                TransferLog {
                    old_owner_id: receiver_id,
                    new_owner_id: previous_owner_id,
                    token_id,
                    authorized_id: None,
                    memo: None,
                },
            )
        }
    }

    /// The payout of a sale of the item `token_id` for `balance`: every
    /// royalty recipient of its series gets its share, its holder the rest.
    /// `owner_id` is the holder that the ledger knows.
    pub fn nft_payout(&self, token_id: String, owner_id: Option<String>, balance: u128, max_len_payout: u32) -> (r:
        Result<Payout, Error>)
        ensures
            match (r, nft_payout_result(self@, token_id@, opt_text(owner_id), balance, max_len_payout)) {
                (Ok(p), Ok(expected)) => p@ == expected && sum_amounts(p@) == balance,
                (Err(e), Err(expected)) => e == expected,
                _ => false,
            },
    {
        let owner = match owner_id {
            Some(o) => o,
            None => {
                return Err(Error::TokenNotFound);
            },
        };
        let token_series_id = series_id_of_item(&token_id);
        let position = match self.find_series(&token_series_id) {
            Some(i) => i,
            None => {
                return Err(Error::SeriesNotFound);
            },
        };
        split(balance, &self.token_series_by_id[position].royalty, max_len_payout, &owner)
    }

    /// The payout that goes with a transfer of the item `token_id`.
    /// `previous_owner_id` is the holder that the ledger knew before the
    /// transfer. Without a balance there is no payout.
    pub fn nft_transfer_payout(
        &self,
        ctx: &CallContext,
        token_id: String,
        previous_owner_id: Option<String>,
        balance: Option<u128>,
        max_len_payout: Option<u32>,
    ) -> (r: Result<Option<Payout>, Error>)
        ensures
            match (
                r,
                nft_transfer_payout_result(
                    self@,
                    ctx.attached_deposit,
                    token_id@,
                    opt_text(previous_owner_id),
                    balance,
                    max_len_payout,
                ),
            ) {
                (Ok(Some(p)), Ok(Some(expected))) => p@ == expected && sum_amounts(p@) == balance->0,
                (Ok(None), Ok(None)) => true,
                (Err(e), Err(expected)) => e == expected,
                _ => false,
            },
    {
        if ctx.attached_deposit != 1 {
            return Err(Error::OneYoctoRequired);
        }
        let previous_owner = match previous_owner_id {
            Some(o) => o,
            None => {
                return Err(Error::TokenNotFound);
            },
        };
        let token_series_id = series_id_of_item(&token_id);
        let position = match self.find_series(&token_series_id) {
            Some(i) => i,
            None => {
                return Err(Error::SeriesNotFound);
            },
        };
        let amount = match balance {
            Some(b) => b,
            None => {
                return Ok(None);
            },
        };
        let max_len = match max_len_payout {
            Some(m) => m,
            None => {
                return Err(Error::MissingPayoutLimit);
            },
        };
        match split(amount, &self.token_series_by_id[position].royalty, max_len, &previous_owner) {
            Ok(p) => Ok(Some(p)),
            Err(e) => Err(e),
        }
    }
}

} // verus!
