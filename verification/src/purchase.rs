//! The purchase of an event: the price is checked against the deposit, one
//! item of the event and of each of its companions is minted, and the price
//! is split among the vault, the royalty recipients and the creator.

use vstd::prelude::*;
use vstd::string::*;
use crate::account::{account_id_valid, is_valid_account_id};
use crate::context::CallContext;
use crate::error::Error;
use crate::machine::{Operation, apply};
use crate::ids::{id_is_event, is_event_id};
use crate::metadata::clone_texts;
use crate::minting::{
    MintedToken, MintedTokenView, lemma_mint_all_fails_early, mint_all, mint_fault, minted_views,
};
use crate::payout::{
    Payout, PayoutEntry, PayoutView, all_shares, bps_share, lemma_bps_share_bounded, royalty_to_payout,
    sum_amounts,
};
use crate::pricing::{PURCHASE_MARGIN, native_price, saturate, to_native};
use crate::royalty::{RoyaltyTable, RoyaltyView, total_bps};
use crate::state::{Contract, ContractView, has_series, lemma_series_position, series_of, series_wf};

verus! {

/// What one royalty recipient gets of a purchase.
#[derive(Clone, Debug, PartialEq, Eq)]
pub struct RoyaltyBuy {
    /// The account that is paid.
    pub wallet: String,
    /// Its share in basis points.
    pub porcentaje: u32,
    /// The amount that it is paid, in smallest units.
    pub amount: u128,
}

/// How the price of a purchase is split.
#[derive(Debug, PartialEq, Eq)]
pub struct Settlement {
    /// What the vault takes.
    pub amount_vault: u128,
    /// What each royalty recipient takes, in the order of the table.
    pub royalty: Vec<RoyaltyBuy>,
    /// What is left for the creator.
    pub amount_creator: u128,
}

/// The model of a settlement.
pub struct SettlementView {
    pub amount_vault: nat,
    pub royalty: Seq<(Seq<char>, u32, nat)>,
    pub amount_creator: nat,
}

/// The recipients of a purchase with their basis points and amounts.
pub open spec fn royalty_views(v: Seq<RoyaltyBuy>) -> Seq<(Seq<char>, u32, nat)> {
    Seq::new(v.len(), |i: int| (v[i].wallet@, v[i].porcentaje, v[i].amount as nat))
}

impl View for Settlement {
    type V = SettlementView;

    open spec fn view(&self) -> SettlementView {
        SettlementView {
            amount_vault: self.amount_vault as nat,
            royalty: royalty_views(self.royalty@),
            amount_creator: self.amount_creator as nat,
        }
    }
}

/// What the vault takes of `price`: the floor of its fee.
pub open spec fn vault_share(price: nat, vault_fee: u32) -> nat {
    bps_share(price, vault_fee as nat)
}

/// What each entry of the table takes of `remaining`: the floor of its share.
pub open spec fn royalty_breakdown(remaining: nat, t: RoyaltyView) -> Seq<(Seq<char>, u32, nat)> {
    Seq::new(t.len(), |i: int| (t[i].0, t[i].1, bps_share(remaining, t[i].1 as nat)))
}

/// The sum of the amounts of a breakdown.
pub open spec fn breakdown_total(b: Seq<(Seq<char>, u32, nat)>) -> nat
    decreases b.len(),
{
    if b.len() == 0 {
        0
    } else {
        breakdown_total(b.drop_last()) + b.last().2
    }
}

/// The split of `price`: the vault takes the floor of its fee; of the rest,
/// every royalty recipient takes the floor of its share, and the creator
/// takes what is then left.
pub open spec fn settlement_of(price: nat, vault_fee: u32, t: RoyaltyView) -> SettlementView {
    let vault = vault_share(price, vault_fee);
    let remaining = (price - vault) as nat;
    let royalty = royalty_breakdown(remaining, t);
    SettlementView {
        amount_vault: vault,
        royalty: royalty,
        amount_creator: (remaining - breakdown_total(royalty)) as nat,
    }
}

/// The amounts of a breakdown are the amounts of the shares of all entries.
pub proof fn lemma_breakdown_total(remaining: nat, t: RoyaltyView)
    ensures
        breakdown_total(royalty_breakdown(remaining, t)) == sum_amounts(all_shares(remaining, t)),
    decreases t.len(),
{
    if t.len() > 0 {
        lemma_breakdown_total(remaining, t.drop_last());
        assert(royalty_breakdown(remaining, t).drop_last() =~= royalty_breakdown(remaining, t.drop_last()));
        assert(all_shares(remaining, t).drop_last() =~= all_shares(remaining, t.drop_last()));
    }
}

/// A settlement loses nothing: what the vault, the royalty recipients and
/// the creator take sums to the price, whenever the fee is at most 10000
/// basis points and the table sums to at most 10000.
pub proof fn lemma_settlement_conserves(price: nat, vault_fee: u32, t: RoyaltyView)
    requires
        vault_fee <= 10000,
        total_bps(t) <= 10000,
    ensures
        settlement_of(price, vault_fee, t).amount_vault + breakdown_total(
            settlement_of(price, vault_fee, t).royalty,
        ) + settlement_of(price, vault_fee, t).amount_creator == price,
        settlement_of(price, vault_fee, t).amount_vault <= price,
        breakdown_total(settlement_of(price, vault_fee, t).royalty) <= price - settlement_of(
            price,
            vault_fee,
            t,
        ).amount_vault,
{
    lemma_bps_share_bounded(price, vault_fee as nat);
    let remaining = (price - vault_share(price, vault_fee)) as nat;
    lemma_breakdown_total(remaining, t);
    lemma_total_bounds_shares(remaining, t);
}

/// The shares of all entries sum to no more than the amount, where the
/// table sums to at most 10000 basis points.
pub proof fn lemma_total_bounds_shares(remaining: nat, t: RoyaltyView)
    requires
        total_bps(t) <= 10000,
    ensures
        sum_amounts(all_shares(remaining, t)) <= remaining,
        sum_amounts(all_shares(remaining, t)) * 10000 <= remaining * total_bps(t),
    decreases t.len(),
{
    let shares = all_shares(remaining, t);
    if t.len() == 0 {
        assert(remaining * total_bps(t) == 0) by (nonlinear_arith)
            requires
                total_bps(t) == 0,
        ;
    } else {
        let rest = t.drop_last();
        lemma_total_bounds_shares(remaining, rest);
        assert(shares.drop_last() =~= all_shares(remaining, rest));
        let b = t.last().1 as nat;
        let s = bps_share(remaining, b);
        assert(shares.last().1 == s);
        assert((sum_amounts(all_shares(remaining, rest)) + s) * 10000 <= remaining * (total_bps(rest) + b))
            by (nonlinear_arith)
            requires
                sum_amounts(all_shares(remaining, rest)) * 10000 <= remaining * total_bps(rest),
                s == remaining * b / 10000,
        ;
    }
    assert(sum_amounts(shares) <= remaining) by (nonlinear_arith)
        requires
            sum_amounts(shares) * 10000 <= remaining * total_bps(t),
            total_bps(t) <= 10000,
    ;
}

/// Splits the price of a purchase among the vault, the royalty recipients
/// of the purchase-time table, and the creator, who takes all that rounding
/// leaves. Fails where the vault fee or the table exceeds 10000 basis points.
pub fn settle(price: u128, vault_fee: u32, royalty_buy: &RoyaltyTable) -> (r: Result<Settlement, Error>)
    ensures
        vault_fee <= 10000 && total_bps(royalty_buy@) <= 10000 ==> (r matches Ok(s) && s@ == settlement_of(
            price as nat,
            vault_fee,
            royalty_buy@,
        ) && s.amount_vault + breakdown_total(s@.royalty) + s.amount_creator == price),
        !(vault_fee <= 10000 && total_bps(royalty_buy@) <= 10000) ==> r matches Err(Error::PayoutOverflow),
{
    if vault_fee > 10_000 || royalty_buy.total() > 10_000 {
        return Err(Error::PayoutOverflow);
    }
    proof {
        lemma_bps_share_bounded(price as nat, vault_fee as nat);
        lemma_settlement_conserves(price as nat, vault_fee, royalty_buy@);
    }
    let amount_vault = royalty_to_payout(vault_fee, price);
    let remaining: u128 = price - amount_vault;
    let ghost t = royalty_buy@;
    let ghost full = royalty_breakdown(remaining as nat, t);
    let mut royalty: Vec<RoyaltyBuy> = Vec::new();
    let mut spent: u128 = 0;
    let n = royalty_buy.len();
    let mut i: usize = 0;
    while i < n
        invariant
            i <= n,
            n == t.len(),
            t == royalty_buy@,
            total_bps(t) <= 10000,
            full == royalty_breakdown(remaining as nat, t),
            breakdown_total(full) <= remaining,
            royalty_views(royalty@) == full.take(i as int),
            spent == breakdown_total(full.take(i as int)),
            spent <= breakdown_total(full),
        decreases n - i,
    {
        let bps = royalty_buy.bps_at(i);
        proof {
            lemma_bps_within_total(t, i as int);
            lemma_bps_share_bounded(remaining as nat, bps as nat);
            assert(full.take(i + 1).drop_last() =~= full.take(i as int));
            lemma_breakdown_prefix(full, i + 1);
        }
        let amount = royalty_to_payout(bps, remaining);
        royalty.push(RoyaltyBuy { wallet: royalty_buy.account_at(i).clone(), porcentaje: bps, amount });
        spent = spent + amount;
        assert(royalty_views(royalty@) =~= full.take(i + 1));
        i = i + 1;
    }
    assert(full.take(n as int) =~= full);
    Ok(Settlement { amount_vault, royalty, amount_creator: remaining - spent })
}

/// The amounts of a prefix of a breakdown sum to no more than those of the whole.
pub proof fn lemma_breakdown_prefix(b: Seq<(Seq<char>, u32, nat)>, k: int)
    requires
        0 <= k <= b.len(),
    ensures
        breakdown_total(b.take(k)) <= breakdown_total(b),
    decreases b.len() - k,
{
    if k < b.len() {
        lemma_breakdown_prefix(b, k + 1);
        assert(b.take(k + 1).drop_last() =~= b.take(k));
    } else {
        assert(b.take(k) =~= b);
    }
}

/// The basis points of one entry are no more than the sum of the table.
pub proof fn lemma_bps_within_total(t: RoyaltyView, i: int)
    requires
        0 <= i < t.len(),
    ensures
        t[i].1 <= total_bps(t),
    decreases t.len(),
{
    if i < t.len() - 1 {
        lemma_bps_within_total(t.drop_last(), i);
    }
}

/// The account that a purchase mints to: the receiver that was named, where
/// one was named and is a valid account; else the caller.
pub open spec fn beneficiary(predecessor: Seq<char>, receiver: Option<Seq<char>>) -> Seq<char> {
    match receiver {
        Some(r) => if account_id_valid(r) {
            r
        } else {
            predecessor
        },
        None => predecessor,
    }
}

/// The least deposit that a purchase at `price` must attach: the price and
/// the margin.
pub open spec fn required_deposit(price: u128) -> nat {
    price as nat + PURCHASE_MARGIN as nat
}

/// Why a purchase of the series `id` ends before anything is minted, if it
/// does: the identifier does not name an event, there is no such series, it
/// has no price, or the deposit is below what is required. The conditions
/// are looked for in this order.
pub open spec fn buy_entry_fault(c: ContractView, id: Seq<char>, attached_deposit: u128) -> Option<Error> {
    if !is_event_id(id) {
        Some(Error::WrongSeriesKind)
    } else if !has_series(c, id) {
        Some(Error::SeriesNotFound)
    } else if series_of(c, id).price is None {
        Some(Error::NotForSale)
    } else if attached_deposit < required_deposit(native_price(series_of(c, id).price->0, c.tasa)) {
        Some(
            Error::DepositBelowPrice {
                required: saturate(required_deposit(native_price(series_of(c, id).price->0, c.tasa))),
            },
        )
    } else {
        None
    }
}

/// The series that a purchase of the event `id` mints from: the event, then
/// its companions in their order.
pub open spec fn purchase_series(c: ContractView, id: Seq<char>) -> Seq<Seq<char>> {
    seq![id] + series_of(c, id).objects_mint
}

/// The record of a purchase.
#[derive(Debug, PartialEq, Eq)]
pub struct Purchase {
    /// The event that was bought.
    pub token_series_id: String,
    /// The account that the items were minted to.
    pub receiver_id: String,
    /// The items that were minted: that of the event, then one of each companion.
    pub minted: Vec<MintedToken>,
    /// The exchange rate that the price was converted at.
    pub tasa: u64,
    /// The reference price of the event.
    pub price_reference: u64,
    /// The price in smallest native units.
    pub price: u128,
    /// The account of the vault.
    pub vault_id: String,
    /// The creator of the event.
    pub creator_id: String,
    /// How the price is split.
    pub settlement: Settlement,
    /// Whether the event is still open for minting.
    pub is_mintable: bool,
}

/// The model of the record of a purchase.
pub struct PurchaseView {
    pub token_series_id: Seq<char>,
    pub receiver_id: Seq<char>,
    pub minted: Seq<MintedTokenView>,
    pub tasa: u64,
    pub price_reference: u64,
    pub price: u128,
    pub vault_id: Seq<char>,
    pub creator_id: Seq<char>,
    pub settlement: SettlementView,
    pub is_mintable: bool,
}

impl View for Purchase {
    type V = PurchaseView;

    open spec fn view(&self) -> PurchaseView {
        PurchaseView {
            token_series_id: self.token_series_id@,
            receiver_id: self.receiver_id@,
            minted: minted_views(self.minted@),
            tasa: self.tasa,
            price_reference: self.price_reference,
            price: self.price,
            vault_id: self.vault_id@,
            creator_id: self.creator_id@,
            settlement: self.settlement@,
            is_mintable: self.is_mintable,
        }
    }
}

/// The record of the purchase of the event `id` that led from the state `c`
/// to the state `d`.
pub open spec fn purchase_record(
    c: ContractView,
    d: ContractView,
    id: Seq<char>,
    receiver: Seq<char>,
    minted: Seq<MintedTokenView>,
) -> PurchaseView {
    let s = series_of(c, id);
    let price = native_price(s.price->0, c.tasa);
    PurchaseView {
        token_series_id: id,
        receiver_id: receiver,
        minted: minted,
        tasa: c.tasa,
        price_reference: s.price->0,
        price: price,
        vault_id: c.vault_id,
        creator_id: s.creator_id,
        settlement: settlement_of(price as nat, c.vault_fee, s.royalty_buy),
        is_mintable: series_of(d, id).is_mintable,
    }
}

/// How a purchase ends: with the failure that stopped it before or during
/// minting, or with the state after all mints and the record of the purchase.
pub open spec fn nft_buy_result(
    c: ContractView,
    predecessor: Seq<char>,
    attached_deposit: u128,
    timestamp: u64,
    id: Seq<char>,
    receiver: Option<Seq<char>>,
) -> Result<(ContractView, PurchaseView), Error> {
    match buy_entry_fault(c, id, attached_deposit) {
        Some(e) => Err(e),
        None => {
            let to = beneficiary(predecessor, receiver);
            match mint_all(c, purchase_series(c, id), to, timestamp) {
                Err(e) => Err(e),
                Ok((d, minted)) => Ok((d, purchase_record(c, d, id, to, minted))),
            }
        },
    }
}

/// The amounts that a breakdown pays, each with its recipient.
pub open spec fn breakdown_payments(b: Seq<(Seq<char>, u32, nat)>) -> PayoutView {
    Seq::new(b.len(), |i: int| (b[i].0, b[i].2))
}

/// The transfers that a purchase owes, in the order in which they are to
/// be made: to the vault, to each royalty recipient, and to the creator.
pub open spec fn transfers_of(p: PurchaseView) -> PayoutView {
    seq![(p.vault_id, p.settlement.amount_vault)] + breakdown_payments(p.settlement.royalty) + seq![
        (p.creator_id, p.settlement.amount_creator),
    ]
}

/// The payments of a breakdown sum to the total of the breakdown.
pub proof fn lemma_breakdown_payments_total(b: Seq<(Seq<char>, u32, nat)>)
    ensures
        sum_amounts(breakdown_payments(b)) == breakdown_total(b),
    decreases b.len(),
{
    if b.len() > 0 {
        lemma_breakdown_payments_total(b.drop_last());
        assert(breakdown_payments(b).drop_last() =~= breakdown_payments(b.drop_last()));
    }
}

/// The sum of the amounts of a payout with one more payment at its front.
pub proof fn lemma_sum_amounts_front(first: (Seq<char>, nat), rest: PayoutView)
    ensures
        sum_amounts(seq![first] + rest) == first.1 + sum_amounts(rest),
    decreases rest.len(),
{
    let all = seq![first] + rest;
    if rest.len() == 0 {
        assert(all.drop_last() =~= Seq::<(Seq<char>, nat)>::empty());
        assert(sum_amounts(all.drop_last()) == 0);
    } else {
        lemma_sum_amounts_front(first, rest.drop_last());
        assert(all.drop_last() =~= seq![first] + rest.drop_last());
    }
}

/// The transfers of a purchase move exactly the price: what the vault, the
/// royalty recipients and the creator receive sums to the native price of
/// the event.
pub proof fn lemma_transfers_conserve(
    c: ContractView,
    d: ContractView,
    id: Seq<char>,
    receiver: Seq<char>,
    minted: Seq<MintedTokenView>,
)
    requires
        crate::state::contract_wf(c),
        has_series(c, id),
    ensures
        sum_amounts(transfers_of(purchase_record(c, d, id, receiver, minted))) == purchase_record(
            c,
            d,
            id,
            receiver,
            minted,
        ).price,
{
    lemma_series_position(c, id);
    let s = series_of(c, id);
    assert(series_wf(s, c.vault_fee));
    let p = purchase_record(c, d, id, receiver, minted);
    lemma_settlement_conserves(p.price as nat, c.vault_fee, s.royalty_buy);
    let first = (p.vault_id, p.settlement.amount_vault);
    let middle = breakdown_payments(p.settlement.royalty);
    let last = (p.creator_id, p.settlement.amount_creator);
    lemma_breakdown_payments_total(p.settlement.royalty);
    assert(transfers_of(p) =~= seq![first] + middle.push(last));
    lemma_sum_amounts_front(first, middle.push(last));
    assert(middle.push(last).drop_last() =~= middle);
}

impl Purchase {
    /// The transfers that the purchase owes, in the order in which they are
    /// to be made: to the vault, to each royalty recipient, and to the creator.
    pub fn transfers(&self) -> (out: Payout)
        ensures
            out@ == transfers_of(self@),
    {
        let mut entries: Vec<PayoutEntry> = Vec::new();
        entries.push(PayoutEntry { account_id: self.vault_id.clone(), amount: self.settlement.amount_vault });
        let ghost b = self@.settlement.royalty;
        let mut i: usize = 0;
        while i < self.settlement.royalty.len()
            invariant
                i <= self.settlement.royalty.len(),
                b == self@.settlement.royalty,
                b.len() == self.settlement.royalty@.len(),
                entries@.len() == i + 1,
                entries@[0].account_id@ == self@.vault_id,
                entries@[0].amount == self@.settlement.amount_vault,
                forall|j: int|
                    0 <= j < i ==> (#[trigger] entries@[j + 1]).account_id@ == b[j].0 && entries@[j + 1].amount
                        == b[j].2,
            decreases self.settlement.royalty.len() - i,
        {
            assert(b[i as int] == (
                self.settlement.royalty@[i as int].wallet@,
                self.settlement.royalty@[i as int].porcentaje,
                self.settlement.royalty@[i as int].amount as nat,
            ));
            entries.push(
                PayoutEntry {
                    account_id: self.settlement.royalty[i].wallet.clone(),
                    amount: self.settlement.royalty[i].amount,
                },
            );
            i = i + 1;
        }
        entries.push(PayoutEntry { account_id: self.creator_id.clone(), amount: self.settlement.amount_creator });
        let out = Payout { payout: entries };
        proof {
            let expected = transfers_of(self@);
            let n = b.len() as int;
            assert(expected.len() == n + 2);
            assert(out@.len() == n + 2);
            assert forall|k: int| 0 <= k < n + 2 implies out@[k] == expected[k] by {
                if k == 0 {
                } else if k <= n {
                    assert(entries@[(k - 1) + 1].account_id@ == b[k - 1].0);
                    assert(expected[k] == breakdown_payments(b)[k - 1]);
                } else {
                    assert(expected[k] == (self@.creator_id, self@.settlement.amount_creator));
                }
            }
            assert(out@ =~= expected);
        }
        out
    }
}

impl Contract {
    /// Mints one item of each series of `ids` in turn. On a failure the
    /// state keeps the mints that came before it: callers work on a copy.
    pub(crate) fn mint_each(&mut self, ids: &Vec<String>, receiver_id: &String, block_timestamp: u64) -> (r:
        Result<Vec<MintedToken>, Error>)
        requires
            old(self).wf(),
        ensures
            final(self).wf(),
            match mint_all(old(self)@, ids.deep_view(), receiver_id@, block_timestamp) {
                Err(e) => r matches Err(x) && x == e,
                Ok((d, minted)) => r matches Ok(v) && minted_views(v@) == minted && final(self)@ == d,
            },
    {
        let ghost start = self@;
        let ghost all = ids.deep_view();
        let mut minted: Vec<MintedToken> = Vec::new();
        let mut i: usize = 0;
        assert(all.take(0) =~= Seq::<Seq<char>>::empty());
        assert(minted_views(minted@) =~= Seq::<MintedTokenView>::empty());
        while i < ids.len()
            invariant
                i <= ids.len(),
                all == ids.deep_view(),
                start == old(self)@,
                self.wf(),
                mint_all(start, all.take(i as int), receiver_id@, block_timestamp) == Ok::<
                    (ContractView, Seq<MintedTokenView>),
                    Error,
                >((self@, minted_views(minted@))),
            decreases ids.len() - i,
        {
            proof {
                assert(all.take(i + 1).drop_last() =~= all.take(i as int));
                assert(all.take(i + 1).last() == ids@[i as int]@);
            }
            let ghost views = minted_views(minted@);
            let ghost reached = self@;
            match self.nft_mint_series(&ids[i], receiver_id, block_timestamp) {
                Err(e) => {
                    proof {
                        assert(mint_fault(reached, all.take(i + 1).last()) == Some(e));
                        assert(mint_all(start, all.take(i + 1), receiver_id@, block_timestamp) == Err::<
                            (ContractView, Seq<MintedTokenView>),
                            Error,
                        >(e));
                        lemma_mint_all_fails_early(start, all, receiver_id@, block_timestamp, i + 1);
                    }
                    return Err(e);
                },
                Ok(token) => {
                    minted.push(token);
                    assert(minted_views(minted@) =~= views.push(token@));
                },
            }
            i = i + 1;
        }
        assert(all.take(ids.len() as int) =~= all);
        Ok(minted)
    }

    /// Buys the event `token_series_id`: mints one item of the event and one
    /// of each of its companions to the receiver, and splits the price. The
    /// deposit must cover the price and the margin. Either all of this
    /// happens or nothing does.
    pub fn nft_buy(&mut self, ctx: &CallContext, token_series_id: String, receiver_id: Option<String>) -> (r:
        Result<Purchase, Error>)
        requires
            old(self).wf(),
        ensures
            final(self).wf(),
            match nft_buy_result(
                old(self)@,
                ctx.predecessor_id@,
                ctx.attached_deposit,
                ctx.block_timestamp,
                token_series_id@,
                crate::metadata::opt_text(receiver_id),
            ) {
                Err(e) => r matches Err(x) && x == e && final(self)@ == old(self)@,
                Ok((d, p)) => r matches Ok(x) && x@ == p && final(self)@ == d,
            },
            r matches Ok(p) ==> p.settlement.amount_vault + breakdown_total(p@.settlement.royalty)
                + p.settlement.amount_creator == p.price,
            final(self)@ == apply(
                old(self)@,
                (Operation::Buy {
                    predecessor: ctx.predecessor_id@,
                    attached_deposit: ctx.attached_deposit,
                    timestamp: ctx.block_timestamp,
                    id: token_series_id@,
                    receiver: crate::metadata::opt_text(receiver_id),
                }),
            ),
    {
        if !id_is_event(&token_series_id) {
            return Err(Error::WrongSeriesKind);
        }
        let position = match self.find_series(&token_series_id) {
            Some(i) => i,
            None => {
                return Err(Error::SeriesNotFound);
            },
        };
        let ghost before = self@;
        let ghost s = before.series[position as int];
        assert(series_wf(s, before.vault_fee));
        let price_reference: u64 = match self.token_series_by_id[position].price {
            Some(p) => p,
            None => {
                return Err(Error::NotForSale);
            },
        };
        let receiver: String = match receiver_id {
            Some(account) => {
                if is_valid_account_id(&account) {
                    account
                } else {
                    ctx.predecessor_id.clone()
                }
            },
            None => ctx.predecessor_id.clone(),
        };
        let price: u128 = match to_native(price_reference, self.tasa) {
            Ok(p) => p,
            Err(e) => {
                return Err(e);
            },
        };
        if price > u128::MAX - PURCHASE_MARGIN {
            return Err(Error::DepositBelowPrice { required: u128::MAX });
        }
        let required: u128 = price + PURCHASE_MARGIN;
        if ctx.attached_deposit < required {
            return Err(Error::DepositBelowPrice { required });
        }
        let mut ids: Vec<String> = Vec::new();
        ids.push(token_series_id.clone());
        let companions = clone_texts(&self.token_series_by_id[position].objects_mint);
        let mut k: usize = 0;
        while k < companions.len()
            invariant
                k <= companions.len(),
                ids.deep_view() == seq![token_series_id@] + companions.deep_view().take(k as int),
            decreases companions.len() - k,
        {
            let ghost so_far = ids.deep_view();
            ids.push(companions[k].clone());
            assert(ids.deep_view() =~= so_far.push(companions@[k as int]@));
            assert(companions.deep_view().take(k + 1) =~= companions.deep_view().take(k as int).push(
                companions@[k as int]@,
            ));
            assert(ids.deep_view() =~= seq![token_series_id@] + companions.deep_view().take(k + 1));
            k = k + 1;
        }
        assert(companions.deep_view().take(companions.len() as int) =~= companions.deep_view());
        assert(ids.deep_view() == purchase_series(before, token_series_id@));

        let mut work = self.clone();
        let minted = match work.mint_each(&ids, &receiver, ctx.block_timestamp) {
            Ok(v) => v,
            Err(e) => {
                return Err(e);
            },
        };
        let settlement = match settle(price, self.vault_fee, &self.token_series_by_id[position].royalty_buy) {
            Ok(s) => s,
            Err(e) => {
                return Err(e);
            },
        };
        let vault_id = self.vault_id.clone();
        let creator_id = self.token_series_by_id[position].creator_id.clone();
        let tasa = self.tasa;
        let is_mintable = match work.find_series(&token_series_id) {
            Some(i) => work.token_series_by_id[i].is_mintable,
            None => false,
        };
        proof {
            lemma_mint_all_keeps_series(
                before,
                purchase_series(before, token_series_id@),
                receiver@,
                ctx.block_timestamp,
                token_series_id@,
            );
        }
        *self = work;
        Ok(
            Purchase {
                token_series_id,
                receiver_id: receiver,
                minted,
                tasa,
                price_reference,
                price,
                vault_id,
                creator_id,
                settlement,
                is_mintable,
            },
        )
    }
}

/// Minting removes no series: a series that was there before the mints is
/// there after them.
pub proof fn lemma_mint_all_keeps_series(
    c: ContractView,
    ids: Seq<Seq<char>>,
    receiver: Seq<char>,
    timestamp: u64,
    id: Seq<char>,
)
    requires
        mint_all(c, ids, receiver, timestamp) is Ok,
    ensures
        has_series(mint_all(c, ids, receiver, timestamp)->Ok_0.0, id) == has_series(c, id),
    decreases ids.len(),
{
    if ids.len() > 0 {
        lemma_mint_all_keeps_series(c, ids.drop_last(), receiver, timestamp, id);
        let d = mint_all(c, ids.drop_last(), receiver, timestamp)->Ok_0.0;
        let e = crate::minting::after_mint(d, ids.last());
        lemma_series_position(d, ids.last());
        assert(crate::state::series_ids(d) =~= crate::state::series_ids(e));
    }
}

} // verus!
