//! Laws of the engine: statements about every state that meets the
//! invariant, proved from the models of the operations.

use vstd::prelude::*;
use crate::ids::{
    SeriesKind, lemma_item_id_injective, lemma_number_of_item, lemma_series_id_injective,
    lemma_series_id_shape, number_of_item, series_id_text,
};
use crate::metadata::TokenMetadataView;
use crate::error::Error;
use crate::minting::{after_mint, lemma_after_mint, mint_fault};
use crate::queries::single_series;
use crate::registry::{
    after_nft_event, created_event, lemma_created_event_is_found, nft_event_fault, update_fault,
    updated_series,
};
use crate::account::account_id_valid;
use crate::royalty::{
    MAX_ROYALTY_ACCOUNTS, MAX_ROYALTY_BPS, MAX_ROYALTY_BUY_ACCOUNTS, RoyaltyView, lemma_entries_without_fault,
    total_bps,
};
use crate::state::{
    ContractView, contract_wf, copies_limit, has_series, lemma_series_position, series_of, series_wf,
    supply_within_cap,
};

verus! {

/// Item identifiers are unique over the whole catalogue: two items are
/// named alike only where they are the same item of the same series.
pub proof fn lemma_item_ids_unique(c: ContractView, i: int, k: int, j: int, l: int)
    requires
        contract_wf(c),
        0 <= i < c.series.len(),
        0 <= j < c.series.len(),
        0 <= k < c.series[i].tokens.len(),
        0 <= l < c.series[j].tokens.len(),
        c.series[i].tokens[k] == c.series[j].tokens[l],
    ensures
        i == j,
        k == l,
{
    let a = c.series[i];
    let b = c.series[j];
    assert(series_wf(a, c.vault_fee));
    assert(series_wf(b, c.vault_fee));
    lemma_series_id_shape(a.kind, a.sequence as nat);
    lemma_series_id_shape(b.kind, b.sequence as nat);
    lemma_item_id_injective(a.token_series_id, (k + 1) as nat, b.token_series_id, (l + 1) as nat);
    lemma_series_id_injective(a.kind, a.sequence as nat, b.kind, b.sequence as nat);
}

/// Within a series the numbers of the items rise strictly: item `k` carries
/// the number `k + 1`.
pub proof fn lemma_item_numbers_increase(c: ContractView, i: int, k: int, l: int)
    requires
        contract_wf(c),
        0 <= i < c.series.len(),
        0 <= k < l < c.series[i].tokens.len(),
    ensures
        number_of_item(c.series[i].tokens[k]) == k + 1,
        number_of_item(c.series[i].tokens[l]) == l + 1,
        number_of_item(c.series[i].tokens[k]) < number_of_item(c.series[i].tokens[l]),
{
    let s = c.series[i];
    assert(series_wf(s, c.vault_fee));
    lemma_series_id_shape(s.kind, s.sequence as nat);
    lemma_number_of_item(s.token_series_id, (k + 1) as nat);
    lemma_number_of_item(s.token_series_id, (l + 1) as nat);
}

/// The royalty tables of every series keep their limits: every account is
/// well formed, the royalty table has at most ten accounts and 9000 basis
/// points, and the purchase-time table has at most five accounts, at most
/// 9000 basis points less the vault fee, and not the creator among them.
pub proof fn lemma_royalty_limits_hold(c: ContractView, i: int, k: int)
    requires
        contract_wf(c),
        0 <= i < c.series.len(),
    ensures
        c.series[i].royalty.len() <= MAX_ROYALTY_ACCOUNTS,
        total_bps(c.series[i].royalty) <= MAX_ROYALTY_BPS,
        c.series[i].royalty_buy.len() <= MAX_ROYALTY_BUY_ACCOUNTS,
        total_bps(c.series[i].royalty_buy) + c.vault_fee <= MAX_ROYALTY_BPS,
        0 <= k < c.series[i].royalty.len() ==> account_id_valid(c.series[i].royalty[k].0),
        0 <= k < c.series[i].royalty_buy.len() ==> account_id_valid(c.series[i].royalty_buy[k].0)
            && c.series[i].royalty_buy[k].0 != c.series[i].creator_id,
{
    let s = c.series[i];
    assert(series_wf(s, c.vault_fee));
    lemma_entries_without_fault(s.royalty, None);
    lemma_entries_without_fault(s.royalty_buy, Some(s.creator_id));
}

/// The identifiers of the series of a state are distinct.
pub proof fn lemma_series_ids_distinct(c: ContractView, i: int, j: int)
    requires
        contract_wf(c),
        0 <= i < c.series.len(),
        0 <= j < c.series.len(),
        c.series[i].token_series_id == c.series[j].token_series_id,
    ensures
        i == j,
{
    let a = c.series[i];
    let b = c.series[j];
    assert(series_wf(a, c.vault_fee));
    assert(series_wf(b, c.vault_fee));
    lemma_series_id_injective(a.kind, a.sequence as nat, b.kind, b.sequence as nat);
}

/// No series holds more items than its copies limit allows.
pub proof fn lemma_supply_within_cap(c: ContractView, i: int)
    requires
        contract_wf(c),
        0 <= i < c.series.len(),
    ensures
        c.series[i].tokens.len() <= copies_limit(c.series[i]),
{
    assert(series_wf(c.series[i], c.vault_fee));
}

/// A mint of a series with a copies limit: it fails, and changes nothing,
/// where the series is closed or all copies are minted; else, for a series
/// that has a title, it succeeds and adds one item, within the limit.
pub proof fn lemma_mint_within_cap(c: ContractView, id: Seq<char>, cap: u64)
    requires
        contract_wf(c),
        has_series(c, id),
        series_of(c, id).metadata.copies == Some(cap),
    ensures
        series_of(c, id).tokens.len() <= cap,
        !series_of(c, id).is_mintable || series_of(c, id).tokens.len() == cap ==> mint_fault(c, id) is Some,
        series_of(c, id).is_mintable && series_of(c, id).tokens.len() < cap && series_of(c, id).metadata.title
            is Some ==> mint_fault(c, id) is None && series_of(after_mint(c, id), id).tokens.len() == series_of(
            c,
            id,
        ).tokens.len() + 1 && series_of(after_mint(c, id), id).tokens.len() <= cap,
{
    lemma_series_position(c, id);
    assert(series_wf(series_of(c, id), c.vault_fee));
    if mint_fault(c, id) is None {
        lemma_after_mint(c, id);
    }
}

/// An update never puts the copies limit below the number of minted items,
/// and leaves the minted items as they are.
pub proof fn lemma_update_keeps_cap_above_supply(
    c: ContractView,
    predecessor: Seq<char>,
    signer: Seq<char>,
    id: Seq<char>,
    title: Option<Seq<char>>,
    description: Option<Seq<char>>,
    media: Option<Seq<char>>,
    price: Option<u64>,
    copies: Option<u64>,
    is_mintable: Option<bool>,
    royalty: Option<RoyaltyView>,
    royalty_buy: Option<RoyaltyView>,
)
    requires
        contract_wf(c),
        update_fault(c, predecessor, signer, id, price, copies, royalty, royalty_buy) is None,
    ensures
        updated_series(
            series_of(c, id),
            title,
            description,
            media,
            price,
            copies,
            is_mintable,
            royalty,
            royalty_buy,
        ).tokens == series_of(c, id).tokens,
        supply_within_cap(
            updated_series(
                series_of(c, id),
                title,
                description,
                media,
                price,
                copies,
                is_mintable,
                royalty,
                royalty_buy,
            ),
        ),
        copies is Some && series_of(c, id).metadata.copies is Some ==> copies_limit(
            updated_series(
                series_of(c, id),
                title,
                description,
                media,
                price,
                copies,
                is_mintable,
                royalty,
                royalty_buy,
            ),
        ) == copies_limit(series_of(c, id)) + copies->0,
{
    lemma_series_position(c, id);
    assert(series_wf(series_of(c, id), c.vault_fee));
}

/// The purchase-time royalty table is accepted at exactly 9000 basis
/// points less the vault fee, and stored as it was given; it is refused at
/// one basis point more. This holds wherever an event can be created at
/// all: an exchange rate is set, a title is given, both counters have
/// numbers left, the table has at most five accounts, all of them well
/// formed and none the caller, and no other royalty table is given.
pub proof fn lemma_royalty_buy_cap_is_exact(
    c: ContractView,
    caller: Seq<char>,
    metadata: TokenMetadataView,
    price: Option<u64>,
    royalty_buy: RoyaltyView,
)
    requires
        contract_wf(c),
        c.tasa > 0,
        c.id_event < u128::MAX,
        c.id_objects < u128::MAX,
        metadata.title is Some,
        royalty_buy.len() <= MAX_ROYALTY_BUY_ACCOUNTS,
        forall|k: int|
            0 <= k < royalty_buy.len() ==> account_id_valid((#[trigger] royalty_buy[k]).0) && royalty_buy[k].0
                != caller,
    ensures
        total_bps(royalty_buy) + c.vault_fee == MAX_ROYALTY_BPS ==> nft_event_fault(
            c,
            caller,
            metadata,
            Seq::empty(),
            royalty_buy,
        ) is None && created_event(c, caller, metadata, price, Seq::empty(), royalty_buy).royalty_buy
            == royalty_buy,
        total_bps(royalty_buy) + c.vault_fee == MAX_ROYALTY_BPS + 1 ==> nft_event_fault(
            c,
            caller,
            metadata,
            Seq::empty(),
            royalty_buy,
        ) == Some(Error::RoyaltyBuyExceedsCap { max: (MAX_ROYALTY_BPS - c.vault_fee) as u32 }),
{
    lemma_entries_accepted(royalty_buy, Some(caller));
    let none: RoyaltyView = Seq::empty();
    assert(crate::royalty::entries_fault(none, None) is None);
    assert(total_bps(none) == 0);
}

/// A table whose accounts are all well formed, and none of them the
/// excluded one, has no faulty entry.
pub proof fn lemma_entries_accepted(t: RoyaltyView, excluded: Option<Seq<char>>)
    requires
        forall|k: int| 0 <= k < t.len() ==> account_id_valid((#[trigger] t[k]).0) && excluded != Some(t[k].0),
    ensures
        crate::royalty::entries_fault(t, excluded) is None,
    decreases t.len(),
{
    if t.len() > 0 {
        let rest = t.drop_first();
        assert forall|k: int| 0 <= k < rest.len() implies account_id_valid((#[trigger] rest[k]).0) && excluded
            != Some(rest[k].0) by {
            assert(rest[k] == t[k + 1]);
        }
        lemma_entries_accepted(rest, excluded);
        assert(account_id_valid(t[0].0));
    }
}

/// The royalty tables that an event is created with are the tables that
/// reading the event back returns.
pub proof fn lemma_created_royalty_round_trip(
    c: ContractView,
    caller: Seq<char>,
    metadata: TokenMetadataView,
    price: Option<u64>,
    royalty: RoyaltyView,
    royalty_buy: RoyaltyView,
)
    requires
        contract_wf(c),
        nft_event_fault(c, caller, metadata, royalty, royalty_buy) is None,
    ensures
        has_series(
            after_nft_event(c, caller, metadata, price, royalty, royalty_buy),
            series_id_text(SeriesKind::Event, (c.id_event + 1) as nat),
        ),
        single_series(
            series_of(
                after_nft_event(c, caller, metadata, price, royalty, royalty_buy),
                series_id_text(SeriesKind::Event, (c.id_event + 1) as nat),
            ),
        ).royalty == royalty,
        series_of(
            after_nft_event(c, caller, metadata, price, royalty, royalty_buy),
            series_id_text(SeriesKind::Event, (c.id_event + 1) as nat),
        ).royalty_buy == royalty_buy,
        series_of(
            after_nft_event(c, caller, metadata, price, royalty, royalty_buy),
            series_id_text(SeriesKind::Event, (c.id_event + 1) as nat),
        ) == created_event(c, caller, metadata, price, royalty, royalty_buy),
{
    lemma_created_event_is_found(c, caller, metadata, price, royalty, royalty_buy);
}

} // verus!
