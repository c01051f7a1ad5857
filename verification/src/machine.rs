//! The engine as a state machine: the operations that change the state, as
//! values, and what holds of every sequence of them.

use vstd::prelude::*;
use crate::admin::{after_add_admin, update_tasa_fault};
use crate::ids::{item_id_text, lemma_number_of_item, lemma_series_id_shape, number_of_item};
use crate::metadata::TokenMetadataView;
use crate::minting::{after_mint, lemma_after_mint, mint_all, mint_fault, next_number, nft_mint_fault};
use crate::purchase::nft_buy_result;
use crate::registry::{
    after_nft_event, after_nft_objects, after_update, given_table_distinct, lemma_after_nft_event_wf,
    lemma_after_nft_objects_wf, lemma_after_update_wf, nft_event_fault, nft_objects_fault, update_fault,
    updated_series,
};
use crate::royalty::{RoyaltyView, distinct_accounts};
use crate::state::{
    ContractView, contract_wf, has_series, is_administrator, is_companion_of_catalogue,
    lemma_series_in_extension, lemma_series_position, lemma_with_text_distinct, series_ids, series_of,
    series_position, series_wf, supply_within_cap,
};
use crate::text::{distinct_texts, has_text};

verus! {

/// One call of an operation that can change the state, with what it is
/// called with.
pub enum Operation {
    /// `add_admin`, signed by `signer`.
    AddAdmin { signer: Seq<char>, account: Seq<char> },
    /// `update_tasa`, signed by `signer`.
    UpdateTasa { signer: Seq<char>, tasa: u64 },
    /// `nft_event`, called by `caller`.
    CreateEvent {
        caller: Seq<char>,
        metadata: TokenMetadataView,
        price: Option<u64>,
        royalty: RoyaltyView,
        royalty_buy: RoyaltyView,
    },
    /// `nft_objects`, called by `caller`.
    CreateObject { caller: Seq<char>, metadata: TokenMetadataView, event_id: Seq<char> },
    /// `update_nft_event`.
    Update {
        predecessor: Seq<char>,
        signer: Seq<char>,
        id: Seq<char>,
        title: Option<Seq<char>>,
        description: Option<Seq<char>>,
        media: Option<Seq<char>>,
        price: Option<u64>,
        copies: Option<u64>,
        is_mintable: Option<bool>,
        royalty: Option<RoyaltyView>,
        royalty_buy: Option<RoyaltyView>,
    },
    /// `nft_mint`, called by `predecessor`.
    Mint { predecessor: Seq<char>, id: Seq<char> },
    /// `nft_buy`.
    Buy {
        predecessor: Seq<char>,
        attached_deposit: u128,
        timestamp: u64,
        id: Seq<char>,
        receiver: Option<Seq<char>>,
    },
}

/// The state after one operation: the new state where the operation
/// succeeds, the old state where it fails. The burns, the approval and the
/// queries change nothing and are no operations here.
pub open spec fn apply(c: ContractView, op: Operation) -> ContractView {
    match op {
        Operation::AddAdmin { signer, account } => if is_administrator(c, signer) {
            after_add_admin(c, account)
        } else {
            c
        },
        Operation::UpdateTasa { signer, tasa } => if update_tasa_fault(c, signer, tasa) is None {
            ContractView { tasa: tasa, ..c }
        } else {
            c
        },
        Operation::CreateEvent { caller, metadata, price, royalty, royalty_buy } => if distinct_accounts(royalty)
            && distinct_accounts(royalty_buy) && nft_event_fault(c, caller, metadata, royalty, royalty_buy)
            is None {
            after_nft_event(c, caller, metadata, price, royalty, royalty_buy)
        } else {
            c
        },
        Operation::CreateObject { caller, metadata, event_id } => if nft_objects_fault(c, event_id) is None {
            after_nft_objects(c, caller, metadata, event_id)
        } else {
            c
        },
        Operation::Update {
            predecessor,
            signer,
            id,
            title,
            description,
            media,
            price,
            copies,
            is_mintable,
            royalty,
            royalty_buy,
        } => if given_table_distinct(royalty) && given_table_distinct(royalty_buy) && update_fault(
            c,
            predecessor,
            signer,
            id,
            price,
            copies,
            royalty,
            royalty_buy,
        ) is None {
            after_update(
                c,
                id,
                updated_series(
                    series_of(c, id),
                    title,
                    description,
                    media,
                    price,
                    copies,
                    is_mintable,
                    royalty,
                    royalty_buy,
                ),
            )
        } else {
            c
        },
        Operation::Mint { predecessor, id } => if nft_mint_fault(c, predecessor, id) is None {
            after_mint(c, id)
        } else {
            c
        },
        Operation::Buy { predecessor, attached_deposit, timestamp, id, receiver } => match nft_buy_result(
            c,
            predecessor,
            attached_deposit,
            timestamp,
            id,
            receiver,
        ) {
            Ok((d, _)) => d,
            Err(_) => c,
        },
    }
}

/// The state after a sequence of operations, applied in their order.
pub open spec fn run(c: ContractView, ops: Seq<Operation>) -> ContractView
    decreases ops.len(),
{
    if ops.len() == 0 {
        c
    } else {
        apply(run(c, ops.drop_last()), ops.last())
    }
}

/// The state `d` continues the state `c`: every series of `c` stands at the
/// same position under the same identifier in `d`, and the items that it
/// had minted are the first items that it has minted in `d`.
pub open spec fn continues(c: ContractView, d: ContractView) -> bool {
    &&& c.series.len() <= d.series.len()
    &&& forall|i: int|
        0 <= i < c.series.len() ==> (#[trigger] d.series[i]).token_series_id == c.series[i].token_series_id
    &&& forall|i: int| 0 <= i < c.series.len() ==> c.series[i].tokens.len() <= (#[trigger] d.series[i]).tokens.len()
    &&& forall|i: int, k: int|
        0 <= i < c.series.len() && 0 <= k < c.series[i].tokens.len() ==> (#[trigger] d.series[i].tokens[k])
            == c.series[i].tokens[k]
}

/// A state that continues a continuation of a state continues that state.
pub proof fn lemma_continues_transitive(c: ContractView, d: ContractView, e: ContractView)
    requires
        continues(c, d),
        continues(d, e),
    ensures
        continues(c, e),
{
    assert forall|i: int| 0 <= i < c.series.len() implies (#[trigger] e.series[i]).token_series_id
        == c.series[i].token_series_id by {
        assert(d.series[i].token_series_id == c.series[i].token_series_id);
    }
    assert forall|i: int| 0 <= i < c.series.len() implies c.series[i].tokens.len() <= (
    #[trigger] e.series[i]).tokens.len() by {
        assert(c.series[i].tokens.len() <= d.series[i].tokens.len());
    }
    assert forall|i: int, k: int| 0 <= i < c.series.len() && 0 <= k < c.series[i].tokens.len() implies (
    #[trigger] e.series[i].tokens[k]) == c.series[i].tokens[k] by {
        assert(c.series[i].tokens.len() <= d.series[i].tokens.len());
        assert(d.series[i].tokens[k] == c.series[i].tokens[k]);
    }
}

/// A mint keeps the invariant and continues the state.
pub proof fn lemma_mint_continues(c: ContractView, id: Seq<char>)
    requires
        contract_wf(c),
        mint_fault(c, id) is None,
    ensures
        contract_wf(after_mint(c, id)),
        continues(c, after_mint(c, id)),
{
    lemma_after_mint(c, id);
    lemma_series_position(c, id);
    let d = after_mint(c, id);
    let p = series_position(c, id);
    assert forall|i: int, k: int| 0 <= i < c.series.len() && 0 <= k < c.series[i].tokens.len() implies (
    #[trigger] d.series[i].tokens[k]) == c.series[i].tokens[k] by {
        if i != p {
            assert(d.series[i] == c.series[i]);
        }
    }
    assert forall|i: int| 0 <= i < c.series.len() implies c.series[i].tokens.len() <= (
    #[trigger] d.series[i]).tokens.len() by {
        if i != p {
            assert(d.series[i] == c.series[i]);
        }
    }
}

/// The mints of a purchase keep the invariant and continue the state.
pub proof fn lemma_mint_all_continues(c: ContractView, ids: Seq<Seq<char>>, receiver: Seq<char>, timestamp: u64)
    requires
        contract_wf(c),
        mint_all(c, ids, receiver, timestamp) is Ok,
    ensures
        contract_wf(mint_all(c, ids, receiver, timestamp)->Ok_0.0),
        continues(c, mint_all(c, ids, receiver, timestamp)->Ok_0.0),
    decreases ids.len(),
{
    if ids.len() > 0 {
        lemma_mint_all_continues(c, ids.drop_last(), receiver, timestamp);
        let d = mint_all(c, ids.drop_last(), receiver, timestamp)->Ok_0.0;
        lemma_mint_continues(d, ids.last());
        lemma_continues_transitive(c, d, after_mint(d, ids.last()));
    }
}

/// The mints of a purchase add one item to every series that is named, and
/// leave the items of every other series as they are, where no series is
/// named twice. As many items are minted as series are named.
pub proof fn lemma_mint_all_adds_one_each(
    c: ContractView,
    ids: Seq<Seq<char>>,
    receiver: Seq<char>,
    timestamp: u64,
    i: int,
)
    requires
        contract_wf(c),
        distinct_texts(ids),
        mint_all(c, ids, receiver, timestamp) is Ok,
        0 <= i < c.series.len(),
    ensures
        mint_all(c, ids, receiver, timestamp)->Ok_0.1.len() == ids.len(),
        mint_all(c, ids, receiver, timestamp)->Ok_0.0.series.len() == c.series.len(),
        mint_all(c, ids, receiver, timestamp)->Ok_0.0.series[i].token_series_id == c.series[i].token_series_id,
        has_text(ids, c.series[i].token_series_id) ==> mint_all(
            c,
            ids,
            receiver,
            timestamp,
        )->Ok_0.0.series[i].tokens.len() == c.series[i].tokens.len() + 1,
        !has_text(ids, c.series[i].token_series_id) ==> mint_all(
            c,
            ids,
            receiver,
            timestamp,
        )->Ok_0.0.series[i].tokens == c.series[i].tokens,
    decreases ids.len(),
{
    let name = c.series[i].token_series_id;
    if ids.len() > 0 {
        let rest = ids.drop_last();
        let last = ids.last();
        assert forall|a: int, b: int| 0 <= a < b < rest.len() implies #[trigger] rest[a] != #[trigger] rest[b] by {
            assert(rest[a] == ids[a] && rest[b] == ids[b]);
        }
        lemma_mint_all_adds_one_each(c, rest, receiver, timestamp, i);
        lemma_mint_all_continues(c, rest, receiver, timestamp);
        let d = mint_all(c, rest, receiver, timestamp)->Ok_0.0;
        let e = after_mint(d, last);
        lemma_after_mint(d, last);
        lemma_series_position(d, last);
        let p = series_position(d, last);
        if has_text(rest, last) {
            let a = choose|a: int| 0 <= a < rest.len() && #[trigger] rest[a] == last;
            assert(ids[a] == rest[a]);
            assert(ids[ids.len() - 1] == last);
        }
        if name == last {
            crate::laws::lemma_series_ids_distinct(d, i, p);
            assert(ids[ids.len() - 1] == last);
        } else {
            assert(e.series[i] == d.series[i]);
            if has_text(ids, name) {
                let a = choose|a: int| 0 <= a < ids.len() && #[trigger] ids[a] == name;
                assert(rest[a] == ids[a]);
            }
            if has_text(rest, name) {
                let a = choose|a: int| 0 <= a < rest.len() && #[trigger] rest[a] == name;
                assert(ids[a] == rest[a]);
            }
        }
    }
}

/// A purchase mints exactly one item of the event and one of each of its
/// companions, and no item of any other series.
pub proof fn lemma_purchase_mints_one_of_each(
    c: ContractView,
    predecessor: Seq<char>,
    attached_deposit: u128,
    timestamp: u64,
    id: Seq<char>,
    receiver: Option<Seq<char>>,
    i: int,
)
    requires
        contract_wf(c),
        nft_buy_result(c, predecessor, attached_deposit, timestamp, id, receiver) is Ok,
        0 <= i < c.series.len(),
    ensures
        nft_buy_result(c, predecessor, attached_deposit, timestamp, id, receiver)->Ok_0.1.minted.len() == 1
            + series_of(c, id).objects_mint.len(),
        c.series[i].token_series_id == id || has_text(series_of(c, id).objects_mint, c.series[i].token_series_id)
            ==> nft_buy_result(
            c,
            predecessor,
            attached_deposit,
            timestamp,
            id,
            receiver,
        )->Ok_0.0.series[i].tokens.len() == c.series[i].tokens.len() + 1,
        !(c.series[i].token_series_id == id || has_text(
            series_of(c, id).objects_mint,
            c.series[i].token_series_id,
        )) ==> nft_buy_result(c, predecessor, attached_deposit, timestamp, id, receiver)->Ok_0.0.series[i].tokens
            == c.series[i].tokens,
{
    let bundle = series_of(c, id).objects_mint;
    let ids = crate::purchase::purchase_series(c, id);
    let to = crate::purchase::beneficiary(predecessor, receiver);
    let name = c.series[i].token_series_id;
    lemma_series_position(c, id);
    let event = series_of(c, id);
    assert(series_wf(event, c.vault_fee));
    lemma_series_id_shape(event.kind, event.sequence as nat);
    assert forall|a: int, b: int| 0 <= a < b < ids.len() implies #[trigger] ids[a] != #[trigger] ids[b] by {
        if a == 0 {
            let k = b - 1;
            assert(ids[b] == bundle[k]);
            assert(is_companion_of_catalogue(c, bundle[k]));
        } else {
            assert(ids[a] == bundle[a - 1] && ids[b] == bundle[b - 1]);
        }
    }
    lemma_mint_all_adds_one_each(c, ids, to, timestamp, i);
    if has_text(ids, name) {
        let a = choose|a: int| 0 <= a < ids.len() && #[trigger] ids[a] == name;
        if a > 0 {
            assert(bundle[a - 1] == ids[a]);
        }
    }
    if name == id {
        assert(ids[0] == id);
    }
    if has_text(bundle, name) {
        let k = choose|k: int| 0 <= k < bundle.len() && #[trigger] bundle[k] == name;
        assert(ids[k + 1] == bundle[k]);
    }
}

/// Every operation keeps the invariant of the state and continues the state.
pub proof fn lemma_apply(c: ContractView, op: Operation)
    requires
        contract_wf(c),
    ensures
        contract_wf(apply(c, op)),
        continues(c, apply(c, op)),
{
    let d = apply(c, op);
    match op {
        Operation::AddAdmin { signer, account } => {
            lemma_with_text_distinct(c.list_admin, account);
            assert(series_ids(d) =~= series_ids(c));
        },
        Operation::UpdateTasa { signer, tasa } => {
            assert(series_ids(d) =~= series_ids(c));
        },
        Operation::CreateEvent { caller, metadata, price, royalty, royalty_buy } => {
            if d != c {
                lemma_after_nft_event_wf(c, caller, metadata, price, royalty, royalty_buy);
                assert forall|i: int| 0 <= i < c.series.len() implies #[trigger] d.series[i] == c.series[i] by {}
            }
        },
        Operation::CreateObject { caller, metadata, event_id } => {
            if nft_objects_fault(c, event_id) is None {
                lemma_after_nft_objects_wf(c, caller, metadata, event_id);
                lemma_series_position(c, event_id);
                let p = series_position(c, event_id);
                assert forall|i: int| 0 <= i < c.series.len() implies (#[trigger] d.series[i]).tokens
                    == c.series[i].tokens && d.series[i].token_series_id == c.series[i].token_series_id by {
                    if i != p {
                        assert(d.series[i] == c.series[i]);
                    }
                }
            }
        },
        Operation::Update {
            predecessor,
            signer,
            id,
            title,
            description,
            media,
            price,
            copies,
            is_mintable,
            royalty,
            royalty_buy,
        } => {
            if given_table_distinct(royalty) && given_table_distinct(royalty_buy) && update_fault(
                c,
                predecessor,
                signer,
                id,
                price,
                copies,
                royalty,
                royalty_buy,
            ) is None {
                lemma_after_update_wf(
                    c,
                    predecessor,
                    signer,
                    id,
                    title,
                    description,
                    media,
                    price,
                    copies,
                    is_mintable,
                    royalty,
                    royalty_buy,
                );
                lemma_series_position(c, id);
                let p = series_position(c, id);
                assert forall|i: int| 0 <= i < c.series.len() implies (#[trigger] d.series[i]).tokens
                    == c.series[i].tokens && d.series[i].token_series_id == c.series[i].token_series_id by {
                    if i != p {
                        assert(d.series[i] == c.series[i]);
                    }
                }
            }
        },
        Operation::Mint { predecessor, id } => {
            if nft_mint_fault(c, predecessor, id) is None {
                lemma_mint_continues(c, id);
            }
        },
        Operation::Buy { predecessor, attached_deposit, timestamp, id, receiver } => {
            if nft_buy_result(c, predecessor, attached_deposit, timestamp, id, receiver) is Ok {
                lemma_mint_all_continues(
                    c,
                    crate::purchase::purchase_series(c, id),
                    crate::purchase::beneficiary(predecessor, receiver),
                    timestamp,
                );
            }
        },
    }
}

/// Every sequence of operations keeps the invariant of the state and
/// continues the state that it started from.
pub proof fn lemma_run(c: ContractView, ops: Seq<Operation>)
    requires
        contract_wf(c),
    ensures
        contract_wf(run(c, ops)),
        continues(c, run(c, ops)),
    decreases ops.len(),
{
    if ops.len() > 0 {
        lemma_run(c, ops.drop_last());
        let d = run(c, ops.drop_last());
        lemma_apply(d, ops.last());
        lemma_continues_transitive(c, d, apply(d, ops.last()));
    }
}

/// Whatever operations are applied to a state that meets the invariant, no
/// series ever holds more items than its copies limit allows.
pub proof fn lemma_cap_holds_after_any_operations(c: ContractView, ops: Seq<Operation>, i: int)
    requires
        contract_wf(c),
        0 <= i < run(c, ops).series.len(),
    ensures
        supply_within_cap(run(c, ops).series[i]),
{
    lemma_run(c, ops);
    assert(series_wf(run(c, ops).series[i], run(c, ops).vault_fee));
}

/// A series that a state holds is held, at its position and with its items
/// as the first of its items, by every state that continues the state.
pub proof fn lemma_series_continues(c: ContractView, d: ContractView, id: Seq<char>)
    requires
        continues(c, d),
        has_series(c, id),
    ensures
        has_series(d, id),
        series_position(d, id) == series_position(c, id),
        series_of(c, id).tokens.len() <= series_of(d, id).tokens.len(),
        series_of(d, id).token_series_id == series_of(c, id).token_series_id,
{
    lemma_series_in_extension(c, d, id);
    lemma_series_position(c, id);
    let p = series_position(c, id);
    assert(c.series[p].tokens.len() <= d.series[p].tokens.len());
    assert(d.series[p].token_series_id == c.series[p].token_series_id);
}

/// The identifier that the next mint of the series `id` issues.
pub open spec fn next_item_id(c: ContractView, id: Seq<char>) -> Seq<char> {
    item_id_text(id, next_number(series_of(c, id)))
}

/// Two mints of one series, with any operations in between, issue rising
/// numbers: the later item carries a higher number than the earlier one,
/// and the very next number where no item of the series was minted in
/// between.
pub proof fn lemma_later_mint_has_higher_number(c: ContractView, id: Seq<char>, between: Seq<Operation>)
    requires
        contract_wf(c),
        mint_fault(c, id) is None,
        mint_fault(run(after_mint(c, id), between), id) is None,
    ensures
        number_of_item(next_item_id(c, id)) == series_of(c, id).tokens.len() + 1,
        number_of_item(next_item_id(run(after_mint(c, id), between), id)) == series_of(
            run(after_mint(c, id), between),
            id,
        ).tokens.len() + 1,
        number_of_item(next_item_id(c, id)) < number_of_item(
            next_item_id(run(after_mint(c, id), between), id),
        ),
        series_of(run(after_mint(c, id), between), id).tokens.len() == series_of(after_mint(c, id), id).tokens.len()
            ==> number_of_item(next_item_id(run(after_mint(c, id), between), id)) == number_of_item(
            next_item_id(c, id),
        ) + 1,
{
    let first = after_mint(c, id);
    let later = run(first, between);
    lemma_after_mint(c, id);
    lemma_run(first, between);
    lemma_series_continues(first, later, id);
    lemma_series_position(c, id);
    let s = series_of(c, id);
    assert(series_wf(s, c.vault_fee));
    lemma_series_id_shape(s.kind, s.sequence as nat);
    lemma_number_of_item(id, next_number(series_of(c, id)));
    lemma_number_of_item(id, next_number(series_of(later, id)));
}

} // verus!
