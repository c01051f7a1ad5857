//! The catalogue of series: creating an event with its companion, adding a
//! companion to an event, and updating a series.

use vstd::prelude::*;
use vstd::string::*;
use crate::context::CallContext;
use crate::error::Error;
use crate::machine::{Operation, apply};
use crate::ids::{SeriesKind, is_event_id, id_is_event, series_id_string, series_id_text};
use crate::metadata::{TokenMetadata, TokenMetadataView};
use crate::royalty::{RoyaltyTable, RoyaltyView, royalty_buy_fault, royalty_fault};
use crate::metadata::opt_text;
use crate::state::{
    Contract, ContractView, SeriesView, TokenSeries, contract_wf, has_series, insert_text,
    is_companion_of_catalogue, lemma_fresh_id, lemma_series_in_extension, lemma_with_text_distinct, may_manage, series_of, series_position, series_wf, supply_within_cap,
    with_series, with_text,
};

verus! {

/// The description that every companion of an event carries.
pub open spec fn companion_description() -> Seq<char> {
    "This is the let me in of the event"@
}

/// The media that every companion of an event carries.
pub open spec fn companion_media() -> Seq<char> {
    "https://mintickt.mypinata.cloud/ipfs/QmdW7LfjTfHWmpRadqk2o5oUUFutPuqUx2dZj3C4CH2Jjr"@
}

/// The table that was given, or the empty table.
pub open spec fn table_or_empty(t: Option<RoyaltyTable>) -> RoyaltyView {
    match t {
        Some(t) => t@,
        None => Seq::empty(),
    }
}

/// Why an event cannot be created, if it cannot: no exchange rate is set, a
/// counter is exhausted, the title is missing, or one of the royalty tables
/// is refused, the purchase-time table first.
pub open spec fn nft_event_fault(
    c: ContractView,
    caller: Seq<char>,
    metadata: TokenMetadataView,
    royalty: RoyaltyView,
    royalty_buy: RoyaltyView,
) -> Option<Error> {
    if c.tasa == 0 {
        Some(Error::RateNotPositive)
    } else if c.id_event == u128::MAX || c.id_objects == u128::MAX {
        Some(Error::SequenceExhausted)
    } else if metadata.title is None {
        Some(Error::TitleRequired)
    } else if royalty_buy_fault(royalty_buy, caller, c.vault_fee) is Some {
        royalty_buy_fault(royalty_buy, caller, c.vault_fee)
    } else {
        royalty_fault(royalty)
    }
}

/// The metadata of the companion that is made with the event `event_id`:
/// that of the event, with the fixed description and media, without a copies
/// limit, and with a reference to the event.
pub open spec fn companion_metadata(metadata: TokenMetadataView, event_id: Seq<char>) -> TokenMetadataView {
    TokenMetadataView {
        description: Some(companion_description()),
        media: Some(companion_media()),
        copies: None,
        reference: Some(event_id),
        ..metadata
    }
}

/// The event series that `nft_event` makes.
pub open spec fn created_event(
    c: ContractView,
    caller: Seq<char>,
    metadata: TokenMetadataView,
    price: Option<u64>,
    royalty: RoyaltyView,
    royalty_buy: RoyaltyView,
) -> SeriesView {
    SeriesView {
        token_series_id: series_id_text(SeriesKind::Event, (c.id_event + 1) as nat),
        kind: SeriesKind::Event,
        sequence: (c.id_event + 1) as u128,
        metadata: metadata,
        creator_id: caller,
        tokens: Seq::empty(),
        objects_mint: seq![series_id_text(SeriesKind::Companion, (c.id_objects + 1) as nat)],
        price: price,
        is_mintable: true,
        royalty: royalty,
        royalty_buy: royalty_buy,
    }
}

/// The companion series that `nft_event` makes beside the event.
pub open spec fn created_companion(c: ContractView, caller: Seq<char>, metadata: TokenMetadataView) -> SeriesView {
    SeriesView {
        token_series_id: series_id_text(SeriesKind::Companion, (c.id_objects + 1) as nat),
        kind: SeriesKind::Companion,
        sequence: (c.id_objects + 1) as u128,
        metadata: companion_metadata(metadata, series_id_text(SeriesKind::Event, (c.id_event + 1) as nat)),
        creator_id: caller,
        tokens: Seq::empty(),
        objects_mint: Seq::empty(),
        price: None,
        is_mintable: true,
        royalty: Seq::empty(),
        royalty_buy: Seq::empty(),
    }
}

/// The state after an event was created: both counters advanced, and the
/// event and its companion added behind the older series.
pub open spec fn after_nft_event(
    c: ContractView,
    caller: Seq<char>,
    metadata: TokenMetadataView,
    price: Option<u64>,
    royalty: RoyaltyView,
    royalty_buy: RoyaltyView,
) -> ContractView {
    ContractView {
        id_event: (c.id_event + 1) as u128,
        id_objects: (c.id_objects + 1) as u128,
        series: c.series.push(created_event(c, caller, metadata, price, royalty, royalty_buy)).push(
            created_companion(c, caller, metadata),
        ),
        ..c
    }
}

/// Creating an event keeps the invariant of the state.
pub proof fn lemma_after_nft_event_wf(
    c: ContractView,
    caller: Seq<char>,
    metadata: TokenMetadataView,
    price: Option<u64>,
    royalty: RoyaltyView,
    royalty_buy: RoyaltyView,
)
    requires
        contract_wf(c),
        crate::royalty::distinct_accounts(royalty),
        crate::royalty::distinct_accounts(royalty_buy),
        nft_event_fault(c, caller, metadata, royalty, royalty_buy) is None,
    ensures
        contract_wf(after_nft_event(c, caller, metadata, price, royalty, royalty_buy)),
{
    let d = after_nft_event(c, caller, metadata, price, royalty, royalty_buy);
    let ev = created_event(c, caller, metadata, price, royalty, royalty_buy);
    let co = created_companion(c, caller, metadata);
    let n = c.series.len() as int;
    let none: RoyaltyView = Seq::empty();
    assert(crate::royalty::entries_fault(none, None) is None);
    assert(crate::royalty::entries_fault(none, Some(caller)) is None);
    assert(crate::royalty::total_bps(none) == 0);
    assert(series_wf(ev, d.vault_fee));
    assert(series_wf(co, d.vault_fee));
    assert forall|i: int| 0 <= i < d.series.len() implies series_wf(#[trigger] d.series[i], d.vault_fee) by {
        if i < n {
            assert(d.series[i] == c.series[i]);
        }
    }
    assert forall|i: int| 0 <= i < d.series.len() implies (#[trigger] d.series[i]).sequence
        <= crate::state::counter_of(d, d.series[i].kind) by {
        if i < n {
            assert(d.series[i] == c.series[i]);
        }
    }
    assert forall|i: int, j: int| 0 <= i < j < d.series.len() implies !(((#[trigger] d.series[i]).kind
        == SeriesKind::Event) == ((#[trigger] d.series[j]).kind == SeriesKind::Event) && d.series[i].sequence
        == d.series[j].sequence) by {
        if i < n {
            assert(d.series[i] == c.series[i]);
        }
        if j < n {
            assert(d.series[j] == c.series[j]);
        }
    }
    // the bundle of the new event is the new companion, which stands last
    let ids = crate::state::series_ids(d);
    lemma_fresh_id(c, SeriesKind::Companion, (c.id_objects + 1) as nat);
    assert forall|i: int| 0 <= i < n implies #[trigger] ids[i] != co.token_series_id by {
        assert(d.series[i] == c.series[i]);
    }
    if ev.token_series_id == co.token_series_id {
        crate::ids::lemma_series_id_injective(
            SeriesKind::Event,
            (c.id_event + 1) as nat,
            SeriesKind::Companion,
            (c.id_objects + 1) as nat,
        );
    }
    assert(ids[n] == ev.token_series_id);
    assert(ids[n + 1] == co.token_series_id);
    crate::text::lemma_text_position_is(ids, co.token_series_id, n + 1);
    assert forall|i: int, k: int|
        0 <= i < d.series.len() && 0 <= k < d.series[i].objects_mint.len() implies is_companion_of_catalogue(
        d,
        #[trigger] d.series[i].objects_mint[k],
    ) by {
        let b = d.series[i].objects_mint[k];
        if i < n {
            assert(d.series[i] == c.series[i]);
            assert(is_companion_of_catalogue(c, c.series[i].objects_mint[k]));
            lemma_series_in_extension(c, d, b);
            crate::state::lemma_series_position(c, b);
            assert(d.series[series_position(c, b)] == c.series[series_position(c, b)]);
        } else {
            assert(i == n);
            assert(b == co.token_series_id);
            assert(d.series[n + 1] == co);
        }
    }
}

/// Why a companion cannot be added to the series `event_id`, if it cannot:
/// the identifier does not name an event, no such series exists, or the
/// counter is exhausted.
pub open spec fn nft_objects_fault(c: ContractView, event_id: Seq<char>) -> Option<Error> {
    if !is_event_id(event_id) {
        Some(Error::WrongSeriesKind)
    } else if !has_series(c, event_id) {
        Some(Error::SeriesNotFound)
    } else if c.id_objects == u128::MAX {
        Some(Error::SequenceExhausted)
    } else {
        None
    }
}

/// The companion series that `nft_objects` makes for the event `event_id`:
/// the given metadata without a copies limit and with a reference to the event.
pub open spec fn created_object(
    c: ContractView,
    caller: Seq<char>,
    metadata: TokenMetadataView,
    event_id: Seq<char>,
) -> SeriesView {
    SeriesView {
        token_series_id: series_id_text(SeriesKind::Object, (c.id_objects + 1) as nat),
        kind: SeriesKind::Object,
        sequence: (c.id_objects + 1) as u128,
        metadata: TokenMetadataView { copies: None, reference: Some(event_id), ..metadata },
        creator_id: caller,
        tokens: Seq::empty(),
        objects_mint: Seq::empty(),
        price: None,
        is_mintable: true,
        royalty: Seq::empty(),
        royalty_buy: Seq::empty(),
    }
}

/// The state after a companion was added to the event `event_id`: the
/// counter advanced, the new series behind the older ones, and its
/// identifier among the companions of the event.
pub open spec fn after_nft_objects(
    c: ContractView,
    caller: Seq<char>,
    metadata: TokenMetadataView,
    event_id: Seq<char>,
) -> ContractView {
    let position = series_position(c, event_id);
    let event = c.series[position];
    let object = created_object(c, caller, metadata, event_id);
    ContractView {
        id_objects: (c.id_objects + 1) as u128,
        series: c.series.update(
            position,
            SeriesView { objects_mint: with_text(event.objects_mint, object.token_series_id), ..event },
        ).push(object),
        ..c
    }
}

/// Adding a companion keeps the invariant of the state.
pub proof fn lemma_after_nft_objects_wf(
    c: ContractView,
    caller: Seq<char>,
    metadata: TokenMetadataView,
    event_id: Seq<char>,
)
    requires
        contract_wf(c),
        nft_objects_fault(c, event_id) is None,
    ensures
        contract_wf(after_nft_objects(c, caller, metadata, event_id)),
{
    let d = after_nft_objects(c, caller, metadata, event_id);
    let ob = created_object(c, caller, metadata, event_id);
    let n = c.series.len() as int;
    let p = series_position(c, event_id);
    let none: RoyaltyView = Seq::empty();
    crate::state::lemma_series_position(c, event_id);
    assert(crate::royalty::entries_fault(none, None) is None);
    assert(crate::royalty::entries_fault(none, Some(caller)) is None);
    assert(crate::royalty::total_bps(none) == 0);
    assert(series_wf(ob, d.vault_fee));
    lemma_with_text_distinct(c.series[p].objects_mint, ob.token_series_id);
    assert(series_wf(c.series[p], c.vault_fee));
    assert forall|i: int| 0 <= i < d.series.len() implies series_wf(#[trigger] d.series[i], d.vault_fee) by {
        if i < n && i != p {
            assert(d.series[i] == c.series[i]);
        }
    }
    assert forall|i: int| 0 <= i < d.series.len() implies (#[trigger] d.series[i]).sequence
        <= crate::state::counter_of(d, d.series[i].kind) by {
        if i < n {
            assert(d.series[i].sequence == c.series[i].sequence);
            assert(d.series[i].kind == c.series[i].kind);
        }
    }
    assert forall|i: int, j: int| 0 <= i < j < d.series.len() implies !(((#[trigger] d.series[i]).kind
        == SeriesKind::Event) == ((#[trigger] d.series[j]).kind == SeriesKind::Event) && d.series[i].sequence
        == d.series[j].sequence) by {
        if i < n {
            assert(d.series[i].sequence == c.series[i].sequence);
            assert(d.series[i].kind == c.series[i].kind);
        }
        if j < n {
            assert(d.series[j].sequence == c.series[j].sequence);
            assert(d.series[j].kind == c.series[j].kind);
        }
    }
    // the new companion stands last, and is what the event bundles anew
    let ids = crate::state::series_ids(d);
    lemma_fresh_id(c, SeriesKind::Object, (c.id_objects + 1) as nat);
    assert forall|i: int| 0 <= i < n implies #[trigger] ids[i] != ob.token_series_id by {
        assert(d.series[i].token_series_id == c.series[i].token_series_id);
    }
    assert(ids[n] == ob.token_series_id);
    crate::text::lemma_text_position_is(ids, ob.token_series_id, n);
    assert forall|i: int, k: int|
        0 <= i < d.series.len() && 0 <= k < d.series[i].objects_mint.len() implies is_companion_of_catalogue(
        d,
        #[trigger] d.series[i].objects_mint[k],
    ) by {
        let b = d.series[i].objects_mint[k];
        if i < n {
            if i == p && k >= c.series[p].objects_mint.len() {
                assert(b == ob.token_series_id);
                assert(d.series[n] == ob);
            } else {
                assert(b == c.series[i].objects_mint[k]);
                assert(is_companion_of_catalogue(c, c.series[i].objects_mint[k]));
                lemma_series_in_extension(c, d, b);
                crate::state::lemma_series_position(c, b);
                assert(d.series[series_position(c, b)].kind == c.series[series_position(c, b)].kind);
            }
        }
    }
}

/// The value that was given, or else the value that was there.
pub open spec fn or_keep<T>(given: Option<T>, kept: Option<T>) -> Option<T> {
    match given {
        Some(_) => given,
        None => kept,
    }
}

/// The copies limit after an update by `copies`: the old limit raised by
/// `copies`, or `copies` itself where there was none.
pub open spec fn raised_copies(old_limit: Option<u64>, copies: Option<u64>) -> Option<int> {
    match copies {
        Some(n) => match old_limit {
            Some(limit) => Some(limit + n),
            None => Some(n as int),
        },
        None => match old_limit {
            Some(limit) => Some(limit as int),
            None => None,
        },
    }
}

/// Why the series `id` cannot be updated, if it cannot. The conditions are
/// looked for in this order: the series exists; the call may manage it; a
/// price is given only to a mintable series; the raised copies limit fits
/// in 64 bits; a first copies limit is not below the number of minted
/// items; the purchase-time royalty table, then the royalty table, is
/// accepted.
pub open spec fn update_fault(
    c: ContractView,
    predecessor: Seq<char>,
    signer: Seq<char>,
    id: Seq<char>,
    price: Option<u64>,
    copies: Option<u64>,
    royalty: Option<RoyaltyView>,
    royalty_buy: Option<RoyaltyView>,
) -> Option<Error> {
    if !has_series(c, id) {
        Some(Error::SeriesNotFound)
    } else {
        let s = series_of(c, id);
        if !may_manage(c, predecessor, signer, s.creator_id) {
            Some(Error::OnlyCreatorOrAdministrator)
        } else if price is Some && !s.is_mintable {
            Some(Error::NotMintable)
        } else if raised_copies(s.metadata.copies, copies) matches Some(n) && n > u64::MAX {
            Some(Error::CopiesOverflow)
        } else if copies matches Some(n) && s.metadata.copies is None && n < s.tokens.len() {
            Some(Error::CopiesBelowSupply { minted: s.tokens.len() as u64 })
        } else if royalty_buy matches Some(t) && royalty_buy_fault(t, s.creator_id, c.vault_fee) is Some {
            royalty_buy_fault(royalty_buy->0, s.creator_id, c.vault_fee)
        } else if royalty matches Some(t) && royalty_fault(t) is Some {
            royalty_fault(royalty->0)
        } else {
            None
        }
    }
}

/// The series after an update. Only what was given changes. A price of zero
/// clears the price. A copies value is added to the limit, or becomes the
/// limit where there was none, and opens the series for minting; a
/// mintability flag is applied after that. A royalty table replaces the one
/// that was there.
pub open spec fn updated_series(
    s: SeriesView,
    title: Option<Seq<char>>,
    description: Option<Seq<char>>,
    media: Option<Seq<char>>,
    price: Option<u64>,
    copies: Option<u64>,
    is_mintable: Option<bool>,
    royalty: Option<RoyaltyView>,
    royalty_buy: Option<RoyaltyView>,
) -> SeriesView {
    SeriesView {
        metadata: TokenMetadataView {
            title: or_keep(title, s.metadata.title),
            description: or_keep(description, s.metadata.description),
            media: or_keep(media, s.metadata.media),
            copies: match raised_copies(s.metadata.copies, copies) {
                Some(n) => Some(n as u64),
                None => None,
            },
            ..s.metadata
        },
        price: match price {
            Some(p) => if p > 0 {
                Some(p)
            } else {
                None
            },
            None => s.price,
        },
        is_mintable: match is_mintable {
            Some(b) => b,
            None => copies is Some || s.is_mintable,
        },
        royalty: match royalty {
            Some(t) => t,
            None => s.royalty,
        },
        royalty_buy: match royalty_buy {
            Some(t) => t,
            None => s.royalty_buy,
        },
        ..s
    }
}

/// The state after the series `id` was updated.
pub open spec fn after_update(c: ContractView, id: Seq<char>, updated: SeriesView) -> ContractView {
    with_series(c, series_position(c, id), updated)
}

impl TokenSeries {
    /// Applies an update whose conditions were checked. `new_copies` is the
    /// raised copies limit.
    pub(crate) fn apply_update(
        &mut self,
        title: Option<String>,
        description: Option<String>,
        media: Option<String>,
        price: Option<u64>,
        copies: Option<u64>,
        new_copies: Option<u64>,
        is_mintable: Option<bool>,
        royalty: Option<RoyaltyTable>,
        royalty_buy: Option<RoyaltyTable>,
    )
        requires
            raised_copies(old(self)@.metadata.copies, copies) == (match new_copies {
                Some(n) => Some(n as int),
                None => None,
            }),
        ensures
            final(self)@ == updated_series(
                old(self)@,
                opt_text(title),
                opt_text(description),
                opt_text(media),
                price,
                copies,
                is_mintable,
                table_view(royalty),
                table_view(royalty_buy),
            ),
    {
        if title.is_some() {
            self.metadata.title = title;
        }
        if description.is_some() {
            self.metadata.description = description;
        }
        if media.is_some() {
            self.metadata.media = media;
        }
        match price {
            Some(p) => {
                if p > 0 {
                    self.price = Some(p);
                } else {
                    self.price = None;
                }
            },
            None => {},
        }
        if copies.is_some() {
            self.metadata.copies = new_copies;
            self.is_mintable = true;
        }
        match is_mintable {
            Some(b) => {
                self.is_mintable = b;
            },
            None => {},
        }
        match royalty_buy {
            Some(t) => {
                self.royalty_buy = t;
            },
            None => {},
        }
        match royalty {
            Some(t) => {
                self.royalty = t;
            },
            None => {},
        }
    }
}

/// A table that was given holds no account twice.
pub open spec fn given_table_distinct(t: Option<RoyaltyView>) -> bool {
    t matches Some(table) ==> crate::royalty::distinct_accounts(table)
}

/// An update keeps the invariant of the state, and the updated series is
/// found where the series was.
pub proof fn lemma_after_update_wf(
    c: ContractView,
    predecessor: Seq<char>,
    signer: Seq<char>,
    id: Seq<char>,
    title: Option<Seq<char>>,
    description: Option<Seq<char>>,
    media: Option<Seq<char>>,
    price: Option<u64>,
    copies: Option<u64>,
    is_mintable: Option<bool>,
    royalty: Option<RoyaltyView>,
    royalty_buy: Option<RoyaltyView>,
)
    requires
        contract_wf(c),
        given_table_distinct(royalty),
        given_table_distinct(royalty_buy),
        update_fault(c, predecessor, signer, id, price, copies, royalty, royalty_buy) is None,
    ensures
        contract_wf(
            after_update(
                c,
                id,
                updated_series(
                    series_of(c, id),
                    title,
                    description,
                    media,
                    price,
                    copies,
                    is_mintable,
                    royalty,
                    royalty_buy,
                ),
            ),
        ),
        has_series(
            after_update(
                c,
                id,
                updated_series(
                    series_of(c, id),
                    title,
                    description,
                    media,
                    price,
                    copies,
                    is_mintable,
                    royalty,
                    royalty_buy,
                ),
            ),
            id,
        ),
        series_of(
            after_update(
                c,
                id,
                updated_series(
                    series_of(c, id),
                    title,
                    description,
                    media,
                    price,
                    copies,
                    is_mintable,
                    royalty,
                    royalty_buy,
                ),
            ),
            id,
        ) == updated_series(
            series_of(c, id),
            title,
            description,
            media,
            price,
            copies,
            is_mintable,
            royalty,
            royalty_buy,
        ),
{
    crate::state::lemma_series_position(c, id);
    let p = series_position(c, id);
    let s = c.series[p];
    let u = updated_series(s, title, description, media, price, copies, is_mintable, royalty, royalty_buy);
    assert(series_wf(s, c.vault_fee));
    assert(series_wf(u, c.vault_fee));
    crate::state::lemma_with_series_wf(c, p, u);
    assert(series_position(after_update(c, id, u), id) == p);
}

/// The view of the table that was given, if one was.
pub open spec fn table_view(t: Option<RoyaltyTable>) -> Option<RoyaltyView> {
    match t {
        Some(t) => Some(t@),
        None => None,
    }
}

/// A created event is found under its identifier.
pub proof fn lemma_created_event_is_found(
    c: ContractView,
    caller: Seq<char>,
    metadata: TokenMetadataView,
    price: Option<u64>,
    royalty: RoyaltyView,
    royalty_buy: RoyaltyView,
)
    requires
        contract_wf(c),
        c.id_event < u128::MAX,
    ensures
        has_series(
            after_nft_event(c, caller, metadata, price, royalty, royalty_buy),
            series_id_text(SeriesKind::Event, (c.id_event + 1) as nat),
        ),
        series_of(
            after_nft_event(c, caller, metadata, price, royalty, royalty_buy),
            series_id_text(SeriesKind::Event, (c.id_event + 1) as nat),
        ) == created_event(c, caller, metadata, price, royalty, royalty_buy),
{
    let d = after_nft_event(c, caller, metadata, price, royalty, royalty_buy);
    let id = series_id_text(SeriesKind::Event, (c.id_event + 1) as nat);
    let n = c.series.len() as int;
    let ids = crate::state::series_ids(d);
    assert forall|i: int| 0 <= i < n implies #[trigger] ids[i] != id by {
        let s = c.series[i];
        assert(d.series[i] == s);
        assert(series_wf(s, c.vault_fee));
        if s.token_series_id == id {
            crate::ids::lemma_series_id_injective(
                s.kind,
                s.sequence as nat,
                SeriesKind::Event,
                (c.id_event + 1) as nat,
            );
        }
    }
    assert(ids[n] == id);
    crate::text::lemma_text_position_is(ids, id, n);
}

impl Contract {
    /// Creates an event series for the caller, and with it the companion
    /// series that every purchase of the event mints too. Returns the
    /// identifier of the event.
    pub fn nft_event(
        &mut self,
        ctx: &CallContext,
        event_metadata: TokenMetadata,
        price: Option<u64>,
        royalty: Option<RoyaltyTable>,
        royalty_buy: Option<RoyaltyTable>,
    ) -> (r: Result<String, Error>)
        requires
            old(self).wf(),
            royalty matches Some(t) ==> t.well_formed(),
            royalty_buy matches Some(t) ==> t.well_formed(),
        ensures
            final(self).wf(),
            match nft_event_fault(
                old(self)@,
                ctx.predecessor_id@,
                event_metadata@,
                table_or_empty(royalty),
                table_or_empty(royalty_buy),
            ) {
                Some(e) => r == Err::<String, Error>(e) && final(self)@ == old(self)@,
                None => r matches Ok(id) && id@ == series_id_text(
                    SeriesKind::Event,
                    (old(self)@.id_event + 1) as nat,
                ) && final(self)@ == after_nft_event(
                    old(self)@,
                    ctx.predecessor_id@,
                    event_metadata@,
                    price,
                    table_or_empty(royalty),
                    table_or_empty(royalty_buy),
                ),
            },
            r matches Ok(id) ==> has_series(final(self)@, id@) && series_of(final(self)@, id@) == created_event(
                old(self)@,
                ctx.predecessor_id@,
                event_metadata@,
                price,
                table_or_empty(royalty),
                table_or_empty(royalty_buy),
            ),
            final(self)@ == apply(
                old(self)@,
                (Operation::CreateEvent {
                    caller: ctx.predecessor_id@,
                    metadata: event_metadata@,
                    price: price,
                    royalty: table_or_empty(royalty),
                    royalty_buy: table_or_empty(royalty_buy),
                }),
            ),
    {
        if self.tasa == 0 {
            return Err(Error::RateNotPositive);
        }
        if self.id_event == u128::MAX || self.id_objects == u128::MAX {
            return Err(Error::SequenceExhausted);
        }
        if event_metadata.title.is_none() {
            return Err(Error::TitleRequired);
        }
        let royalty_buy_table = match royalty_buy {
            Some(t) => t,
            None => RoyaltyTable::new(),
        };
        match royalty_buy_table.check_royalty_buy(&ctx.predecessor_id, self.vault_fee) {
            Err(e) => {
                return Err(e);
            },
            Ok(_) => {},
        }
        let royalty_table = match royalty {
            Some(t) => t,
            None => RoyaltyTable::new(),
        };
        match royalty_table.check_royalty() {
            Err(e) => {
                return Err(e);
            },
            Ok(_) => {},
        }
        proof {
            lemma_after_nft_event_wf(
                self@,
                ctx.predecessor_id@,
                event_metadata@,
                price,
                royalty_table@,
                royalty_buy_table@,
            );
            lemma_created_event_is_found(
                self@,
                ctx.predecessor_id@,
                event_metadata@,
                price,
                royalty_table@,
                royalty_buy_table@,
            );
        }
        let event_sequence: u128 = self.id_event + 1;
        let object_sequence: u128 = self.id_objects + 1;
        let event_id = series_id_string(SeriesKind::Event, event_sequence);
        let object_id = series_id_string(SeriesKind::Companion, object_sequence);

        let mut object_metadata = event_metadata.clone();
        object_metadata.description = Some(String::from_str("This is the let me in of the event"));
        object_metadata.media = Some(
            String::from_str(
                "https://mintickt.mypinata.cloud/ipfs/QmdW7LfjTfHWmpRadqk2o5oUUFutPuqUx2dZj3C4CH2Jjr",
            ),
        );
        object_metadata.copies = None;
        object_metadata.reference = Some(event_id.clone());

        let mut objects_mint: Vec<String> = Vec::new();
        objects_mint.push(object_id.clone());
        let event = TokenSeries {
            token_series_id: event_id.clone(),
            kind: SeriesKind::Event,
            sequence: event_sequence,
            metadata: event_metadata,
            creator_id: ctx.predecessor_id.clone(),
            tokens: Vec::new(),
            objects_mint,
            price,
            is_mintable: true,
            royalty: royalty_table,
            royalty_buy: royalty_buy_table,
        };
        let companion = TokenSeries {
            token_series_id: object_id,
            kind: SeriesKind::Companion,
            sequence: object_sequence,
            metadata: object_metadata,
            creator_id: ctx.predecessor_id.clone(),
            tokens: Vec::new(),
            objects_mint: Vec::new(),
            price: None,
            is_mintable: true,
            royalty: RoyaltyTable::new(),
            royalty_buy: RoyaltyTable::new(),
        };
        let ghost before = self@;
        let ghost expected_event = created_event(
            before,
            ctx.predecessor_id@,
            event.metadata@,
            price,
            event.royalty@,
            event.royalty_buy@,
        );
        let ghost expected_companion = created_companion(before, ctx.predecessor_id@, event.metadata@);
        proof {
            assert(event@.tokens =~= expected_event.tokens);
            assert(event@.objects_mint =~= expected_event.objects_mint);
            assert(event@ == expected_event);
            assert(companion@.tokens =~= expected_companion.tokens);
            assert(companion@.objects_mint =~= expected_companion.objects_mint);
            assert(companion@ == expected_companion);
        }
        self.id_event = event_sequence;
        self.id_objects = object_sequence;
        self.token_series_by_id.push(event);
        self.token_series_by_id.push(companion);
        proof {
            assert(self@.series =~= before.series.push(expected_event).push(expected_companion));
        }
        Ok(event_id)
    }

    /// Creates a companion series for the caller and binds it to the event
    /// `token_series_id_assignment`, so that every purchase of the event
    /// mints one of its items too. Returns the identifier of the companion.
    pub fn nft_objects(
        &mut self,
        ctx: &CallContext,
        token_metadata: TokenMetadata,
        token_series_id_assignment: String,
    ) -> (r: Result<String, Error>)
        requires
            old(self).wf(),
        ensures
            final(self).wf(),
            match nft_objects_fault(old(self)@, token_series_id_assignment@) {
                Some(e) => r == Err::<String, Error>(e) && final(self)@ == old(self)@,
                None => r matches Ok(id) && id@ == series_id_text(
                    SeriesKind::Object,
                    (old(self)@.id_objects + 1) as nat,
                ) && final(self)@ == after_nft_objects(
                    old(self)@,
                    ctx.predecessor_id@,
                    token_metadata@,
                    token_series_id_assignment@,
                ),
            },
            final(self)@ == apply(
                old(self)@,
                (Operation::CreateObject {
                    caller: ctx.predecessor_id@,
                    metadata: token_metadata@,
                    event_id: token_series_id_assignment@,
                }),
            ),
    {
        if !id_is_event(&token_series_id_assignment) {
            return Err(Error::WrongSeriesKind);
        }
        let position = match self.find_series(&token_series_id_assignment) {
            Some(i) => i,
            None => {
                return Err(Error::SeriesNotFound);
            },
        };
        if self.id_objects == u128::MAX {
            return Err(Error::SequenceExhausted);
        }
        proof {
            lemma_after_nft_objects_wf(
                self@,
                ctx.predecessor_id@,
                token_metadata@,
                token_series_id_assignment@,
            );
        }
        let ghost before = self@;
        let ghost expected = created_object(
            before,
            ctx.predecessor_id@,
            token_metadata@,
            token_series_id_assignment@,
        );
        let object_sequence: u128 = self.id_objects + 1;
        let object_id = series_id_string(SeriesKind::Object, object_sequence);
        let mut object_metadata = token_metadata;
        object_metadata.copies = None;
        object_metadata.reference = Some(token_series_id_assignment);
        let object = TokenSeries {
            token_series_id: object_id.clone(),
            kind: SeriesKind::Object,
            sequence: object_sequence,
            metadata: object_metadata,
            creator_id: ctx.predecessor_id.clone(),
            tokens: Vec::new(),
            objects_mint: Vec::new(),
            price: None,
            is_mintable: true,
            royalty: RoyaltyTable::new(),
            royalty_buy: RoyaltyTable::new(),
        };
        proof {
            assert(object@.tokens =~= expected.tokens);
            assert(object@.objects_mint =~= expected.objects_mint);
            assert(object@ == expected);
        }
        self.id_objects = object_sequence;
        insert_text(&mut self.token_series_by_id[position].objects_mint, object_id.clone());
        self.token_series_by_id.push(object);
        proof {
            let after = after_nft_objects(
                before,
                ctx.predecessor_id@,
                token_metadata@,
                token_series_id_assignment@,
            );
            assert(self@.series.len() == after.series.len());
            assert forall|i: int| 0 <= i < after.series.len() implies self@.series[i] == after.series[i] by {
                if i < before.series.len() && i != position {
                    assert(self@.series[i] == before.series[i]);
                }
            }
            assert(self@.series =~= after.series);
        }
        Ok(object_id)
    }

    /// Updates the series `token_event_id`, of whatever kind. Only the
    /// fields that are given change. The caller must be the owner of the
    /// contract or the creator of the series, or the call must be signed by
    /// an administrator. The copies limit never comes to stand below the
    /// number of items already minted.
    pub fn update_nft_event(
        &mut self,
        ctx: &CallContext,
        token_event_id: String,
        title: Option<String>,
        description: Option<String>,
        media: Option<String>,
        price: Option<u64>,
        copies: Option<u64>,
        is_mintable: Option<bool>,
        royalty: Option<RoyaltyTable>,
        royalty_buy: Option<RoyaltyTable>,
    ) -> (r: Result<(), Error>)
        requires
            old(self).wf(),
            royalty matches Some(t) ==> t.well_formed(),
            royalty_buy matches Some(t) ==> t.well_formed(),
        ensures
            final(self).wf(),
            match update_fault(
                old(self)@,
                ctx.predecessor_id@,
                ctx.signer_id@,
                token_event_id@,
                price,
                copies,
                table_view(royalty),
                table_view(royalty_buy),
            ) {
                Some(e) => r == Err::<(), Error>(e) && final(self)@ == old(self)@,
                None => r is Ok && final(self)@ == after_update(
                    old(self)@,
                    token_event_id@,
                    updated_series(
                        series_of(old(self)@, token_event_id@),
                        opt_text(title),
                        opt_text(description),
                        opt_text(media),
                        price,
                        copies,
                        is_mintable,
                        table_view(royalty),
                        table_view(royalty_buy),
                    ),
                ),
            },
            r is Ok ==> has_series(final(self)@, token_event_id@) && series_of(final(self)@, token_event_id@)
                == updated_series(
                series_of(old(self)@, token_event_id@),
                opt_text(title),
                opt_text(description),
                opt_text(media),
                price,
                copies,
                is_mintable,
                table_view(royalty),
                table_view(royalty_buy),
            ),
            r is Ok ==> supply_within_cap(series_of(final(self)@, token_event_id@)) && series_of(
                final(self)@,
                token_event_id@,
            ).tokens == series_of(old(self)@, token_event_id@).tokens,
            final(self)@ == apply(
                old(self)@,
                (Operation::Update {
                    predecessor: ctx.predecessor_id@,
                    signer: ctx.signer_id@,
                    id: token_event_id@,
                    title: opt_text(title),
                    description: opt_text(description),
                    media: opt_text(media),
                    price: price,
                    copies: copies,
                    is_mintable: is_mintable,
                    royalty: table_view(royalty),
                    royalty_buy: table_view(royalty_buy),
                }),
            ),
    {
        let position = match self.find_series(&token_event_id) {
            Some(i) => i,
            None => {
                return Err(Error::SeriesNotFound);
            },
        };
        let ghost before = self@;
        let ghost s = before.series[position as int];
        assert(series_wf(s, before.vault_fee));
        if !self.may_manage(
            &ctx.predecessor_id,
            &ctx.signer_id,
            &self.token_series_by_id[position].creator_id,
        ) {
            return Err(Error::OnlyCreatorOrAdministrator);
        }
        if price.is_some() && !self.token_series_by_id[position].is_mintable {
            return Err(Error::NotMintable);
        }
        let minted: u64 = self.token_series_by_id[position].tokens.len() as u64;
        let new_copies: Option<u64> = match copies {
            Some(n) => match self.token_series_by_id[position].metadata.copies {
                Some(limit) => {
                    if limit > u64::MAX - n {
                        return Err(Error::CopiesOverflow);
                    }
                    Some(limit + n)
                },
                None => {
                    if n < minted {
                        return Err(Error::CopiesBelowSupply { minted });
                    }
                    Some(n)
                },
            },
            None => self.token_series_by_id[position].metadata.copies,
        };
        match &royalty_buy {
            Some(t) => {
                match t.check_royalty_buy(&self.token_series_by_id[position].creator_id, self.vault_fee) {
                    Err(e) => {
                        return Err(e);
                    },
                    Ok(_) => {},
                }
            },
            None => {},
        }
        match &royalty {
            Some(t) => {
                match t.check_royalty() {
                    Err(e) => {
                        return Err(e);
                    },
                    Ok(_) => {},
                }
            },
            None => {},
        }
        let ghost expected = updated_series(
            s,
            opt_text(title),
            opt_text(description),
            opt_text(media),
            price,
            copies,
            is_mintable,
            table_view(royalty),
            table_view(royalty_buy),
        );
        proof {
            lemma_after_update_wf(
                before,
                ctx.predecessor_id@,
                ctx.signer_id@,
                token_event_id@,
                opt_text(title),
                opt_text(description),
                opt_text(media),
                price,
                copies,
                is_mintable,
                table_view(royalty),
                table_view(royalty_buy),
            );
        }
        self.token_series_by_id[position].apply_update(
            title,
            description,
            media,
            price,
            copies,
            new_copies,
            is_mintable,
            royalty,
            royalty_buy,
        );
        proof {
            let after = after_update(before, token_event_id@, expected);
            assert(self@.series[position as int] == expected);
            assert forall|i: int| 0 <= i < after.series.len() implies self@.series[i] == after.series[i] by {
                if i != position {
                    assert(self@.series[i] == before.series[i]);
                }
            }
            assert(self@.series =~= after.series);
        }
        Ok(())
    }
}

} // verus!
