//! The state of the engine: the catalogue of series and the contract-wide
//! settings, with their mathematical model and their invariant.

use vstd::prelude::*;
use vstd::string::*;
use crate::ids::{SeriesKind, item_id_text, series_id_text};
use crate::metadata::{
    NFTContractMetadata, NFTContractMetadataView, TokenMetadata, TokenMetadataView, clone_texts,
};
use crate::royalty::{
    MAX_ROYALTY_BPS, RoyaltyTable, RoyaltyView, distinct_accounts, royalty_buy_fault, royalty_fault,
};
use crate::text::{distinct_texts, has_text, lemma_text_position, lemma_text_position_is, text_position};

verus! {

/// A series: a family of numbered items with one metadata, one creator and
/// one royalty configuration.
#[derive(Debug, PartialEq, Eq)]
pub struct TokenSeries {
    pub(crate) token_series_id: String,
    pub(crate) kind: SeriesKind,
    pub(crate) sequence: u128,
    pub(crate) metadata: TokenMetadata,
    pub(crate) creator_id: String,
    pub(crate) tokens: Vec<String>,
    pub(crate) objects_mint: Vec<String>,
    pub(crate) price: Option<u64>,
    pub(crate) is_mintable: bool,
    pub(crate) royalty: RoyaltyTable,
    pub(crate) royalty_buy: RoyaltyTable,
}

/// The model of a series.
pub struct SeriesView {
    /// The identifier, `<kind>|<sequence>`.
    pub token_series_id: Seq<char>,
    /// What the series issues.
    pub kind: SeriesKind,
    /// Its number among the series of its counter.
    pub sequence: u128,
    /// Its metadata; `copies` is the copies limit.
    pub metadata: TokenMetadataView,
    /// The account that made the series.
    pub creator_id: Seq<char>,
    /// The identifiers of the items minted so far, in the order of minting.
    pub tokens: Seq<Seq<char>>,
    /// The companion series that are minted with every purchase.
    pub objects_mint: Seq<Seq<char>>,
    /// The reference price; `None` means not for sale.
    pub price: Option<u64>,
    /// Whether items can be minted.
    pub is_mintable: bool,
    /// The royalties of every later sale.
    pub royalty: RoyaltyView,
    /// The royalties of the purchase itself.
    pub royalty_buy: RoyaltyView,
}

impl View for TokenSeries {
    type V = SeriesView;

    open(crate) spec fn view(&self) -> SeriesView {
        SeriesView {
            token_series_id: self.token_series_id@,
            kind: self.kind,
            sequence: self.sequence,
            metadata: self.metadata@,
            creator_id: self.creator_id@,
            tokens: self.tokens.deep_view(),
            objects_mint: self.objects_mint.deep_view(),
            price: self.price,
            is_mintable: self.is_mintable,
            royalty: self.royalty@,
            royalty_buy: self.royalty_buy@,
        }
    }
}

impl Clone for TokenSeries {
    fn clone(&self) -> (r: Self)
        ensures
            r@ == self@,
    {
        TokenSeries {
            token_series_id: self.token_series_id.clone(),
            kind: self.kind,
            sequence: self.sequence,
            metadata: self.metadata.clone(),
            creator_id: self.creator_id.clone(),
            tokens: clone_texts(&self.tokens),
            objects_mint: clone_texts(&self.objects_mint),
            price: self.price,
            is_mintable: self.is_mintable,
            royalty: self.royalty.clone(),
            royalty_buy: self.royalty_buy.clone(),
        }
    }
}

/// The whole state: the settings of the contract and its series, in the
/// order in which they were made.
#[derive(Debug, PartialEq, Eq)]
pub struct Contract {
    pub(crate) metadata: NFTContractMetadata,
    pub(crate) owner_id: String,
    pub(crate) list_admin: Vec<String>,
    pub(crate) id_objects: u128,
    pub(crate) id_event: u128,
    pub(crate) token_series_by_id: Vec<TokenSeries>,
    pub(crate) vault_id: String,
    pub(crate) vault_fee: u32,
    pub(crate) tasa: u64,
}

/// The model of the state.
pub struct ContractView {
    /// The metadata of the contract.
    pub metadata: NFTContractMetadataView,
    /// The owner of the contract.
    pub owner_id: Seq<char>,
    /// The administrators.
    pub list_admin: Seq<Seq<char>>,
    /// The last sequence number given to a companion series.
    pub id_objects: u128,
    /// The last sequence number given to an event series.
    pub id_event: u128,
    /// The series, oldest first.
    pub series: Seq<SeriesView>,
    /// The account that takes the vault fee.
    pub vault_id: Seq<char>,
    /// The vault fee in basis points.
    pub vault_fee: u32,
    /// The exchange rate: the reference price of one native unit. Zero until set.
    pub tasa: u64,
}

impl View for Contract {
    type V = ContractView;

    open(crate) spec fn view(&self) -> ContractView {
        ContractView {
            metadata: self.metadata@,
            owner_id: self.owner_id@,
            list_admin: self.list_admin.deep_view(),
            id_objects: self.id_objects,
            id_event: self.id_event,
            series: self.token_series_by_id.deep_view(),
            vault_id: self.vault_id@,
            vault_fee: self.vault_fee,
            tasa: self.tasa,
        }
    }
}

impl DeepView for TokenSeries {
    type V = SeriesView;

    open(crate) spec fn deep_view(&self) -> SeriesView {
        self@
    }
}

/// The identifiers of the series, oldest first.
pub open spec fn series_ids(c: ContractView) -> Seq<Seq<char>> {
    Seq::new(c.series.len(), |i: int| c.series[i].token_series_id)
}

/// The position of the series `id`, or the number of series where there is none.
pub open spec fn series_position(c: ContractView, id: Seq<char>) -> int {
    text_position(series_ids(c), id)
}

/// Whether there is a series `id`.
pub open spec fn has_series(c: ContractView, id: Seq<char>) -> bool {
    series_position(c, id) < c.series.len()
}

/// The series `id`.
pub open spec fn series_of(c: ContractView, id: Seq<char>) -> SeriesView
    recommends
        has_series(c, id),
{
    c.series[series_position(c, id)]
}

/// The copies limit that minting goes by: the configured one, or the
/// largest 64-bit number where none is set.
pub open spec fn copies_limit(s: SeriesView) -> u64 {
    match s.metadata.copies {
        Some(c) => c,
        None => u64::MAX,
    }
}

/// No more items are minted than the copies limit allows.
pub open spec fn supply_within_cap(s: SeriesView) -> bool {
    s.tokens.len() <= copies_limit(s)
}

/// The invariant of one series under the given vault fee: its identifier is
/// that of its kind and sequence, item `k` has the number `k`, starting at
/// one, no more items are minted than the copies limit allows, and both
/// royalty tables are within their limits.
pub open spec fn series_wf(s: SeriesView, vault_fee: u32) -> bool {
    &&& s.sequence >= 1
    &&& s.token_series_id == series_id_text(s.kind, s.sequence as nat)
    &&& forall|k: int|
        0 <= k < s.tokens.len() ==> #[trigger] s.tokens[k] == item_id_text(s.token_series_id, (k + 1) as nat)
    &&& supply_within_cap(s)
    &&& distinct_texts(s.objects_mint)
    &&& distinct_accounts(s.royalty)
    &&& royalty_fault(s.royalty) is None
    &&& distinct_accounts(s.royalty_buy)
    &&& royalty_buy_fault(s.royalty_buy, s.creator_id, vault_fee) is None
}

/// The counter that numbers the series of `kind`.
pub open spec fn counter_of(c: ContractView, kind: SeriesKind) -> u128 {
    if kind == SeriesKind::Event {
        c.id_event
    } else {
        c.id_objects
    }
}

/// The identifier names a series of the catalogue that is a companion of
/// either sort.
pub open spec fn is_companion_of_catalogue(c: ContractView, id: Seq<char>) -> bool {
    has_series(c, id) && series_of(c, id).kind != SeriesKind::Event
}

/// Every series bundles companions of the catalogue only.
pub open spec fn bundles_resolve(c: ContractView) -> bool {
    forall|i: int, k: int|
        0 <= i < c.series.len() && 0 <= k < c.series[i].objects_mint.len() ==> is_companion_of_catalogue(
            c,
            #[trigger] c.series[i].objects_mint[k],
        )
}

/// The invariant of the state: the vault fee is within the royalty cap; no
/// administrator is listed twice; series exist only where an exchange rate
/// is set; every series meets the invariant of a series; every sequence
/// number was given by its counter, and none twice; and every bundled
/// identifier names a companion series of the catalogue.
pub open spec fn contract_wf(c: ContractView) -> bool {
    &&& bundles_resolve(c)
    &&& c.vault_fee <= MAX_ROYALTY_BPS
    &&& distinct_texts(c.list_admin)
    &&& (c.series.len() > 0 ==> c.tasa > 0)
    &&& forall|i: int| 0 <= i < c.series.len() ==> series_wf(#[trigger] c.series[i], c.vault_fee)
    &&& forall|i: int|
        0 <= i < c.series.len() ==> (#[trigger] c.series[i]).sequence <= counter_of(c, c.series[i].kind)
    &&& forall|i: int, j: int|
        0 <= i < j < c.series.len() ==> !(((#[trigger] c.series[i]).kind == SeriesKind::Event) == ((
        #[trigger] c.series[j]).kind == SeriesKind::Event) && c.series[i].sequence == c.series[j].sequence)
}

/// The list with `t` added as a set would add it: at the end, unless the
/// list holds it already.
pub open spec fn with_text(list: Seq<Seq<char>>, t: Seq<char>) -> Seq<Seq<char>> {
    if has_text(list, t) {
        list
    } else {
        list.push(t)
    }
}

/// Adding a text as to a set keeps the texts of a list distinct.
pub proof fn lemma_with_text_distinct(list: Seq<Seq<char>>, t: Seq<char>)
    requires
        distinct_texts(list),
    ensures
        distinct_texts(with_text(list, t)),
        has_text(with_text(list, t), t),
{
    let u = with_text(list, t);
    if !has_text(list, t) {
        assert(u[list.len() as int] == t);
        assert forall|i: int, j: int| 0 <= i < j < u.len() implies #[trigger] u[i] != #[trigger] u[j] by {
            if j < list.len() {
                assert(u[i] == list[i] && u[j] == list[j]);
            } else {
                assert(u[i] == list[i]);
            }
        }
    }
}

/// Adds `t` to a list of strings unless the list holds it already.
pub fn insert_text(list: &mut Vec<String>, t: String)
    ensures
        final(list).deep_view() == with_text(old(list).deep_view(), t@),
{
    proof {
        lemma_text_position(list.deep_view(), t@);
    }
    match crate::text::find_text(list, &t) {
        Some(_) => {},
        None => {
            list.push(t);
            assert(list.deep_view() =~= old(list).deep_view().push(t@));
        },
    }
}

/// Where `series_position` points: at the series `id` where there is one.
pub proof fn lemma_series_position(c: ContractView, id: Seq<char>)
    ensures
        0 <= series_position(c, id) <= c.series.len(),
        has_series(c, id) ==> c.series[series_position(c, id)].token_series_id == id,
        forall|i: int| 0 <= i < series_position(c, id) ==> (#[trigger] c.series[i]).token_series_id != id,
{
    lemma_text_position(series_ids(c), id);
    assert forall|i: int| 0 <= i < series_position(c, id) implies (#[trigger] c.series[i]).token_series_id
        != id by {
        assert(series_ids(c)[i] != id);
    }
}

/// The state with the series at `position` replaced.
pub open spec fn with_series(c: ContractView, position: int, s: SeriesView) -> ContractView {
    ContractView { series: c.series.update(position, s), ..c }
}

/// Replacing a series by one of the same identifier, kind and sequence that
/// meets the invariant of a series keeps the invariant of the state, and
/// every series stays where it was.
pub proof fn lemma_with_series_wf(c: ContractView, position: int, s: SeriesView)
    requires
        contract_wf(c),
        0 <= position < c.series.len(),
        series_wf(s, c.vault_fee),
        s.token_series_id == c.series[position].token_series_id,
        s.kind == c.series[position].kind,
        s.sequence == c.series[position].sequence,
        s.objects_mint == c.series[position].objects_mint,
    ensures
        contract_wf(with_series(c, position, s)),
        forall|id: Seq<char>| #[trigger]
            series_position(with_series(c, position, s), id) == series_position(c, id),
{
    let d = with_series(c, position, s);
    assert forall|i: int| 0 <= i < d.series.len() implies series_wf(#[trigger] d.series[i], d.vault_fee) by {
        if i != position {
            assert(d.series[i] == c.series[i]);
        }
    }
    assert forall|i: int| 0 <= i < d.series.len() implies (#[trigger] d.series[i]).sequence <= counter_of(
        d,
        d.series[i].kind,
    ) by {
        assert(d.series[i].sequence == c.series[i].sequence);
        assert(d.series[i].kind == c.series[i].kind);
    }
    assert forall|i: int, j: int| 0 <= i < j < d.series.len() implies !(((#[trigger] d.series[i]).kind
        == SeriesKind::Event) == ((#[trigger] d.series[j]).kind == SeriesKind::Event) && d.series[i].sequence
        == d.series[j].sequence) by {
        assert(d.series[i].sequence == c.series[i].sequence);
        assert(d.series[i].kind == c.series[i].kind);
        assert(d.series[j].sequence == c.series[j].sequence);
        assert(d.series[j].kind == c.series[j].kind);
    }
    assert(series_ids(c) =~= series_ids(d));
    assert forall|i: int, k: int|
        0 <= i < d.series.len() && 0 <= k < d.series[i].objects_mint.len() implies is_companion_of_catalogue(
        d,
        #[trigger] d.series[i].objects_mint[k],
    ) by {
        let b = d.series[i].objects_mint[k];
        assert(b == c.series[i].objects_mint[k]);
        assert(is_companion_of_catalogue(c, b));
        lemma_series_position(c, b);
        assert(d.series[series_position(c, b)].kind == c.series[series_position(c, b)].kind);
    }
}

/// No series of the catalogue has the identifier of a kind and a sequence
/// number that the counter of the kind has not reached yet.
pub proof fn lemma_fresh_id(c: ContractView, kind: SeriesKind, sequence: nat)
    requires
        forall|i: int| 0 <= i < c.series.len() ==> series_wf(#[trigger] c.series[i], c.vault_fee),
        forall|i: int|
            0 <= i < c.series.len() ==> (#[trigger] c.series[i]).sequence <= counter_of(c, c.series[i].kind),
        sequence > counter_of(c, kind),
    ensures
        forall|i: int| 0 <= i < c.series.len() ==> (#[trigger] c.series[i]).token_series_id != series_id_text(
            kind,
            sequence,
        ),
        !has_series(c, series_id_text(kind, sequence)),
{
    let id = series_id_text(kind, sequence);
    assert forall|i: int| 0 <= i < c.series.len() implies (#[trigger] c.series[i]).token_series_id != id by {
        let s = c.series[i];
        assert(series_wf(s, c.vault_fee));
        if s.token_series_id == id {
            crate::ids::lemma_series_id_injective(s.kind, s.sequence as nat, kind, sequence);
        }
    }
    lemma_series_position(c, id);
}

/// A series that the catalogue holds stands at the same position, and is
/// the same series, in a catalogue that starts with the same identifiers
/// and holds the same series there.
pub proof fn lemma_series_in_extension(c: ContractView, d: ContractView, id: Seq<char>)
    requires
        c.series.len() <= d.series.len(),
        forall|i: int|
            0 <= i < c.series.len() ==> (#[trigger] d.series[i]).token_series_id == c.series[i].token_series_id,
        has_series(c, id),
    ensures
        has_series(d, id),
        series_position(d, id) == series_position(c, id),
{
    lemma_text_position(series_ids(c), id);
    crate::text::lemma_text_position_in_extension(series_ids(c), series_ids(d), id);
}

/// The account is the owner of the contract or one of its administrators.
pub open spec fn is_administrator(c: ContractView, account: Seq<char>) -> bool {
    c.owner_id == account || has_text(c.list_admin, account)
}

/// The call may manage a series of `creator`: it comes from the owner of the
/// contract or from the creator, or it is signed by an administrator.
pub open spec fn may_manage(c: ContractView, predecessor: Seq<char>, signer: Seq<char>, creator: Seq<char>) -> bool {
    c.owner_id == predecessor || has_text(c.list_admin, signer) || creator == predecessor
}

impl Contract {
    /// Whether the account is the owner of the contract or an administrator.
    pub fn is_administrator(&self, account: &String) -> (b: bool)
        ensures
            b == is_administrator(self@, account@),
    {
        proof {
            lemma_text_position(self.list_admin.deep_view(), account@);
        }
        self.owner_id == *account || crate::text::find_text(&self.list_admin, account).is_some()
    }

    /// Whether the call may manage a series of `creator`.
    pub fn may_manage(&self, predecessor: &String, signer: &String, creator: &String) -> (b: bool)
        ensures
            b == may_manage(self@, predecessor@, signer@, creator@),
    {
        proof {
            lemma_text_position(self.list_admin.deep_view(), signer@);
        }
        self.owner_id == *predecessor || crate::text::find_text(&self.list_admin, signer).is_some() || *creator
            == *predecessor
    }

    /// The invariant of the state holds.
    pub open spec fn wf(&self) -> bool {
        contract_wf(self@)
    }

    /// The position of the series `id`, if there is one.
    pub fn find_series(&self, id: &String) -> (r: Option<usize>)
        ensures
            match r {
                Some(i) => i == series_position(self@, id@) && has_series(self@, id@) && self@.series[i as int]
                    == series_of(self@, id@) && i < self@.series.len(),
                None => !has_series(self@, id@),
            },
    {
        let ghost ids = series_ids(self@);
        let mut i: usize = 0;
        while i < self.token_series_by_id.len()
            invariant
                i <= self.token_series_by_id.len(),
                ids == series_ids(self@),
                forall|j: int| 0 <= j < i ==> #[trigger] ids[j] != id@,
            decreases self.token_series_by_id.len() - i,
        {
            assert(ids[i as int] == self.token_series_by_id@[i as int].token_series_id@);
            if self.token_series_by_id[i].token_series_id == *id {
                proof {
                    lemma_text_position_is(ids, id@, i as int);
                }
                return Some(i);
            }
            i = i + 1;
        }
        proof {
            lemma_text_position_is(ids, id@, ids.len() as int);
        }
        None
    }
}

impl Clone for Contract {
    fn clone(&self) -> (r: Self)
        ensures
            r@ == self@,
    {
        let mut series: Vec<TokenSeries> = Vec::new();
        let mut i: usize = 0;
        while i < self.token_series_by_id.len()
            invariant
                i <= self.token_series_by_id.len(),
                series@.len() == i,
                forall|j: int| 0 <= j < i ==> (#[trigger] series@[j])@ == self.token_series_by_id@[j]@,
            decreases self.token_series_by_id.len() - i,
        {
            series.push(self.token_series_by_id[i].clone());
            i = i + 1;
        }
        assert(series.deep_view() =~= self.token_series_by_id.deep_view());
        Contract {
            metadata: self.metadata.clone(),
            owner_id: self.owner_id.clone(),
            list_admin: clone_texts(&self.list_admin),
            id_objects: self.id_objects,
            id_event: self.id_event,
            token_series_by_id: series,
            vault_id: self.vault_id.clone(),
            vault_fee: self.vault_fee,
            tasa: self.tasa,
        }
    }
}

} // verus!
