//! Taking the state apart and putting it together again, as a store that
//! keeps the state between two calls has to. A state is only put together
//! from parts that meet its invariant.

use vstd::prelude::*;
use vstd::string::*;
use crate::ids::{SeriesKind, item_id_string, item_id_text, series_id_string};
use crate::metadata::{NFTContractMetadata, TokenMetadata};
use crate::royalty::{MAX_ROYALTY_BPS, RoyaltyTable};
use crate::state::{
    Contract, ContractView, SeriesView, TokenSeries, bundles_resolve, contract_wf, counter_of,
    is_companion_of_catalogue, series_wf,
};
use crate::text::texts_are_distinct;

verus! {

impl TokenSeries {
    /// A series of the given parts. Whether it fits into a state is decided
    /// when the state is put together.
    pub fn from_parts(
        token_series_id: String,
        kind: SeriesKind,
        sequence: u128,
        metadata: TokenMetadata,
        creator_id: String,
        tokens: Vec<String>,
        objects_mint: Vec<String>,
        price: Option<u64>,
        is_mintable: bool,
        royalty: RoyaltyTable,
        royalty_buy: RoyaltyTable,
    ) -> (s: Self)
        ensures
            s@ == (SeriesView {
                token_series_id: token_series_id@,
                kind: kind,
                sequence: sequence,
                metadata: metadata@,
                creator_id: creator_id@,
                tokens: tokens.deep_view(),
                objects_mint: objects_mint.deep_view(),
                price: price,
                is_mintable: is_mintable,
                royalty: royalty@,
                royalty_buy: royalty_buy@,
            }),
    {
        TokenSeries {
            token_series_id,
            kind,
            sequence,
            metadata,
            creator_id,
            tokens,
            objects_mint,
            price,
            is_mintable,
            royalty,
            royalty_buy,
        }
    }

    /// Whether item `k` of the series carries the number `k + 1`, for every `k`.
    fn items_are_numbered(&self) -> (b: bool)
        ensures
            b == (forall|k: int|
                0 <= k < self@.tokens.len() ==> #[trigger] self@.tokens[k] == item_id_text(
                    self@.token_series_id,
                    (k + 1) as nat,
                )),
    {
        let ghost tokens = self@.tokens;
        let mut k: usize = 0;
        while k < self.tokens.len()
            invariant
                k <= self.tokens.len(),
                tokens == self@.tokens,
                forall|j: int|
                    0 <= j < k ==> #[trigger] tokens[j] == item_id_text(self@.token_series_id, (j + 1) as nat),
            decreases self.tokens.len() - k,
        {
            let expected = item_id_string(&self.token_series_id, k as u64 + 1);
            assert(tokens[k as int] == self.tokens@[k as int]@);
            if self.tokens[k] != expected {
                return false;
            }
            k = k + 1;
        }
        true
    }

    /// Whether the series meets the invariant of a series under the given
    /// vault fee.
    pub fn is_wf(&self, vault_fee: u32) -> (b: bool)
        ensures
            b == series_wf(self@, vault_fee),
    {
        if vault_fee > MAX_ROYALTY_BPS {
            return false;
        }
        if self.sequence < 1 {
            return false;
        }
        let id = series_id_string(self.kind, self.sequence);
        if self.token_series_id != id {
            return false;
        }
        if !self.items_are_numbered() {
            return false;
        }
        let minted: u64 = self.tokens.len() as u64;
        assert(minted == self@.tokens.len());
        match self.metadata.copies {
            Some(limit) => {
                if minted > limit {
                    return false;
                }
            },
            None => {},
        }
        if !texts_are_distinct(&self.objects_mint) {
            return false;
        }
        if !self.royalty.is_well_formed() || !self.royalty_buy.is_well_formed() {
            return false;
        }
        if self.royalty.check_royalty().is_err() {
            return false;
        }
        if self.royalty_buy.check_royalty_buy(&self.creator_id, vault_fee).is_err() {
            return false;
        }
        true
    }
}

impl Contract {
    /// Whether every series meets the invariant of a series.
    fn series_are_wf(&self) -> (b: bool)
        requires
            self@.vault_fee <= MAX_ROYALTY_BPS,
        ensures
            b == (forall|i: int| 0 <= i < self@.series.len() ==> series_wf(#[trigger] self@.series[i], self@.vault_fee)),
    {
        let mut i: usize = 0;
        while i < self.token_series_by_id.len()
            invariant
                i <= self.token_series_by_id.len(),
                self@.vault_fee <= MAX_ROYALTY_BPS,
                forall|j: int| 0 <= j < i ==> series_wf(#[trigger] self@.series[j], self@.vault_fee),
            decreases self.token_series_by_id.len() - i,
        {
            assert(self@.series[i as int] == self.token_series_by_id@[i as int]@);
            if !self.token_series_by_id[i].is_wf(self.vault_fee) {
                return false;
            }
            i = i + 1;
        }
        true
    }

    /// Whether every sequence number was given by its counter, and none twice.
    fn sequences_are_wf(&self) -> (b: bool)
        ensures
            b == ((forall|i: int|
                0 <= i < self@.series.len() ==> (#[trigger] self@.series[i]).sequence <= counter_of(
                    self@,
                    self@.series[i].kind,
                )) && (forall|i: int, j: int|
                0 <= i < j < self@.series.len() ==> !(((#[trigger] self@.series[i]).kind == SeriesKind::Event)
                    == ((#[trigger] self@.series[j]).kind == SeriesKind::Event) && self@.series[i].sequence
                    == self@.series[j].sequence))),
    {
        let ghost c = self@;
        let mut j: usize = 0;
        while j < self.token_series_by_id.len()
            invariant
                j <= self.token_series_by_id.len(),
                c == self@,
                forall|i: int| 0 <= i < j ==> (#[trigger] c.series[i]).sequence <= counter_of(c, c.series[i].kind),
                forall|a: int, b: int|
                    0 <= a < b < j ==> !(((#[trigger] c.series[a]).kind == SeriesKind::Event) == ((
                    #[trigger] c.series[b]).kind == SeriesKind::Event) && c.series[a].sequence
                        == c.series[b].sequence),
            decreases self.token_series_by_id.len() - j,
        {
            assert(c.series[j as int] == self.token_series_by_id@[j as int]@);
            let kind_j = self.token_series_by_id[j].kind;
            let sequence_j = self.token_series_by_id[j].sequence;
            let is_event_j = matches!(kind_j, SeriesKind::Event);
            let counter = if is_event_j {
                self.id_event
            } else {
                self.id_objects
            };
            if sequence_j > counter {
                return false;
            }
            let mut i: usize = 0;
            while i < j
                invariant
                    i <= j < self.token_series_by_id.len(),
                    c == self@,
                    kind_j == c.series[j as int].kind,
                    sequence_j == c.series[j as int].sequence,
                    is_event_j == (kind_j == SeriesKind::Event),
                    forall|a: int|
                        0 <= a < i ==> !(((#[trigger] c.series[a]).kind == SeriesKind::Event) == is_event_j
                            && c.series[a].sequence == sequence_j),
                decreases j - i,
            {
                assert(c.series[i as int] == self.token_series_by_id@[i as int]@);
                let is_event_i = matches!(self.token_series_by_id[i].kind, SeriesKind::Event);
                if is_event_i == is_event_j && self.token_series_by_id[i].sequence == sequence_j {
                    return false;
                }
                i = i + 1;
            }
            j = j + 1;
        }
        true
    }

    /// Whether every bundled identifier names a companion series of the
    /// catalogue.
    fn bundles_are_wf(&self) -> (b: bool)
        ensures
            b == bundles_resolve(self@),
    {
        let ghost c = self@;
        let mut i: usize = 0;
        while i < self.token_series_by_id.len()
            invariant
                i <= self.token_series_by_id.len(),
                c == self@,
                forall|a: int, k: int|
                    0 <= a < i && 0 <= k < c.series[a].objects_mint.len() ==> is_companion_of_catalogue(
                        c,
                        #[trigger] c.series[a].objects_mint[k],
                    ),
            decreases self.token_series_by_id.len() - i,
        {
            assert(c.series[i as int] == self.token_series_by_id@[i as int]@);
            let bundle = &self.token_series_by_id[i].objects_mint;
            let mut k: usize = 0;
            while k < bundle.len()
                invariant
                    k <= bundle.len(),
                    i < self.token_series_by_id.len(),
                    c == self@,
                    bundle.deep_view() == c.series[i as int].objects_mint,
                    forall|j: int|
                        0 <= j < k ==> is_companion_of_catalogue(c, #[trigger] c.series[i as int].objects_mint[j]),
                decreases bundle.len() - k,
            {
                assert(bundle.deep_view()[k as int] == bundle@[k as int]@);
                let found = match self.find_series(&bundle[k]) {
                    Some(j) => !matches!(self.token_series_by_id[j].kind, SeriesKind::Event),
                    None => false,
                };
                if !found {
                    assert(!is_companion_of_catalogue(c, c.series[i as int].objects_mint[k as int]));
                    return false;
                }
                k = k + 1;
            }
            i = i + 1;
        }
        true
    }

    /// Whether the invariant of the state holds.
    pub fn is_wf(&self) -> (b: bool)
        ensures
            b == self.wf(),
    {
        if !self.bundles_are_wf() {
            return false;
        }
        if self.vault_fee > MAX_ROYALTY_BPS {
            return false;
        }
        if !texts_are_distinct(&self.list_admin) {
            return false;
        }
        if self.token_series_by_id.len() > 0 && self.tasa == 0 {
            return false;
        }
        if !self.series_are_wf() {
            return false;
        }
        self.sequences_are_wf()
    }

    /// Puts a state together from its parts. Returns the state where the
    /// parts meet the invariant of the state, and nothing where they do not.
    pub fn from_parts(
        metadata: NFTContractMetadata,
        owner_id: String,
        list_admin: Vec<String>,
        id_objects: u128,
        id_event: u128,
        series: Vec<TokenSeries>,
        vault_id: String,
        vault_fee: u32,
        tasa: u64,
    ) -> (r: Option<Self>)
        ensures
            match r {
                Some(c) => c.wf() && c@ == (ContractView {
                    metadata: metadata@,
                    owner_id: owner_id@,
                    list_admin: list_admin.deep_view(),
                    id_objects: id_objects,
                    id_event: id_event,
                    series: series.deep_view(),
                    vault_id: vault_id@,
                    vault_fee: vault_fee,
                    tasa: tasa,
                }),
                None => !contract_wf(
                    ContractView {
                        metadata: metadata@,
                        owner_id: owner_id@,
                        list_admin: list_admin.deep_view(),
                        id_objects: id_objects,
                        id_event: id_event,
                        series: series.deep_view(),
                        vault_id: vault_id@,
                        vault_fee: vault_fee,
                        tasa: tasa,
                    },
                ),
            },
    {
        let c = Contract {
            metadata,
            owner_id,
            list_admin,
            id_objects,
            id_event,
            token_series_by_id: series,
            vault_id,
            vault_fee,
            tasa,
        };
        if c.is_wf() {
            Some(c)
        } else {
            None
        }
    }
}

} // verus!
