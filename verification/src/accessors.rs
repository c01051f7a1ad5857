//! Reading the state: the fields of a series and of the contract.

use vstd::prelude::*;
use vstd::string::*;
use crate::ids::SeriesKind;
use crate::metadata::TokenMetadata;
use crate::royalty::RoyaltyTable;
use crate::state::{Contract, TokenSeries, has_series, series_of};
use crate::views::TokenSeriesJson;

verus! {

impl TokenSeries {
    /// The identifier of the series.
    pub fn token_series_id(&self) -> (r: &String)
        ensures
            r@ == self@.token_series_id,
    {
        &self.token_series_id
    }

    /// What the series issues.
    pub fn kind(&self) -> (r: SeriesKind)
        ensures
            r == self@.kind,
    {
        self.kind
    }

    /// The number of the series among those of its counter.
    pub fn sequence(&self) -> (r: u128)
        ensures
            r == self@.sequence,
    {
        self.sequence
    }

    /// The metadata of the series.
    pub fn metadata(&self) -> (r: &TokenMetadata)
        ensures
            r@ == self@.metadata,
    {
        &self.metadata
    }

    /// The account that made the series.
    pub fn creator_id(&self) -> (r: &String)
        ensures
            r@ == self@.creator_id,
    {
        &self.creator_id
    }

    /// The identifiers of the items minted so far, in the order of minting.
    pub fn tokens(&self) -> (r: &Vec<String>)
        ensures
            r.deep_view() == self@.tokens,
    {
        &self.tokens
    }

    /// The companion series that are minted with every purchase.
    pub fn objects_mint(&self) -> (r: &Vec<String>)
        ensures
            r.deep_view() == self@.objects_mint,
    {
        &self.objects_mint
    }

    /// The reference price; `None` means not for sale.
    pub fn price(&self) -> (r: Option<u64>)
        ensures
            r == self@.price,
    {
        self.price
    }

    /// Whether items can be minted.
    pub fn is_mintable(&self) -> (r: bool)
        ensures
            r == self@.is_mintable,
    {
        self.is_mintable
    }

    /// The royalties of every later sale.
    pub fn royalty(&self) -> (r: &RoyaltyTable)
        ensures
            r@ == self@.royalty,
    {
        &self.royalty
    }

    /// The royalties of the purchase itself.
    pub fn royalty_buy(&self) -> (r: &RoyaltyTable)
        ensures
            r@ == self@.royalty_buy,
    {
        &self.royalty_buy
    }

    /// The series as its creation shows it.
    pub fn to_json(&self) -> (r: TokenSeriesJson)
        ensures
            r@.token_series_id == self@.token_series_id,
            r@.metadata == self@.metadata,
            r@.creator_id == self@.creator_id,
            r@.royalty == self@.royalty,
    {
        TokenSeriesJson {
            token_series_id: self.token_series_id.clone(),
            metadata: self.metadata.clone(),
            creator_id: self.creator_id.clone(),
            royalty: self.royalty.clone(),
        }
    }
}

impl Contract {
    /// The owner of the contract.
    pub fn owner_id(&self) -> (r: &String)
        ensures
            r@ == self@.owner_id,
    {
        &self.owner_id
    }

    /// The account that takes the vault fee.
    pub fn vault_id(&self) -> (r: &String)
        ensures
            r@ == self@.vault_id,
    {
        &self.vault_id
    }

    /// The vault fee in basis points.
    pub fn vault_fee(&self) -> (r: u32)
        ensures
            r == self@.vault_fee,
    {
        self.vault_fee
    }

    /// The administrators, in the order in which they were added.
    pub fn list_admin(&self) -> (r: &Vec<String>)
        ensures
            r.deep_view() == self@.list_admin,
    {
        &self.list_admin
    }

    /// The last sequence number given to an event series.
    pub fn id_event(&self) -> (r: u128)
        ensures
            r == self@.id_event,
    {
        self.id_event
    }

    /// The last sequence number given to a companion series.
    pub fn id_objects(&self) -> (r: u128)
        ensures
            r == self@.id_objects,
    {
        self.id_objects
    }

    /// The number of series.
    pub fn series_count(&self) -> (r: usize)
        ensures
            r == self@.series.len(),
    {
        self.token_series_by_id.len()
    }

    /// The series at `position`, oldest first.
    pub fn series_at(&self, position: usize) -> (r: &TokenSeries)
        requires
            position < self@.series.len(),
        ensures
            r@ == self@.series[position as int],
    {
        &self.token_series_by_id[position]
    }

    /// The series `token_series_id`, if there is one.
    pub fn series(&self, token_series_id: &String) -> (r: Option<&TokenSeries>)
        ensures
            has_series(self@, token_series_id@) ==> (r matches Some(s) && s@ == series_of(
                self@,
                token_series_id@,
            )),
            !has_series(self@, token_series_id@) ==> r is None,
    {
        match self.find_series(token_series_id) {
            Some(i) => Some(&self.token_series_by_id[i]),
            None => None,
        }
    }
}

} // verus!
