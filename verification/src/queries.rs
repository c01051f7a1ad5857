//! The read-only queries: series, supply, prices, and items joined with
//! their series.

use vstd::prelude::*;
use vstd::string::*;
use crate::error::Error;
use crate::ids::{series_id_of_item, series_of_item};
use crate::metadata::{TokenMetadata, TokenMetadataView, clone_opt_bytes, clone_opt_text};
use crate::pricing::{display_price, native_price, to_native, to_native_with_margin};
use crate::state::{Contract, ContractView, SeriesView, copies_limit, has_series, series_of, series_wf};
use crate::views::{
    ItemRecord, ItemRecordView, TokenCustom, TokenCustomView, TokenSeriesJson2, TokenSeriesJson2View,
    TokenSeriesJson3, TokenSeriesJson3View, clone_opt_approvals, item_views, listing_views, token_views,
};

verus! {

/// The fee that the query by identifier reports.
pub const CURRENT_TRANSACTION_FEE: u128 = 200;

/// Where a listing starts: at the given index, or at the first entry.
pub open spec fn page_start(from_index: Option<u128>) -> nat {
    match from_index {
        Some(i) => i as nat,
        None => 0,
    }
}

/// Where a listing of `len` entries ends: `limit` entries behind its start,
/// or at the last entry where that comes first or no limit is given.
pub open spec fn page_end(len: nat, from_index: Option<u128>, limit: Option<u64>) -> nat {
    match limit {
        Some(n) => if page_start(from_index) + n < len {
            page_start(from_index) + n as nat
        } else {
            len
        },
        None => len,
    }
}

/// Why a listing of `len` entries is refused, if it is: its start is not
/// below `len`, or its limit is zero. The start is looked at first.
pub open spec fn page_fault(len: nat, from_index: Option<u128>, limit: Option<u64>) -> Option<Error> {
    if len <= page_start(from_index) {
        Some(Error::OutOfBounds)
    } else if limit == Some(0u64) {
        Some(Error::ZeroLimit)
    } else {
        None
    }
}

/// As `page_fault`, with the limit looked at first.
pub open spec fn page_fault_limit_first(len: nat, from_index: Option<u128>, limit: Option<u64>) -> Option<Error> {
    if limit == Some(0u64) {
        Some(Error::ZeroLimit)
    } else if len <= page_start(from_index) {
        Some(Error::OutOfBounds)
    } else {
        None
    }
}

/// The positions of a listing of `len` entries: its start and its end.
pub fn page_range(len: usize, from_index: Option<u128>, limit: Option<u64>) -> (r: Result<(usize, usize), Error>)
    ensures
        match page_fault(len as nat, from_index, limit) {
            Some(e) => r == Err::<(usize, usize), Error>(e),
            None => r matches Ok((start, end)) && start == page_start(from_index) && end == page_end(
                len as nat,
                from_index,
                limit,
            ) && start < end <= len,
        },
{
    let start: u128 = match from_index {
        Some(i) => i,
        None => 0,
    };
    if len as u128 <= start {
        return Err(Error::OutOfBounds);
    }
    let first: usize = start as usize;
    match limit {
        Some(n) => {
            if n == 0 {
                return Err(Error::ZeroLimit);
            }
            if (n as u128) < (len - first) as u128 {
                Ok((first, first + n as usize))
            } else {
                Ok((first, len))
            }
        },
        None => Ok((first, len)),
    }
}

/// The metadata of an item as the queries show it: its own title and time
/// of issue, and everything else from its series.
pub open spec fn joined_metadata(
    title: Option<Seq<char>>,
    issued_at: Option<Seq<char>>,
    series: TokenMetadataView,
) -> TokenMetadataView {
    TokenMetadataView { title: title, issued_at: issued_at, ..series }
}

/// An item as the queries show it: the record of the ledger joined with
/// the series `s` of the item.
pub open spec fn token_custom(item: ItemRecordView, s: SeriesView) -> TokenCustomView {
    TokenCustomView {
        token_id: item.token_id,
        owner_id: item.owner_id,
        metadata: Some(joined_metadata(item.title, item.issued_at, s.metadata)),
        approved_account_ids: item.approved_account_ids,
        royalty: Some(s.royalty),
    }
}

/// The series that an item belongs to exists in the catalogue.
pub open spec fn item_resolves(c: ContractView, item: ItemRecordView) -> bool {
    has_series(c, series_of_item(item.token_id))
}

/// An item of the listing, joined with its series.
pub open spec fn token_of(c: ContractView, item: ItemRecordView) -> TokenCustomView {
    token_custom(item, series_of(c, series_of_item(item.token_id)))
}

/// A series as the listing shows it at the exchange rate `tasa`.
pub open spec fn listed_series(s: SeriesView, tasa: u64) -> TokenSeriesJson2View {
    TokenSeriesJson2View {
        token_series_id: s.token_series_id,
        metadata: s.metadata,
        creator_id: s.creator_id,
        price: match s.price {
            Some(p) => Some(native_price(p, tasa)),
            None => None,
        },
        price_usd: s.price,
        is_mintable: s.is_mintable,
        royalty: s.royalty,
    }
}

/// A single series as the query by identifier shows it.
pub open spec fn single_series(s: SeriesView) -> TokenSeriesJson3View {
    TokenSeriesJson3View {
        token_series_id: s.token_series_id,
        metadata: s.metadata,
        creator_id: s.creator_id,
        royalty: s.royalty,
        transaction_fee: CURRENT_TRANSACTION_FEE,
    }
}

impl Contract {
    /// Joins one record of the ledger with its series.
    pub fn token_of_record(&self, item: &ItemRecord) -> (r: Result<TokenCustom, Error>)
        ensures
            item_resolves(self@, item@) ==> (r matches Ok(t) && t@ == token_of(self@, item@)),
            !item_resolves(self@, item@) ==> r matches Err(Error::SeriesNotFound),
    {
        let token_series_id = series_id_of_item(&item.token_id);
        let position = match self.find_series(&token_series_id) {
            Some(i) => i,
            None => {
                return Err(Error::SeriesNotFound);
            },
        };
        let series = &self.token_series_by_id[position];
        let metadata = TokenMetadata {
            title: clone_opt_text(&item.title),
            description: clone_opt_text(&series.metadata.description),
            media: clone_opt_text(&series.metadata.media),
            media_hash: clone_opt_bytes(&series.metadata.media_hash),
            copies: series.metadata.copies,
            issued_at: clone_opt_text(&item.issued_at),
            expires_at: clone_opt_text(&series.metadata.expires_at),
            starts_at: clone_opt_text(&series.metadata.starts_at),
            updated_at: clone_opt_text(&series.metadata.updated_at),
            extra: clone_opt_text(&series.metadata.extra),
            reference: clone_opt_text(&series.metadata.reference),
            reference_hash: clone_opt_bytes(&series.metadata.reference_hash),
        };
        Ok(
            TokenCustom {
                token_id: item.token_id.clone(),
                owner_id: item.owner_id.clone(),
                metadata: Some(metadata),
                approved_account_ids: clone_opt_approvals(&item.approved_account_ids),
                royalty: Some(series.royalty.clone()),
            },
        )
    }

    /// The item as the queries show it. `item` is what the ledger holds of
    /// it; an item that the ledger does not know is not shown.
    pub fn nft_token(&self, item: Option<&ItemRecord>) -> (r: Result<Option<TokenCustom>, Error>)
        ensures
            match item {
                None => r matches Ok(None),
                Some(i) => if item_resolves(self@, i@) {
                    r matches Ok(Some(t)) && t@ == token_of(self@, i@)
                } else {
                    r matches Err(Error::SeriesNotFound)
                },
            },
    {
        match item {
            None => Ok(None),
            Some(i) => match self.token_of_record(i) {
                Ok(t) => Ok(Some(t)),
                Err(e) => Err(e),
            },
        }
    }

    /// Joins the records `start..end` of a listing with their series.
    fn join_records(&self, items: &Vec<ItemRecord>, start: usize, end: usize) -> (r: Result<
        Vec<TokenCustom>,
        Error,
    >)
        requires
            start <= end <= items@.len(),
        ensures
            (forall|k: int| start <= k < end ==> item_resolves(self@, #[trigger] item_views(items@)[k])) ==> (r matches Ok(
                v,
            ) && token_views(v@) == Seq::new(
                (end - start) as nat,
                |k: int| token_of(self@, item_views(items@)[start + k]),
            )),
            !(forall|k: int| start <= k < end ==> item_resolves(self@, #[trigger] item_views(items@)[k]))
                ==> r matches Err(Error::SeriesNotFound),
    {
        let mut out: Vec<TokenCustom> = Vec::new();
        let mut i: usize = start;
        while i < end
            invariant
                start <= i <= end <= items@.len(),
                out@.len() == i - start,
                forall|k: int| start <= k < i ==> item_resolves(self@, #[trigger] item_views(items@)[k]),
                forall|k: int|
                    0 <= k < i - start ==> (#[trigger] out@[k])@ == token_of(self@, item_views(items@)[start + k]),
            decreases end - i,
        {
            assert(item_views(items@)[i as int] == items@[i as int]@);
            match self.token_of_record(&items[i]) {
                Ok(t) => {
                    out.push(t);
                },
                Err(e) => {
                    return Err(e);
                },
            }
            i = i + 1;
        }
        assert(token_views(out@) =~= Seq::new(
            (end - start) as nat,
            |k: int| token_of(self@, item_views(items@)[start + k]),
        ));
        Ok(out)
    }

    /// A page of the items of the ledger, each joined with its series.
    /// `items` is the listing of the ledger in its order.
    pub fn nft_tokens(&self, items: &Vec<ItemRecord>, from_index: Option<u128>, limit: Option<u64>) -> (r: Result<
        Vec<TokenCustom>,
        Error,
    >)
        ensures
            match page_fault(items@.len(), from_index, limit) {
                Some(e) => r matches Err(x) && x == e,
                None => {
                    let start = page_start(from_index) as int;
                    let end = page_end(items@.len(), from_index, limit) as int;
                    if forall|k: int| start <= k < end ==> item_resolves(self@, #[trigger] item_views(items@)[k]) {
                        r matches Ok(v) && token_views(v@) == Seq::new(
                            (end - start) as nat,
                            |k: int| token_of(self@, item_views(items@)[start + k]),
                        )
                    } else {
                        r matches Err(Error::SeriesNotFound)
                    }
                },
            },
    {
        match page_range(items.len(), from_index, limit) {
            Err(e) => Err(e),
            Ok((start, end)) => self.join_records(items, start, end),
        }
    }

    /// A page of the items of one holder, each joined with its series.
    /// `items` is the listing of the holder's items in the ledger; a holder
    /// that the ledger does not know has no items.
    pub fn nft_tokens_for_owner(
        &self,
        items: Option<&Vec<ItemRecord>>,
        from_index: Option<u128>,
        limit: Option<u64>,
    ) -> (r: Result<Vec<TokenCustom>, Error>)
        ensures
            items is None ==> (r matches Ok(v) && v@.len() == 0),
            items matches Some(list) ==> match page_fault_limit_first(list@.len(), from_index, limit) {
                Some(e) => r matches Err(x) && x == e,
                None => {
                    let start = page_start(from_index) as int;
                    let end = page_end(list@.len(), from_index, limit) as int;
                    if forall|k: int| start <= k < end ==> item_resolves(self@, #[trigger] item_views(list@)[k]) {
                        r matches Ok(v) && token_views(v@) == Seq::new(
                            (end - start) as nat,
                            |k: int| token_of(self@, item_views(list@)[start + k]),
                        )
                    } else {
                        r matches Err(Error::SeriesNotFound)
                    }
                },
            },
    {
        let list = match items {
            Some(list) => list,
            None => {
                return Ok(Vec::new());
            },
        };
        match limit {
            Some(n) => {
                if n == 0 {
                    return Err(Error::ZeroLimit);
                }
            },
            None => {},
        }
        match page_range(list.len(), from_index, limit) {
            Err(e) => Err(e),
            Ok((start, end)) => self.join_records(list, start, end),
        }
    }

    /// A page of the series, oldest first, each with its price in both units.
    pub fn get_nft_series(&self, from_index: Option<u128>, limit: Option<u64>) -> (r: Result<
        Vec<TokenSeriesJson2>,
        Error,
    >)
        requires
            self.wf(),
        ensures
            match page_fault(self@.series.len(), from_index, limit) {
                Some(e) => r matches Err(x) && x == e,
                None => r matches Ok(v) && listing_views(v@) == Seq::new(
                    (page_end(self@.series.len(), from_index, limit) - page_start(from_index)) as nat,
                    |k: int| listed_series(self@.series[page_start(from_index) + k], self@.tasa),
                ),
            },
    {
        let (start, end) = match page_range(self.token_series_by_id.len(), from_index, limit) {
            Err(e) => {
                return Err(e);
            },
            Ok(range) => range,
        };
        let mut out: Vec<TokenSeriesJson2> = Vec::new();
        let mut i: usize = start;
        while i < end
            invariant
                start <= i <= end <= self@.series.len(),
                self@.series.len() == self.token_series_by_id@.len(),
                self@.tasa > 0,
                out@.len() == i - start,
                forall|k: int|
                    0 <= k < i - start ==> (#[trigger] out@[k])@ == listed_series(
                        self@.series[start + k],
                        self@.tasa,
                    ),
            decreases end - i,
        {
            let series = &self.token_series_by_id[i];
            assert(series@ == self@.series[i as int]);
            let price: Option<u128> = match series.price {
                Some(p) => match to_native(p, self.tasa) {
                    Ok(native) => Some(native),
                    Err(_) => None,
                },
                None => None,
            };
            out.push(
                TokenSeriesJson2 {
                    token_series_id: series.token_series_id.clone(),
                    metadata: series.metadata.clone(),
                    creator_id: series.creator_id.clone(),
                    price,
                    price_usd: series.price,
                    is_mintable: series.is_mintable,
                    royalty: series.royalty.clone(),
                },
            );
            i = i + 1;
        }
        assert(listing_views(out@) =~= Seq::new(
            (end - start) as nat,
            |k: int| listed_series(self@.series[start + k], self@.tasa),
        ));
        Ok(out)
    }

    /// The series `token_series_id` with the transaction fee.
    pub fn nft_get_series_single(&self, token_series_id: String) -> (r: Result<TokenSeriesJson3, Error>)
        ensures
            has_series(self@, token_series_id@) ==> (r matches Ok(s) && s@ == single_series(
                series_of(self@, token_series_id@),
            )),
            !has_series(self@, token_series_id@) ==> r matches Err(Error::SeriesNotFound),
    {
        let position = match self.find_series(&token_series_id) {
            Some(i) => i,
            None => {
                return Err(Error::SeriesNotFound);
            },
        };
        let series = &self.token_series_by_id[position];
        proof {
            crate::state::lemma_series_position(self@, token_series_id@);
        }
        Ok(
            TokenSeriesJson3 {
                token_series_id,
                metadata: series.metadata.clone(),
                creator_id: series.creator_id.clone(),
                royalty: series.royalty.clone(),
                transaction_fee: CURRENT_TRANSACTION_FEE,
            },
        )
    }

    /// What a client should attach to buy the series `token_series_id`: its
    /// native price and the display margin. `None` where the series is not
    /// for sale.
    pub fn nft_get_series_price(&self, token_series_id: String) -> (r: Result<Option<u128>, Error>)
        requires
            self.wf(),
        ensures
            !has_series(self@, token_series_id@) ==> r == Err::<Option<u128>, Error>(Error::SeriesNotFound),
            has_series(self@, token_series_id@) ==> r == Ok::<Option<u128>, Error>(
                match series_of(self@, token_series_id@).price {
                    Some(p) => Some(display_price(p, self@.tasa)),
                    None => None,
                },
            ),
    {
        let position = match self.find_series(&token_series_id) {
            Some(i) => i,
            None => {
                return Err(Error::SeriesNotFound);
            },
        };
        match self.token_series_by_id[position].price {
            Some(p) => match to_native_with_margin(p, self.tasa) {
                Ok(shown) => Ok(Some(shown)),
                Err(e) => Err(e),
            },
            None => Ok(None),
        }
    }

    /// The number of items that the series `token_series_id` has minted.
    pub fn nft_supply_for_series(&self, token_series_id: String) -> (r: Result<u64, Error>)
        ensures
            !has_series(self@, token_series_id@) ==> r == Err::<u64, Error>(Error::SeriesNotFound),
            has_series(self@, token_series_id@) ==> r == Ok::<u64, Error>(
                series_of(self@, token_series_id@).tokens.len() as u64,
            ),
    {
        match self.find_series(&token_series_id) {
            Some(i) => Ok(self.token_series_by_id[i].tokens.len() as u64),
            None => Err(Error::SeriesNotFound),
        }
    }

    /// The copies of the series `token_series_id` that can still be minted:
    /// its copies limit less its minted items. Fails where the series has
    /// no limit.
    pub fn get_nft_series_copies_availables(&self, token_series_id: String) -> (r: Result<u64, Error>)
        requires
            self.wf(),
        ensures
            !has_series(self@, token_series_id@) ==> r == Err::<u64, Error>(Error::SeriesNotFound),
            has_series(self@, token_series_id@) ==> r == (match series_of(
                self@,
                token_series_id@,
            ).metadata.copies {
                None => Err::<u64, Error>(Error::NoCopiesLimit),
                Some(limit) => Ok::<u64, Error>(
                    (limit - series_of(self@, token_series_id@).tokens.len()) as u64,
                ),
            }),
            r matches Ok(left) ==> left + series_of(self@, token_series_id@).tokens.len() == copies_limit(
                series_of(self@, token_series_id@),
            ),
    {
        let position = match self.find_series(&token_series_id) {
            Some(i) => i,
            None => {
                return Err(Error::SeriesNotFound);
            },
        };
        assert(series_wf(self@.series[position as int], self@.vault_fee));
        let minted: u64 = self.token_series_by_id[position].tokens.len() as u64;
        match self.token_series_by_id[position].metadata.copies {
            None => Err(Error::NoCopiesLimit),
            Some(limit) => Ok(limit - minted),
        }
    }
}

} // verus!
