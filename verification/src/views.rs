//! Read-side records handed out by the queries.

use vstd::prelude::*;
use vstd::string::*;
use crate::metadata::{TokenMetadata, TokenMetadataView, opt_text};
use crate::royalty::{RoyaltyTable, RoyaltyView};

verus! {

/// An item identifier together with the account that holds the item.
#[derive(Clone, Debug, PartialEq, Eq)]
pub struct TokensView {
    pub owner_id: String,
    pub token_id: String,
}

/// An account that may move an item, with the number of its approval.
#[derive(Clone, Debug, PartialEq, Eq)]
pub struct Approval {
    pub account_id: String,
    pub approval_id: u64,
}

/// The model of a list of approvals.
pub open spec fn approvals_view(v: Seq<Approval>) -> Seq<(Seq<char>, u64)> {
    Seq::new(v.len(), |i: int| (v[i].account_id@, v[i].approval_id))
}

/// The model of an optional list of approvals.
pub open spec fn opt_approvals(o: Option<Vec<Approval>>) -> Option<Seq<(Seq<char>, u64)>> {
    match o {
        Some(v) => Some(approvals_view(v@)),
        None => None,
    }
}

/// A copy of an optional list of approvals.
pub fn clone_opt_approvals(o: &Option<Vec<Approval>>) -> (r: Option<Vec<Approval>>)
    ensures
        opt_approvals(r) == opt_approvals(*o),
{
    match o {
        Some(v) => {
            let mut out: Vec<Approval> = Vec::new();
            let mut i: usize = 0;
            while i < v.len()
                invariant
                    i <= v.len(),
                    out@.len() == i,
                    forall|j: int|
                        0 <= j < i ==> (#[trigger] out@[j]).account_id@ == v@[j].account_id@ && out@[j].approval_id
                            == v@[j].approval_id,
                decreases v.len() - i,
            {
                out.push(Approval { account_id: v[i].account_id.clone(), approval_id: v[i].approval_id });
                i = i + 1;
            }
            assert(approvals_view(out@) =~= approvals_view(v@));
            Some(out)
        },
        None => None,
    }
}

/// What the item ledger holds of one item.
#[derive(Debug, PartialEq, Eq)]
pub struct ItemRecord {
    /// The identifier of the item.
    pub token_id: String,
    /// The account that holds it.
    pub owner_id: String,
    /// The title that the item was minted with.
    pub title: Option<String>,
    /// The time at which it was minted.
    pub issued_at: Option<String>,
    /// The accounts that may move it; `None` where the ledger keeps no approvals.
    pub approved_account_ids: Option<Vec<Approval>>,
}

/// The model of an `ItemRecord`.
pub struct ItemRecordView {
    pub token_id: Seq<char>,
    pub owner_id: Seq<char>,
    pub title: Option<Seq<char>>,
    pub issued_at: Option<Seq<char>>,
    pub approved_account_ids: Option<Seq<(Seq<char>, u64)>>,
}

impl View for ItemRecord {
    type V = ItemRecordView;

    open spec fn view(&self) -> ItemRecordView {
        ItemRecordView {
            token_id: self.token_id@,
            owner_id: self.owner_id@,
            title: opt_text(self.title),
            issued_at: opt_text(self.issued_at),
            approved_account_ids: opt_approvals(self.approved_account_ids),
        }
    }
}

/// The models of a list of item records.
pub open spec fn item_views(v: Seq<ItemRecord>) -> Seq<ItemRecordView> {
    Seq::new(v.len(), |i: int| v[i]@)
}

/// An item as the queries show it: what the ledger holds of it, joined with
/// the metadata and the royalties of its series.
#[derive(Debug, PartialEq, Eq)]
pub struct TokenCustom {
    pub token_id: String,
    pub owner_id: String,
    pub metadata: Option<TokenMetadata>,
    pub approved_account_ids: Option<Vec<Approval>>,
    pub royalty: Option<RoyaltyTable>,
}

/// The model of a `TokenCustom`.
pub struct TokenCustomView {
    pub token_id: Seq<char>,
    pub owner_id: Seq<char>,
    pub metadata: Option<TokenMetadataView>,
    pub approved_account_ids: Option<Seq<(Seq<char>, u64)>>,
    pub royalty: Option<RoyaltyView>,
}

impl View for TokenCustom {
    type V = TokenCustomView;

    open spec fn view(&self) -> TokenCustomView {
        TokenCustomView {
            token_id: self.token_id@,
            owner_id: self.owner_id@,
            metadata: match self.metadata {
                Some(m) => Some(m@),
                None => None,
            },
            approved_account_ids: opt_approvals(self.approved_account_ids),
            royalty: match self.royalty {
                Some(t) => Some(t@),
                None => None,
            },
        }
    }
}

/// The models of a list of items.
pub open spec fn token_views(v: Seq<TokenCustom>) -> Seq<TokenCustomView> {
    Seq::new(v.len(), |i: int| v[i]@)
}

/// A series as its creation shows it.
#[derive(Debug, PartialEq, Eq)]
pub struct TokenSeriesJson {
    pub token_series_id: String,
    pub metadata: TokenMetadata,
    pub creator_id: String,
    pub royalty: RoyaltyTable,
}

/// The model of a `TokenSeriesJson`.
pub struct TokenSeriesJsonView {
    pub token_series_id: Seq<char>,
    pub metadata: TokenMetadataView,
    pub creator_id: Seq<char>,
    pub royalty: RoyaltyView,
}

impl View for TokenSeriesJson {
    type V = TokenSeriesJsonView;

    open spec fn view(&self) -> TokenSeriesJsonView {
        TokenSeriesJsonView {
            token_series_id: self.token_series_id@,
            metadata: self.metadata@,
            creator_id: self.creator_id@,
            royalty: self.royalty@,
        }
    }
}

/// A series as the listing shows it, with its price in both units.
#[derive(Debug, PartialEq, Eq)]
pub struct TokenSeriesJson2 {
    pub token_series_id: String,
    pub metadata: TokenMetadata,
    pub creator_id: String,
    /// The price in smallest native units.
    pub price: Option<u128>,
    /// The reference price.
    pub price_usd: Option<u64>,
    pub is_mintable: bool,
    pub royalty: RoyaltyTable,
}

/// The model of a `TokenSeriesJson2`.
pub struct TokenSeriesJson2View {
    pub token_series_id: Seq<char>,
    pub metadata: TokenMetadataView,
    pub creator_id: Seq<char>,
    pub price: Option<u128>,
    pub price_usd: Option<u64>,
    pub is_mintable: bool,
    pub royalty: RoyaltyView,
}

impl View for TokenSeriesJson2 {
    type V = TokenSeriesJson2View;

    open spec fn view(&self) -> TokenSeriesJson2View {
        TokenSeriesJson2View {
            token_series_id: self.token_series_id@,
            metadata: self.metadata@,
            creator_id: self.creator_id@,
            price: self.price,
            price_usd: self.price_usd,
            is_mintable: self.is_mintable,
            royalty: self.royalty@,
        }
    }
}

/// The models of a listing of series.
pub open spec fn listing_views(v: Seq<TokenSeriesJson2>) -> Seq<TokenSeriesJson2View> {
    Seq::new(v.len(), |i: int| v[i]@)
}

/// A single series as the query by identifier shows it.
#[derive(Debug, PartialEq, Eq)]
pub struct TokenSeriesJson3 {
    pub token_series_id: String,
    pub metadata: TokenMetadata,
    pub creator_id: String,
    pub royalty: RoyaltyTable,
    pub transaction_fee: u128,
}

/// The model of a `TokenSeriesJson3`.
pub struct TokenSeriesJson3View {
    pub token_series_id: Seq<char>,
    pub metadata: TokenMetadataView,
    pub creator_id: Seq<char>,
    pub royalty: RoyaltyView,
    pub transaction_fee: u128,
}

impl View for TokenSeriesJson3 {
    type V = TokenSeriesJson3View;

    open spec fn view(&self) -> TokenSeriesJson3View {
        TokenSeriesJson3View {
            token_series_id: self.token_series_id@,
            metadata: self.metadata@,
            creator_id: self.creator_id@,
            royalty: self.royalty@,
            transaction_fee: self.transaction_fee,
        }
    }
}

} // verus!
