//! Minting: issuing the next numbered item of a series.

use vstd::prelude::*;
use vstd::string::*;
use crate::context::CallContext;
use crate::error::Error;
use crate::machine::{Operation, apply};
use crate::ids::{id_is_event, is_event_id, item_id_string, item_id_text};
use crate::metadata::{TokenMetadata, TokenMetadataView, empty_metadata};
use crate::state::{
    Contract, ContractView, SeriesView, contract_wf, copies_limit, has_series, lemma_series_position,
    lemma_with_series_wf, series_of, series_position, series_wf, supply_within_cap, with_series,
};
use crate::text::{decimal_digits, decimal_string};

verus! {

/// What stands between the parts of the title of an item.
pub const TITLE_DELIMETER: &'static str = " #";

/// The title of item `number` of the series `id` with the title `title`:
/// the title, the series and the number, with ` #` between them and a space
/// on either side of each.
pub open spec fn item_title(title: Seq<char>, id: Seq<char>, number: nat) -> Seq<char> {
    title + " "@ + TITLE_DELIMETER@ + " "@ + id + " "@ + TITLE_DELIMETER@ + " "@ + decimal_digits(number)
}

/// An item that was minted: what the item ledger is to register.
#[derive(Debug, PartialEq, Eq)]
pub struct MintedToken {
    /// The identifier of the item.
    pub token_id: String,
    /// The account that receives the item.
    pub owner_id: String,
    /// The metadata of the item itself: its title and the time of issue.
    pub metadata: TokenMetadata,
    /// Whether the series is still open for minting after this item.
    pub is_mintable: bool,
}

/// The model of a minted item.
pub struct MintedTokenView {
    pub token_id: Seq<char>,
    pub owner_id: Seq<char>,
    pub metadata: TokenMetadataView,
    pub is_mintable: bool,
}

impl View for MintedToken {
    type V = MintedTokenView;

    open spec fn view(&self) -> MintedTokenView {
        MintedTokenView {
            token_id: self.token_id@,
            owner_id: self.owner_id@,
            metadata: self.metadata@,
            is_mintable: self.is_mintable,
        }
    }
}

/// Why no item of the series `id` can be minted, if none can: there is no
/// such series, it is closed for minting, its supply is exhausted, or it has
/// no title to name the item by. The conditions are looked for in this order.
pub open spec fn mint_fault(c: ContractView, id: Seq<char>) -> Option<Error> {
    if !has_series(c, id) {
        Some(Error::SeriesNotFound)
    } else if !series_of(c, id).is_mintable {
        Some(Error::NotMintable)
    } else if series_of(c, id).tokens.len() >= copies_limit(series_of(c, id)) {
        Some(Error::SupplyMaxed)
    } else if series_of(c, id).metadata.title is None {
        Some(Error::TitleRequired)
    } else {
        None
    }
}

/// The number of the next item of the series.
pub open spec fn next_number(s: SeriesView) -> nat {
    s.tokens.len() + 1
}

/// Whether the next mint closes the series: it reaches the copies limit,
/// and the series is an event.
pub open spec fn mint_closes(s: SeriesView) -> bool {
    next_number(s) >= copies_limit(s) && is_event_id(s.token_series_id)
}

/// The series after its next item was minted.
pub open spec fn series_after_mint(s: SeriesView) -> SeriesView {
    SeriesView {
        tokens: s.tokens.push(item_id_text(s.token_series_id, next_number(s))),
        is_mintable: s.is_mintable && !mint_closes(s),
        ..s
    }
}

/// The state after the next item of the series `id` was minted.
pub open spec fn after_mint(c: ContractView, id: Seq<char>) -> ContractView {
    with_series(c, series_position(c, id), series_after_mint(series_of(c, id)))
}

/// The item that the next mint of the series `s` issues to `receiver` at
/// the time `timestamp`.
pub open spec fn minted_token(s: SeriesView, receiver: Seq<char>, timestamp: u64) -> MintedTokenView {
    MintedTokenView {
        token_id: item_id_text(s.token_series_id, next_number(s)),
        owner_id: receiver,
        metadata: TokenMetadataView {
            title: Some(item_title(s.metadata.title->0, s.token_series_id, next_number(s))),
            issued_at: Some(decimal_digits(timestamp as nat)),
            ..empty_metadata()
        },
        is_mintable: series_after_mint(s).is_mintable,
    }
}

/// Minting keeps the invariant of the state, never exceeds the copies limit,
/// and closes an event exactly when its last copy is minted.
pub proof fn lemma_after_mint(c: ContractView, id: Seq<char>)
    requires
        contract_wf(c),
        mint_fault(c, id) is None,
    ensures
        contract_wf(after_mint(c, id)),
        has_series(after_mint(c, id), id),
        series_of(after_mint(c, id), id) == series_after_mint(series_of(c, id)),
        supply_within_cap(series_of(after_mint(c, id), id)),
        is_event_id(id) ==> (!series_of(after_mint(c, id), id).is_mintable <==> next_number(series_of(c, id))
            == copies_limit(series_of(c, id))),
        !is_event_id(id) ==> series_of(after_mint(c, id), id).is_mintable,
{
    lemma_series_position(c, id);
    let p = series_position(c, id);
    let s = c.series[p];
    let t = series_after_mint(s);
    assert(series_wf(s, c.vault_fee));
    assert forall|k: int| 0 <= k < t.tokens.len() implies #[trigger] t.tokens[k] == item_id_text(
        t.token_series_id,
        (k + 1) as nat,
    ) by {
        if k < s.tokens.len() {
            assert(t.tokens[k] == s.tokens[k]);
        }
    }
    assert(series_wf(t, c.vault_fee));
    lemma_with_series_wf(c, p, t);
    assert(series_position(after_mint(c, id), id) == p);
}

/// Why the caller cannot mint an item of the series `id`, if it cannot:
/// there is no such series, the caller did not create it, or no item of it
/// can be minted.
pub open spec fn nft_mint_fault(c: ContractView, predecessor: Seq<char>, id: Seq<char>) -> Option<Error> {
    if !has_series(c, id) {
        Some(Error::SeriesNotFound)
    } else if series_of(c, id).creator_id != predecessor {
        Some(Error::NotCreator)
    } else {
        mint_fault(c, id)
    }
}

/// The outcome of minting one item of each series of `ids` in turn, each
/// step on the state that the steps before it left: the state after the last
/// step with the items minted, or the first failure.
pub open spec fn mint_all(c: ContractView, ids: Seq<Seq<char>>, receiver: Seq<char>, timestamp: u64) -> Result<
    (ContractView, Seq<MintedTokenView>),
    Error,
>
    decreases ids.len(),
{
    if ids.len() == 0 {
        Ok((c, Seq::empty()))
    } else {
        match mint_all(c, ids.drop_last(), receiver, timestamp) {
            Err(e) => Err(e),
            Ok((d, minted)) => match mint_fault(d, ids.last()) {
                Some(e) => Err(e),
                None => Ok(
                    (
                        after_mint(d, ids.last()),
                        minted.push(minted_token(series_of(d, ids.last()), receiver, timestamp)),
                    ),
                ),
            },
        }
    }
}

/// A failure among the first `k` steps is the failure of the whole.
pub proof fn lemma_mint_all_fails_early(
    c: ContractView,
    ids: Seq<Seq<char>>,
    receiver: Seq<char>,
    timestamp: u64,
    k: int,
)
    requires
        0 <= k <= ids.len(),
        mint_all(c, ids.take(k), receiver, timestamp) is Err,
    ensures
        mint_all(c, ids, receiver, timestamp) == mint_all(c, ids.take(k), receiver, timestamp),
    decreases ids.len() - k,
{
    if k < ids.len() {
        assert(ids.take(k + 1).drop_last() =~= ids.take(k));
        lemma_mint_all_fails_early(c, ids, receiver, timestamp, k + 1);
    } else {
        assert(ids.take(k) =~= ids);
    }
}

/// The items that were minted, as their models.
pub open spec fn minted_views(v: Seq<MintedToken>) -> Seq<MintedTokenView> {
    Seq::new(v.len(), |i: int| v[i]@)
}

impl Contract {
    /// Mints one item of the series `token_series_id` to `receiver_id`. Only
    /// the creator of the series may do so.
    pub fn nft_mint(&mut self, ctx: &CallContext, token_series_id: String, receiver_id: String) -> (r: Result<
        MintedToken,
        Error,
    >)
        requires
            old(self).wf(),
        ensures
            final(self).wf(),
            match nft_mint_fault(old(self)@, ctx.predecessor_id@, token_series_id@) {
                Some(e) => r matches Err(x) && x == e && final(self)@ == old(self)@,
                None => r matches Ok(t) && t@ == minted_token(
                    series_of(old(self)@, token_series_id@),
                    receiver_id@,
                    ctx.block_timestamp,
                ) && final(self)@ == after_mint(old(self)@, token_series_id@),
            },
            r is Ok ==> has_series(final(self)@, token_series_id@) && series_of(final(self)@, token_series_id@)
                == series_after_mint(series_of(old(self)@, token_series_id@)),
            r is Ok ==> supply_within_cap(series_of(final(self)@, token_series_id@)),
            final(self)@ == apply(
                old(self)@,
                (Operation::Mint { predecessor: ctx.predecessor_id@, id: token_series_id@ }),
            ),
    {
        let position = match self.find_series(&token_series_id) {
            Some(i) => i,
            None => {
                return Err(Error::SeriesNotFound);
            },
        };
        if ctx.predecessor_id != self.token_series_by_id[position].creator_id {
            return Err(Error::NotCreator);
        }
        self.nft_mint_series(&token_series_id, &receiver_id, ctx.block_timestamp)
    }

    /// Mints the next item of the series `token_series_id` to `receiver_id`.
    /// The item gets the next number of the series. An event that reaches
    /// its copies limit by this item is closed for minting in the same step.
    /// The caller is not asked who it is: see `nft_mint` and `nft_buy`.
    pub fn nft_mint_series(&mut self, token_series_id: &String, receiver_id: &String, block_timestamp: u64) -> (r:
        Result<MintedToken, Error>)
        requires
            old(self).wf(),
        ensures
            final(self).wf(),
            match mint_fault(old(self)@, token_series_id@) {
                Some(e) => r matches Err(x) && x == e && final(self)@ == old(self)@,
                None => r matches Ok(t) && t@ == minted_token(
                    series_of(old(self)@, token_series_id@),
                    receiver_id@,
                    block_timestamp,
                ) && final(self)@ == after_mint(old(self)@, token_series_id@),
            },
            r is Ok ==> has_series(final(self)@, token_series_id@) && series_of(final(self)@, token_series_id@)
                == series_after_mint(series_of(old(self)@, token_series_id@)),
            r is Ok ==> supply_within_cap(series_of(final(self)@, token_series_id@)),
            r is Ok && is_event_id(token_series_id@) ==> (!series_of(final(self)@, token_series_id@).is_mintable
                <==> next_number(series_of(old(self)@, token_series_id@)) == copies_limit(
                series_of(old(self)@, token_series_id@),
            )),
    {
        let position = match self.find_series(token_series_id) {
            Some(i) => i,
            None => {
                return Err(Error::SeriesNotFound);
            },
        };
        let ghost before = self@;
        let ghost s = before.series[position as int];
        if !self.token_series_by_id[position].is_mintable {
            return Err(Error::NotMintable);
        }
        let num_tokens: usize = self.token_series_by_id[position].tokens.len();
        let max_copies: u64 = match self.token_series_by_id[position].metadata.copies {
            Some(c) => c,
            None => u64::MAX,
        };
        if num_tokens as u64 >= max_copies {
            return Err(Error::SupplyMaxed);
        }
        let title: String = match &self.token_series_by_id[position].metadata.title {
            Some(t) => t.clone(),
            None => {
                return Err(Error::TitleRequired);
            },
        };
        proof {
            lemma_after_mint(before, token_series_id@);
            lemma_series_position(before, token_series_id@);
        }
        let number: u64 = num_tokens as u64 + 1;
        let closes: bool = number >= max_copies && id_is_event(token_series_id);
        let token_id = item_id_string(token_series_id, number);
        let mut item_title = title.concat(" ");
        item_title.append(TITLE_DELIMETER);
        item_title.append(" ");
        item_title.append(token_series_id.as_str());
        item_title.append(" ");
        item_title.append(TITLE_DELIMETER);
        item_title.append(" ");
        let digits = decimal_string(number as u128);
        item_title.append(digits.as_str());
        let mut metadata = TokenMetadata::empty();
        metadata.title = Some(item_title);
        metadata.issued_at = Some(decimal_string(block_timestamp as u128));

        if closes {
            self.token_series_by_id[position].is_mintable = false;
        }
        self.token_series_by_id[position].tokens.push(token_id.clone());
        let is_mintable = self.token_series_by_id[position].is_mintable;
        proof {
            let expected = series_after_mint(s);
            let after = after_mint(before, token_series_id@);
            assert(self@.series[position as int].tokens =~= expected.tokens);
            assert(self@.series[position as int] == expected);
            assert forall|i: int| 0 <= i < after.series.len() implies self@.series[i] == after.series[i] by {
                if i != position {
                    assert(self@.series[i] == before.series[i]);
                }
            }
            assert(self@.series =~= after.series);
        }
        Ok(MintedToken { token_id, owner_id: receiver_id.clone(), metadata, is_mintable })
    }
}

} // verus!
