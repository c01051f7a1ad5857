use mintick_nft::context::CallContext;
use mintick_nft::error::Error;
use mintick_nft::metadata::TokenMetadata;
use mintick_nft::queries::page_range;
use mintick_nft::royalty::RoyaltyTable;
use mintick_nft::state::Contract;
use mintick_nft::views::{Approval, ItemRecord, TokensView};

fn ctx(caller: &str) -> CallContext {
    CallContext {
        predecessor_id: caller.to_string(),
        signer_id: caller.to_string(),
        attached_deposit: 0,
        block_timestamp: 7,
    }
}

fn metadata(title: &str, copies: Option<u64>) -> TokenMetadata {
    let mut m = TokenMetadata::empty();
    m.title = Some(title.to_string());
    m.description = Some(format!("about {}", title));
    m.media = Some("https://example.org/m.png".to_string());
    m.media_hash = Some(vec![1u8; 32]);
    m.copies = copies;
    m.expires_at = Some("2031".to_string());
    m.extra = Some("x".to_string());
    m
}

fn record(token_id: &str, owner: &str) -> ItemRecord {
    ItemRecord {
        token_id: token_id.to_string(),
        owner_id: owner.to_string(),
        title: Some(format!("title of {}", token_id)),
        issued_at: Some("5".to_string()),
        approved_account_ids: Some(vec![Approval { account_id: "market.near".to_string(), approval_id: 3 }]),
    }
}

fn catalogue() -> Contract {
    let mut c = Contract::new_default_meta("owner.near".to_string(), "vault.near".to_string());
    c.update_tasa(&ctx("owner.near"), 2_000_000).unwrap();
    let mut royalty = RoyaltyTable::new();
    royalty.insert("label.near".to_string(), 700);
    c.nft_event(&ctx("alice.near"), metadata("A", Some(4)), Some(10_000_000), Some(royalty), None).unwrap();
    c.nft_event(&ctx("bob.near"), metadata("B", None), None, None, None).unwrap();
    c.nft_event(&ctx("carol.near"), metadata("C", None), Some(1), None, None).unwrap();
    c
}

#[test]
fn page_range_clips_to_the_listing() {
    assert_eq!(page_range(5, None, None), Ok((0, 5)));
    assert_eq!(page_range(5, Some(2), None), Ok((2, 5)));
    assert_eq!(page_range(5, Some(2), Some(2)), Ok((2, 4)));
    assert_eq!(page_range(5, Some(2), Some(3)), Ok((2, 5)));
    assert_eq!(page_range(5, Some(4), Some(u64::MAX)), Ok((4, 5)));
    assert_eq!(page_range(5, None, Some(1)), Ok((0, 1)));
}

#[test]
fn page_range_refuses_bad_pages() {
    assert_eq!(page_range(5, Some(5), None), Err(Error::OutOfBounds));
    assert_eq!(page_range(5, Some(u128::MAX), Some(1)), Err(Error::OutOfBounds));
    assert_eq!(page_range(0, None, None), Err(Error::OutOfBounds));
    assert_eq!(page_range(5, Some(1), Some(0)), Err(Error::ZeroLimit));
    // the start is looked at first
    assert_eq!(page_range(5, Some(5), Some(0)), Err(Error::OutOfBounds));
}

#[test]
fn series_listing_shows_prices_in_both_units() {
    let c = catalogue();
    let all = c.get_nft_series(None, None).unwrap();
    let ids: Vec<&str> = all.iter().map(|s| s.token_series_id.as_str()).collect();
    assert_eq!(ids, vec!["1|1", "2|1", "1|2", "2|2", "1|3", "2|3"]);
    assert_eq!(all[0].price, Some(5_000_000_000_000_000_000_000_000));
    assert_eq!(all[0].price_usd, Some(10_000_000));
    assert_eq!(all[0].creator_id, "alice.near");
    assert_eq!(all[0].metadata, metadata("A", Some(4)));
    assert_eq!(all[0].royalty.get(&"label.near".to_string()), Some(700));
    assert!(all[0].is_mintable);
    assert_eq!(all[1].price, None);
    assert_eq!(all[1].price_usd, None);
    assert_eq!(all[4].price, Some(500_000_000_000_000_000));
    assert_eq!(all[4].price_usd, Some(1));
}

#[test]
fn series_listing_is_paged() {
    let c = catalogue();
    let page = c.get_nft_series(Some(1), Some(3)).unwrap();
    let ids: Vec<&str> = page.iter().map(|s| s.token_series_id.as_str()).collect();
    assert_eq!(ids, vec!["2|1", "1|2", "2|2"]);
    let tail = c.get_nft_series(Some(4), Some(10)).unwrap();
    assert_eq!(tail.len(), 2);
    assert_eq!(c.get_nft_series(Some(6), None), Err(Error::OutOfBounds));
    assert_eq!(c.get_nft_series(Some(0), Some(0)), Err(Error::ZeroLimit));
    let empty = Contract::new_default_meta("o".to_string(), "v".to_string());
    assert_eq!(empty.get_nft_series(None, None), Err(Error::OutOfBounds));
}

#[test]
fn single_series_reports_the_transaction_fee() {
    let c = catalogue();
    let s = c.nft_get_series_single("1|1".to_string()).unwrap();
    assert_eq!(s.token_series_id, "1|1");
    assert_eq!(s.creator_id, "alice.near");
    assert_eq!(s.metadata, metadata("A", Some(4)));
    assert_eq!(s.royalty.len(), 1);
    assert_eq!(s.transaction_fee, 200);
    assert_eq!(c.nft_get_series_single("1|9".to_string()), Err(Error::SeriesNotFound));
}

#[test]
fn series_price_includes_the_display_margin() {
    let c = catalogue();
    assert_eq!(c.nft_get_series_price("1|1".to_string()), Ok(Some(5_100_000_000_000_000_000_000_000)));
    assert_eq!(c.nft_get_series_price("1|2".to_string()), Ok(None));
    assert_eq!(c.nft_get_series_price("7|7".to_string()), Err(Error::SeriesNotFound));
}

#[test]
fn supply_and_available_copies() {
    let mut c = catalogue();
    assert_eq!(c.nft_supply_for_series("1|1".to_string()), Ok(0));
    assert_eq!(c.get_nft_series_copies_availables("1|1".to_string()), Ok(4));
    c.nft_mint(&ctx("alice.near"), "1|1".to_string(), "bob.near".to_string()).unwrap();
    assert_eq!(c.nft_supply_for_series("1|1".to_string()), Ok(1));
    assert_eq!(c.get_nft_series_copies_availables("1|1".to_string()), Ok(3));
    assert_eq!(c.get_nft_series_copies_availables("1|2".to_string()), Err(Error::NoCopiesLimit));
    assert_eq!(c.get_nft_series_copies_availables("4|2".to_string()), Err(Error::SeriesNotFound));
    assert_eq!(c.nft_supply_for_series("4|2".to_string()), Err(Error::SeriesNotFound));
}

#[test]
fn item_is_joined_with_its_series() {
    let c = catalogue();
    let t = c.nft_token(Some(&record("1|1:1", "bob.near"))).unwrap().unwrap();
    assert_eq!(t.token_id, "1|1:1");
    assert_eq!(t.owner_id, "bob.near");
    let m = t.metadata.unwrap();
    assert_eq!(m.title, Some("title of 1|1:1".to_string()));
    assert_eq!(m.issued_at, Some("5".to_string()));
    assert_eq!(m.description, Some("about A".to_string()));
    assert_eq!(m.media, Some("https://example.org/m.png".to_string()));
    assert_eq!(m.media_hash, Some(vec![1u8; 32]));
    assert_eq!(m.copies, Some(4));
    assert_eq!(m.expires_at, Some("2031".to_string()));
    assert_eq!(m.extra, Some("x".to_string()));
    assert_eq!(m.reference, None);
    assert_eq!(
        t.approved_account_ids,
        Some(vec![Approval { account_id: "market.near".to_string(), approval_id: 3 }])
    );
    assert_eq!(t.royalty.unwrap().get(&"label.near".to_string()), Some(700));
    // the companion's metadata refers to its event
    let t = c.nft_token(Some(&record("2|1:1", "bob.near"))).unwrap().unwrap();
    assert_eq!(t.metadata.unwrap().reference, Some("1|1".to_string()));
    assert_eq!(c.nft_token(Some(&record("1|9:1", "bob.near"))), Err(Error::SeriesNotFound));
    assert_eq!(c.token_of_record(&record("9|9:1", "bob.near")), Err(Error::SeriesNotFound));
}

#[test]
fn items_are_paged_in_the_order_of_the_ledger() {
    let c = catalogue();
    let ledger = vec![
        record("1|1:1", "bob.near"),
        record("1|2:1", "carol.near"),
        record("2|1:1", "bob.near"),
        record("2|2:1", "carol.near"),
    ];
    let all = c.nft_tokens(&ledger, None, None).unwrap();
    let ids: Vec<&str> = all.iter().map(|t| t.token_id.as_str()).collect();
    assert_eq!(ids, vec!["1|1:1", "1|2:1", "2|1:1", "2|2:1"]);
    let page = c.nft_tokens(&ledger, Some(1), Some(2)).unwrap();
    let ids: Vec<&str> = page.iter().map(|t| t.token_id.as_str()).collect();
    assert_eq!(ids, vec!["1|2:1", "2|1:1"]);
    assert_eq!(page[0].owner_id, "carol.near");
    assert_eq!(c.nft_tokens(&ledger, Some(4), None), Err(Error::OutOfBounds));
    assert_eq!(c.nft_tokens(&ledger, Some(4), Some(0)), Err(Error::OutOfBounds));
    assert_eq!(c.nft_tokens(&ledger, None, Some(0)), Err(Error::ZeroLimit));
    assert_eq!(c.nft_tokens(&vec![], None, None), Err(Error::OutOfBounds));
    // an item outside the page is not looked at
    let broken = vec![record("1|1:1", "bob.near"), record("5|5:1", "bob.near")];
    assert_eq!(c.nft_tokens(&broken, None, Some(1)).unwrap().len(), 1);
    assert_eq!(c.nft_tokens(&broken, None, None), Err(Error::SeriesNotFound));
}

#[test]
fn items_of_a_holder_are_paged_with_the_limit_checked_first() {
    let c = catalogue();
    assert_eq!(c.nft_tokens_for_owner(None, Some(9), Some(0)), Ok(vec![]));
    let owned = vec![record("1|1:1", "bob.near"), record("2|1:1", "bob.near")];
    let all = c.nft_tokens_for_owner(Some(&owned), None, None).unwrap();
    assert_eq!(all.len(), 2);
    let page = c.nft_tokens_for_owner(Some(&owned), Some(1), Some(5)).unwrap();
    assert_eq!(page.len(), 1);
    assert_eq!(page[0].token_id, "2|1:1");
    assert_eq!(c.nft_tokens_for_owner(Some(&owned), Some(2), Some(0)), Err(Error::ZeroLimit));
    assert_eq!(c.nft_tokens_for_owner(Some(&owned), Some(2), Some(1)), Err(Error::OutOfBounds));
}

#[test]
fn tokens_view_pairs_holder_and_item() {
    let v = TokensView { owner_id: "bob.near".to_string(), token_id: "1|1:1".to_string() };
    assert_eq!(v.clone(), v);
    assert_eq!(v.owner_id, "bob.near");
}
