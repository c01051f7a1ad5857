use mintick_nft::context::CallContext;
use mintick_nft::error::{Error, ErrorKind};
use mintick_nft::metadata::TokenMetadata;
use mintick_nft::pricing::PRICE_SCALE;
use mintick_nft::purchase::{settle, RoyaltyBuy};
use mintick_nft::royalty::RoyaltyTable;
use mintick_nft::state::Contract;
use mintick_nft::storage::refund_deposit;

const PRICE: u128 = 5_000_000_000_000_000_000_000_000;
const MARGIN: u128 = 50_000_000_000_000_000_000_000;
const BYTE_COST: u128 = 10_000_000_000_000_000_000;

fn ctx(caller: &str, deposit: u128) -> CallContext {
    CallContext {
        predecessor_id: caller.to_string(),
        signer_id: caller.to_string(),
        attached_deposit: deposit,
        block_timestamp: 99,
    }
}

fn metadata(title: &str, copies: Option<u64>) -> TokenMetadata {
    let mut m = TokenMetadata::empty();
    m.title = Some(title.to_string());
    m.copies = copies;
    m
}

fn table(entries: &[(&str, u32)]) -> RoyaltyTable {
    let mut t = RoyaltyTable::new();
    for (a, b) in entries {
        t.insert(a.to_string(), *b);
    }
    t
}

/// price 10.0 in reference units, exchange rate 2.0
fn shop(copies: Option<u64>, royalty_buy: Option<RoyaltyTable>) -> Contract {
    let mut c = Contract::new_default_meta("owner.near".to_string(), "vault.near".to_string());
    c.update_tasa(&ctx("owner.near", 0), 2 * PRICE_SCALE).unwrap();
    c.nft_event(&ctx("alice.near", 0), metadata("Concert", copies), Some(10 * PRICE_SCALE), None, royalty_buy)
        .unwrap();
    c
}

#[test]
fn buy_mints_the_event_and_its_companion_and_pays_the_vault() {
    let mut c = shop(Some(100), None);
    let storage_cost = 600 * BYTE_COST;
    let attached = PRICE + MARGIN + storage_cost;
    let p = c.nft_buy(&ctx("bob.near", attached), "1|1".to_string(), None).unwrap();
    assert_eq!(p.token_series_id, "1|1");
    assert_eq!(p.receiver_id, "bob.near");
    assert_eq!(p.tasa, 2_000_000);
    assert_eq!(p.price_reference, 10_000_000);
    assert_eq!(p.price, PRICE);
    assert_eq!(p.vault_id, "vault.near");
    assert_eq!(p.creator_id, "alice.near");
    // floor(5e24 * 300 / 10000)
    assert_eq!(p.settlement.amount_vault, 150_000_000_000_000_000_000_000);
    assert_eq!(p.settlement.royalty, vec![]);
    assert_eq!(p.settlement.amount_creator, 4_850_000_000_000_000_000_000_000);
    assert!(p.is_mintable);
    assert_eq!(p.minted.len(), 2);
    assert_eq!(p.minted[0].token_id, "1|1:1");
    assert_eq!(p.minted[0].owner_id, "bob.near");
    assert_eq!(p.minted[0].metadata.title, Some("Concert  # 1|1  # 1".to_string()));
    assert_eq!(p.minted[0].metadata.issued_at, Some("99".to_string()));
    assert_eq!(p.minted[1].token_id, "2|1:1");
    assert_eq!(p.minted[1].owner_id, "bob.near");
    assert_eq!(c.nft_supply_for_series("1|1".to_string()), Ok(1));
    assert_eq!(c.nft_supply_for_series("2|1".to_string()), Ok(1));
    // what is left of the deposit covers the storage, the rest goes back
    assert_eq!(refund_deposit(600, p.price, attached, BYTE_COST), Ok(Some(MARGIN)));
}

#[test]
fn buy_one_unit_below_the_minimum_fails_and_changes_nothing() {
    let mut c = shop(Some(100), None);
    let before = c.clone();
    let r = c.nft_buy(&ctx("bob.near", PRICE + MARGIN - 1), "1|1".to_string(), None);
    assert_eq!(r, Err(Error::DepositBelowPrice { required: 5_050_000_000_000_000_000_000_000 }));
    assert_eq!(r.unwrap_err().kind(), ErrorKind::Funding);
    assert_eq!(c, before);
    assert_eq!(c.nft_supply_for_series("1|1".to_string()), Ok(0));
    assert_eq!(c.nft_supply_for_series("2|1".to_string()), Ok(0));
    // the minimum itself is enough
    assert!(c.nft_buy(&ctx("bob.near", PRICE + MARGIN), "1|1".to_string(), None).is_ok());
    assert_eq!(c.nft_supply_for_series("1|1".to_string()), Ok(1));
}

#[test]
fn buy_splits_the_price_without_loss() {
    let royalty_buy = table(&[("promoter.near", 1000), ("venue.near", 3333), ("band.near", 1)]);
    let mut c = shop(None, Some(royalty_buy));
    let p = c.nft_buy(&ctx("bob.near", PRICE + MARGIN), "1|1".to_string(), None).unwrap();
    let remaining: u128 = 4_850_000_000_000_000_000_000_000;
    assert_eq!(p.settlement.amount_vault, 150_000_000_000_000_000_000_000);
    assert_eq!(
        p.settlement.royalty,
        vec![
            RoyaltyBuy { wallet: "promoter.near".to_string(), porcentaje: 1000, amount: 485_000_000_000_000_000_000_000 },
            RoyaltyBuy { wallet: "venue.near".to_string(), porcentaje: 3333, amount: 1_616_505_000_000_000_000_000_000 },
            RoyaltyBuy { wallet: "band.near".to_string(), porcentaje: 1, amount: 485_000_000_000_000_000_000 },
        ]
    );
    let paid: u128 = p.settlement.royalty.iter().map(|r| r.amount).sum();
    assert_eq!(p.settlement.amount_creator, remaining - paid);
    assert_eq!(p.settlement.amount_vault + paid + p.settlement.amount_creator, PRICE);
}

#[test]
fn settlement_gives_rounding_loss_to_the_creator() {
    let s = settle(1_003, 300, &table(&[("a.near", 3333), ("b.near", 3333)])).unwrap();
    // vault floor(1003*300/10000) = 30, rest 973, shares floor(973*3333/10000) = 324
    assert_eq!(s.amount_vault, 30);
    assert_eq!(s.royalty[0].amount, 324);
    assert_eq!(s.royalty[1].amount, 324);
    assert_eq!(s.amount_creator, 325);
    let s = settle(0, 300, &table(&[("a.near", 8700)])).unwrap();
    assert_eq!((s.amount_vault, s.royalty[0].amount, s.amount_creator), (0, 0, 0));
    let s = settle(u128::MAX, 300, &RoyaltyTable::new()).unwrap();
    assert_eq!(s.amount_vault + s.amount_creator, u128::MAX);
    assert_eq!(settle(100, 10_001, &RoyaltyTable::new()), Err(Error::PayoutOverflow));
    assert_eq!(settle(100, 0, &table(&[("a.near", 10_001)])), Err(Error::PayoutOverflow));
    let all = settle(100, 0, &table(&[("a.near", 10_000)])).unwrap();
    assert_eq!((all.amount_vault, all.royalty[0].amount, all.amount_creator), (0, 100, 0));
}

#[test]
fn buy_is_for_events_that_are_for_sale() {
    let mut c = shop(None, None);
    c.nft_event(&ctx("alice.near", 0), metadata("Free", None), None, None, None).unwrap();
    let rich = PRICE * 10;
    assert_eq!(c.nft_buy(&ctx("bob.near", rich), "2|1".to_string(), None), Err(Error::WrongSeriesKind));
    assert_eq!(c.nft_buy(&ctx("bob.near", rich), "3|1".to_string(), None), Err(Error::WrongSeriesKind));
    assert_eq!(c.nft_buy(&ctx("bob.near", rich), "1|77".to_string(), None), Err(Error::SeriesNotFound));
    assert_eq!(c.nft_buy(&ctx("bob.near", rich), "1|2".to_string(), None), Err(Error::NotForSale));
    assert_eq!(c.nft_buy(&ctx("bob.near", rich), "".to_string(), None), Err(Error::WrongSeriesKind));
}

#[test]
fn buy_mints_to_a_valid_receiver_else_to_the_caller() {
    let mut c = shop(None, None);
    let p = c
        .nft_buy(&ctx("bob.near", PRICE + MARGIN), "1|1".to_string(), Some("carol.near".to_string()))
        .unwrap();
    assert_eq!(p.receiver_id, "carol.near");
    assert_eq!(p.minted[0].owner_id, "carol.near");
    assert_eq!(p.minted[1].owner_id, "carol.near");
    let p = c
        .nft_buy(&ctx("bob.near", PRICE + MARGIN), "1|1".to_string(), Some("Not An Account".to_string()))
        .unwrap();
    assert_eq!(p.receiver_id, "bob.near");
    assert_eq!(p.minted[0].owner_id, "bob.near");
}

#[test]
fn buy_mints_every_companion_in_order() {
    let mut c = shop(None, None);
    c.nft_objects(&ctx("alice.near", 0), metadata("Drink", None), "1|1".to_string()).unwrap();
    c.nft_objects(&ctx("carol.near", 0), metadata("Poster", None), "1|1".to_string()).unwrap();
    let p = c.nft_buy(&ctx("bob.near", PRICE + MARGIN), "1|1".to_string(), None).unwrap();
    let ids: Vec<&str> = p.minted.iter().map(|t| t.token_id.as_str()).collect();
    assert_eq!(ids, vec!["1|1:1", "2|1:1", "3|2:1", "3|3:1"]);
    let p = c.nft_buy(&ctx("dave.near", PRICE + MARGIN), "1|1".to_string(), None).unwrap();
    let ids: Vec<&str> = p.minted.iter().map(|t| t.token_id.as_str()).collect();
    assert_eq!(ids, vec!["1|1:2", "2|1:2", "3|2:2", "3|3:2"]);
    assert_eq!(p.minted[2].metadata.title, Some("Drink  # 3|2  # 2".to_string()));
}

#[test]
fn buy_is_all_or_nothing() {
    let mut c = shop(None, None);
    // a companion without a title cannot be minted, so the whole purchase fails
    let mut untitled = TokenMetadata::empty();
    untitled.description = Some("no title".to_string());
    c.nft_objects(&ctx("alice.near", 0), untitled, "1|1".to_string()).unwrap();
    let before = c.clone();
    assert_eq!(c.nft_buy(&ctx("bob.near", PRICE + MARGIN), "1|1".to_string(), None), Err(Error::TitleRequired));
    assert_eq!(c, before);
    assert_eq!(c.nft_supply_for_series("1|1".to_string()), Ok(0));
    assert_eq!(c.nft_supply_for_series("2|1".to_string()), Ok(0));
}

#[test]
fn buying_the_last_copy_closes_the_event() {
    let mut c = shop(Some(2), None);
    let first = c.nft_buy(&ctx("bob.near", PRICE + MARGIN), "1|1".to_string(), None).unwrap();
    assert!(first.is_mintable);
    let second = c.nft_buy(&ctx("bob.near", PRICE + MARGIN), "1|1".to_string(), None).unwrap();
    assert!(!second.is_mintable);
    assert_eq!(second.minted[0].token_id, "1|1:2");
    assert!(!c.series(&"1|1".to_string()).unwrap().is_mintable());
    assert!(c.series(&"2|1".to_string()).unwrap().is_mintable());
    let before = c.clone();
    assert_eq!(c.nft_buy(&ctx("bob.near", PRICE + MARGIN), "1|1".to_string(), None), Err(Error::NotMintable));
    assert_eq!(c, before);
}

#[test]
fn buy_uses_the_current_exchange_rate() {
    let mut c = shop(None, None);
    c.update_tasa(&ctx("owner.near", 0), 4 * PRICE_SCALE).unwrap();
    let half = PRICE / 2;
    assert_eq!(
        c.nft_buy(&ctx("bob.near", half + MARGIN - 1), "1|1".to_string(), None),
        Err(Error::DepositBelowPrice { required: half + MARGIN })
    );
    let p = c.nft_buy(&ctx("bob.near", half + MARGIN), "1|1".to_string(), None).unwrap();
    assert_eq!(p.price, half);
    assert_eq!(p.tasa, 4_000_000);
    assert_eq!(c.nft_get_series_price("1|1".to_string()), Ok(Some(half + 2 * MARGIN)));
}

#[test]
fn a_price_beyond_128_bits_cannot_be_paid() {
    let mut c = Contract::new_default_meta("owner.near".to_string(), "vault.near".to_string());
    c.update_tasa(&ctx("owner.near", 0), 1).unwrap();
    c.nft_event(&ctx("alice.near", 0), metadata("Dear", None), Some(u64::MAX), None, None).unwrap();
    assert_eq!(
        c.nft_buy(&ctx("bob.near", u128::MAX), "1|1".to_string(), None),
        Err(Error::DepositBelowPrice { required: u128::MAX })
    );
}

#[test]
fn buy_adds_one_item_to_the_event_and_its_companions_only() {
    let mut c = shop(None, None);
    c.nft_objects(&ctx("alice.near", 0), metadata("Drink", None), "1|1".to_string()).unwrap();
    c.nft_event(&ctx("carol.near", 0), metadata("Other", None), Some(PRICE_SCALE), None, None).unwrap();
    let supply = |c: &Contract| -> Vec<u64> {
        ["1|1", "2|1", "3|2", "1|2", "2|3"].iter().map(|id| c.nft_supply_for_series(id.to_string()).unwrap()).collect()
    };
    assert_eq!(supply(&c), vec![0, 0, 0, 0, 0]);
    let p = c.nft_buy(&ctx("bob.near", PRICE + MARGIN), "1|1".to_string(), None).unwrap();
    assert_eq!(p.minted.len(), 3);
    assert_eq!(supply(&c), vec![1, 1, 1, 0, 0]);
    c.nft_buy(&ctx("bob.near", PRICE + MARGIN), "1|2".to_string(), None).unwrap();
    assert_eq!(supply(&c), vec![1, 1, 1, 1, 1]);
}
