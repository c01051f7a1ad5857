use mintick_nft::context::CallContext;
use mintick_nft::error::Error;
use mintick_nft::metadata::TokenMetadata;
use mintick_nft::state::Contract;

fn ctx(caller: &str) -> CallContext {
    CallContext {
        predecessor_id: caller.to_string(),
        signer_id: caller.to_string(),
        attached_deposit: 0,
        block_timestamp: 1_234_567,
    }
}

fn metadata(title: Option<&str>, copies: Option<u64>) -> TokenMetadata {
    let mut m = TokenMetadata::empty();
    m.title = title.map(|t| t.to_string());
    m.copies = copies;
    m
}

fn with_event(copies: Option<u64>) -> Contract {
    let mut c = Contract::new_default_meta("owner.near".to_string(), "vault.near".to_string());
    c.update_tasa(&ctx("owner.near"), 2_000_000).unwrap();
    c.nft_event(&ctx("alice.near"), metadata(Some("Concert"), copies), None, None, None).unwrap();
    c
}

#[test]
fn only_the_creator_mints() {
    let mut c = with_event(None);
    assert_eq!(
        c.nft_mint(&ctx("bob.near"), "1|1".to_string(), "bob.near".to_string()),
        Err(Error::NotCreator)
    );
    assert_eq!(
        c.nft_mint(&ctx("owner.near"), "1|1".to_string(), "bob.near".to_string()),
        Err(Error::NotCreator)
    );
    assert_eq!(
        c.nft_mint(&ctx("alice.near"), "1|2".to_string(), "bob.near".to_string()),
        Err(Error::SeriesNotFound)
    );
    assert_eq!(c.nft_supply_for_series("1|1".to_string()), Ok(0));
    let t = c.nft_mint(&ctx("alice.near"), "1|1".to_string(), "bob.near".to_string()).unwrap();
    assert_eq!(t.owner_id, "bob.near");
    assert_eq!(c.nft_supply_for_series("1|1".to_string()), Ok(1));
}

#[test]
fn item_identifiers_increase_by_one() {
    let mut c = with_event(None);
    for n in 1..=12u64 {
        let t = c.nft_mint(&ctx("alice.near"), "1|1".to_string(), "bob.near".to_string()).unwrap();
        assert_eq!(t.token_id, format!("1|1:{}", n));
        assert_eq!(t.metadata.title, Some(format!("Concert  # 1|1  # {}", n)));
        assert_eq!(t.metadata.issued_at, Some("1234567".to_string()));
        assert!(t.is_mintable);
    }
    let tokens = c.series(&"1|1".to_string()).unwrap().tokens().clone();
    assert_eq!(tokens.len(), 12);
    assert_eq!(tokens[0], "1|1:1");
    assert_eq!(tokens[9], "1|1:10");
    assert_eq!(tokens[11], "1|1:12");
}

#[test]
fn item_identifiers_are_unique_across_series() {
    let mut c = with_event(None);
    c.nft_event(&ctx("alice.near"), metadata(Some("Other"), None), None, None, None).unwrap();
    let mut seen: Vec<String> = Vec::new();
    for id in ["1|1", "2|1", "1|2", "2|2", "1|1", "2|1", "1|1"] {
        let t = c.nft_mint(&ctx("alice.near"), id.to_string(), "bob.near".to_string()).unwrap();
        assert!(!seen.contains(&t.token_id));
        seen.push(t.token_id);
    }
    assert_eq!(seen, vec!["1|1:1", "2|1:1", "1|2:1", "2|2:1", "1|1:2", "2|1:2", "1|1:3"]);
}

#[test]
fn the_last_copy_closes_an_event() {
    let mut c = with_event(Some(3));
    let first = c.nft_mint(&ctx("alice.near"), "1|1".to_string(), "bob.near".to_string()).unwrap();
    assert!(first.is_mintable);
    assert!(c.series(&"1|1".to_string()).unwrap().is_mintable());
    let second = c.nft_mint(&ctx("alice.near"), "1|1".to_string(), "bob.near".to_string()).unwrap();
    assert!(second.is_mintable);
    assert_eq!(c.get_nft_series_copies_availables("1|1".to_string()), Ok(1));
    let third = c.nft_mint(&ctx("alice.near"), "1|1".to_string(), "bob.near".to_string()).unwrap();
    assert_eq!(third.token_id, "1|1:3");
    assert!(!third.is_mintable);
    assert!(!c.series(&"1|1".to_string()).unwrap().is_mintable());
    assert_eq!(c.get_nft_series_copies_availables("1|1".to_string()), Ok(0));
    assert_eq!(
        c.nft_mint(&ctx("alice.near"), "1|1".to_string(), "bob.near".to_string()),
        Err(Error::NotMintable)
    );
    assert_eq!(c.nft_supply_for_series("1|1".to_string()), Ok(3));
}

#[test]
fn exhausted_supply_is_refused_even_when_reopened() {
    let mut c = with_event(Some(1));
    c.nft_mint(&ctx("alice.near"), "1|1".to_string(), "bob.near".to_string()).unwrap();
    c.update_nft_event(
        &ctx("alice.near"),
        "1|1".to_string(),
        None,
        None,
        None,
        None,
        None,
        Some(true),
        None,
        None,
    )
    .unwrap();
    assert_eq!(
        c.nft_mint(&ctx("alice.near"), "1|1".to_string(), "bob.near".to_string()),
        Err(Error::SupplyMaxed)
    );
    assert_eq!(c.nft_supply_for_series("1|1".to_string()), Ok(1));
    // more copies open the series again
    c.update_nft_event(&ctx("alice.near"), "1|1".to_string(), None, None, None, None, Some(1), None, None, None)
        .unwrap();
    let t = c.nft_mint(&ctx("alice.near"), "1|1".to_string(), "bob.near".to_string()).unwrap();
    assert_eq!(t.token_id, "1|1:2");
    assert!(!t.is_mintable);
}

#[test]
fn a_limit_of_zero_allows_no_mint() {
    let mut c = with_event(Some(0));
    assert_eq!(
        c.nft_mint(&ctx("alice.near"), "1|1".to_string(), "bob.near".to_string()),
        Err(Error::SupplyMaxed)
    );
}

#[test]
fn closed_series_cannot_be_minted() {
    let mut c = with_event(Some(5));
    c.update_nft_event(
        &ctx("alice.near"),
        "1|1".to_string(),
        None,
        None,
        None,
        None,
        None,
        Some(false),
        None,
        None,
    )
    .unwrap();
    assert_eq!(
        c.nft_mint(&ctx("alice.near"), "1|1".to_string(), "bob.near".to_string()),
        Err(Error::NotMintable)
    );
    assert_eq!(
        c.nft_mint_series(&"1|1".to_string(), &"bob.near".to_string(), 5),
        Err(Error::NotMintable)
    );
    assert_eq!(c.nft_mint_series(&"9|9".to_string(), &"bob.near".to_string(), 5), Err(Error::SeriesNotFound));
}

#[test]
fn companions_are_never_closed_by_minting() {
    let mut c = with_event(Some(1));
    for n in 1..=4u64 {
        let t = c.nft_mint(&ctx("alice.near"), "2|1".to_string(), "bob.near".to_string()).unwrap();
        assert_eq!(t.token_id, format!("2|1:{}", n));
        assert_eq!(t.metadata.title, Some(format!("Concert  # 2|1  # {}", n)));
        assert!(t.is_mintable);
    }
    assert_eq!(c.get_nft_series_copies_availables("2|1".to_string()), Err(Error::NoCopiesLimit));
}

#[test]
fn a_series_without_title_cannot_name_its_items() {
    let mut c = with_event(None);
    let id = c.nft_objects(&ctx("alice.near"), metadata(None, None), "1|1".to_string()).unwrap();
    assert_eq!(c.nft_mint(&ctx("alice.near"), id.clone(), "bob.near".to_string()), Err(Error::TitleRequired));
    assert_eq!(c.nft_supply_for_series(id), Ok(0));
}

#[test]
fn a_first_limit_below_the_minted_count_is_refused() {
    let mut c = with_event(None);
    c.nft_mint(&ctx("alice.near"), "1|1".to_string(), "bob.near".to_string()).unwrap();
    c.nft_mint(&ctx("alice.near"), "1|1".to_string(), "bob.near".to_string()).unwrap();
    let before = c.clone();
    for below in [0u64, 1] {
        assert_eq!(
            c.update_nft_event(
                &ctx("alice.near"),
                "1|1".to_string(),
                Some("Changed".to_string()),
                None,
                None,
                None,
                Some(below),
                None,
                None,
                None
            ),
            Err(Error::CopiesBelowSupply { minted: 2 })
        );
        assert_eq!(c, before);
    }
    // a limit at the minted count is accepted, and leaves nothing to mint
    c.update_nft_event(&ctx("alice.near"), "1|1".to_string(), None, None, None, None, Some(2), None, None, None)
        .unwrap();
    assert_eq!(c.series(&"1|1".to_string()).unwrap().metadata().copies, Some(2));
    assert_eq!(c.nft_supply_for_series("1|1".to_string()), Ok(2));
    assert_eq!(c.get_nft_series_copies_availables("1|1".to_string()), Ok(0));
    assert!(c.series(&"1|1".to_string()).unwrap().is_mintable());
    assert_eq!(
        c.nft_mint(&ctx("alice.near"), "1|1".to_string(), "bob.near".to_string()),
        Err(Error::SupplyMaxed)
    );
    // an existing limit only grows
    c.update_nft_event(&ctx("alice.near"), "1|1".to_string(), None, None, None, None, Some(0), None, None, None)
        .unwrap();
    assert_eq!(c.series(&"1|1".to_string()).unwrap().metadata().copies, Some(2));
}

#[test]
fn a_capped_companion_is_not_closed_by_its_last_copy() {
    let mut c = with_event(None);
    c.update_nft_event(&ctx("alice.near"), "2|1".to_string(), None, None, None, None, Some(2), None, None, None)
        .unwrap();
    let first = c.nft_mint(&ctx("alice.near"), "2|1".to_string(), "bob.near".to_string()).unwrap();
    assert!(first.is_mintable);
    let last = c.nft_mint(&ctx("alice.near"), "2|1".to_string(), "bob.near".to_string()).unwrap();
    assert_eq!(last.token_id, "2|1:2");
    assert!(last.is_mintable);
    assert!(c.series(&"2|1".to_string()).unwrap().is_mintable());
    assert_eq!(c.get_nft_series_copies_availables("2|1".to_string()), Ok(0));
    assert_eq!(
        c.nft_mint(&ctx("alice.near"), "2|1".to_string(), "bob.near".to_string()),
        Err(Error::SupplyMaxed)
    );
    assert_eq!(c.nft_supply_for_series("2|1".to_string()), Ok(2));
}
