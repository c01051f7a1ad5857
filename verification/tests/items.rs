use mintick_nft::context::CallContext;
use mintick_nft::error::Error;
use mintick_nft::metadata::TokenMetadata;
use mintick_nft::payout::PayoutEntry;
use mintick_nft::royalty::RoyaltyTable;
use mintick_nft::state::Contract;

fn ctx(caller: &str, deposit: u128) -> CallContext {
    CallContext {
        predecessor_id: caller.to_string(),
        signer_id: caller.to_string(),
        attached_deposit: deposit,
        block_timestamp: 7,
    }
}

fn metadata(title: &str) -> TokenMetadata {
    let mut m = TokenMetadata::empty();
    m.title = Some(title.to_string());
    m
}

fn table(entries: &[(&str, u32)]) -> RoyaltyTable {
    let mut t = RoyaltyTable::new();
    for (a, b) in entries {
        t.insert(a.to_string(), *b);
    }
    t
}

fn entry(a: &str, amount: u128) -> PayoutEntry {
    PayoutEntry { account_id: a.to_string(), amount }
}

/// event 1|1 of alice with companion 2|1 and object 3|2; one item of each minted to bob
fn stocked() -> Contract {
    let mut c = Contract::new_default_meta("owner.near".to_string(), "vault.near".to_string());
    c.update_tasa(&ctx("owner.near", 0), 2_000_000).unwrap();
    c.add_admin(&ctx("owner.near", 0), "admin.near".to_string()).unwrap();
    c.nft_event(
        &ctx("alice.near", 0),
        metadata("Concert"),
        None,
        Some(table(&[("label.near", 1000), ("venue.near", 250)])),
        None,
    )
    .unwrap();
    c.nft_objects(&ctx("alice.near", 0), metadata("Drink"), "1|1".to_string()).unwrap();
    for id in ["1|1", "2|1", "3|2"] {
        c.nft_mint(&ctx("alice.near", 0), id.to_string(), "bob.near".to_string()).unwrap();
    }
    c
}

#[test]
fn holder_burns_own_item() {
    let c = stocked();
    let before = c.clone();
    let b = c.nft_burn(&ctx("bob.near", 1), "1|1:1".to_string(), Some("bob.near".to_string())).unwrap();
    assert_eq!(b.owner_id, "bob.near");
    assert_eq!(b.token_id, "1|1:1");
    assert_eq!(b.token_object_id, "1|1");
    assert_eq!(b.user_burn, "bob.near");
    // a burn does not change the series
    assert_eq!(c, before);
    assert_eq!(c.nft_supply_for_series("1|1".to_string()), Ok(1));
}

#[test]
fn burn_needs_one_unit_and_the_holder() {
    let c = stocked();
    assert_eq!(
        c.nft_burn(&ctx("bob.near", 0), "1|1:1".to_string(), Some("bob.near".to_string())),
        Err(Error::OneYoctoRequired)
    );
    assert_eq!(
        c.nft_burn(&ctx("bob.near", 2), "1|1:1".to_string(), Some("bob.near".to_string())),
        Err(Error::OneYoctoRequired)
    );
    assert_eq!(c.nft_burn(&ctx("bob.near", 1), "1|1:9".to_string(), None), Err(Error::TokenNotFound));
    assert_eq!(
        c.nft_burn(&ctx("alice.near", 1), "1|1:1".to_string(), Some("bob.near".to_string())),
        Err(Error::TokenOwnerOnly)
    );
    assert_eq!(
        c.nft_burn(&ctx("owner.near", 1), "1|1:1".to_string(), Some("bob.near".to_string())),
        Err(Error::TokenOwnerOnly)
    );
}

#[test]
fn companion_items_are_burnt_by_those_who_manage_the_series() {
    let c = stocked();
    for caller in ["alice.near", "owner.near", "admin.near"] {
        let b = c.burn_object(&ctx(caller, 1), "2|1:1".to_string(), Some("bob.near".to_string())).unwrap();
        assert_eq!(b.owner_id, "bob.near");
        assert_eq!(b.token_id, "2|1:1");
        assert_eq!(b.token_object_id, "2|1");
        assert_eq!(b.user_burn, caller);
    }
    assert!(c.burn_object(&ctx("alice.near", 1), "3|2:1".to_string(), Some("bob.near".to_string())).is_ok());
    assert_eq!(
        c.burn_object(&ctx("mallory.near", 1), "2|1:1".to_string(), Some("bob.near".to_string())),
        Err(Error::OnlyCreatorOrAdministrator)
    );
    assert_eq!(
        c.burn_object(&ctx("bob.near", 1), "2|1:1".to_string(), Some("bob.near".to_string())),
        Err(Error::OnlyCreatorOrAdministrator)
    );
}

#[test]
fn burn_object_checks_deposit_kind_holder_and_series() {
    let c = stocked();
    assert_eq!(
        c.burn_object(&ctx("alice.near", 0), "2|1:1".to_string(), Some("bob.near".to_string())),
        Err(Error::OneYoctoRequired)
    );
    assert_eq!(
        c.burn_object(&ctx("alice.near", 1), "1|1:1".to_string(), Some("bob.near".to_string())),
        Err(Error::WrongSeriesKind)
    );
    assert_eq!(c.burn_object(&ctx("alice.near", 1), "2|1:5".to_string(), None), Err(Error::TokenNotFound));
    assert_eq!(
        c.burn_object(&ctx("alice.near", 1), "2|8:1".to_string(), Some("bob.near".to_string())),
        Err(Error::SeriesNotFound)
    );
}

#[test]
fn an_administrator_is_known_by_the_signature() {
    let c = stocked();
    let relayed = CallContext {
        predecessor_id: "relay.near".to_string(),
        signer_id: "admin.near".to_string(),
        attached_deposit: 1,
        block_timestamp: 0,
    };
    assert!(c.burn_object(&relayed, "2|1:1".to_string(), Some("bob.near".to_string())).is_ok());
    // an approval goes by the caller alone
    assert_eq!(c.approved_object(&relayed, "2|1:1".to_string()), Err(Error::OnlyAdministrator));
}

#[test]
fn companion_items_are_approved_by_those_who_manage_the_series() {
    let c = stocked();
    for caller in ["alice.near", "owner.near", "admin.near"] {
        let a = c.approved_object(&ctx(caller, 1), "2|1:1".to_string()).unwrap();
        assert_eq!(a.token_id, "2|1:1");
        assert_eq!(a.user_approved, caller);
    }
    assert!(c.approved_object(&ctx("alice.near", 1), "3|2:1".to_string()).is_ok());
    assert_eq!(c.approved_object(&ctx("bob.near", 1), "2|1:1".to_string()), Err(Error::OnlyAdministrator));
}

#[test]
fn approval_checks_deposit_series_kind_and_item() {
    let c = stocked();
    assert_eq!(c.approved_object(&ctx("alice.near", 0), "2|1:1".to_string()), Err(Error::OneYoctoRequired));
    assert_eq!(c.approved_object(&ctx("alice.near", 1), "2|9:1".to_string()), Err(Error::SeriesNotFound));
    assert_eq!(c.approved_object(&ctx("alice.near", 1), "1|1:1".to_string()), Err(Error::WrongSeriesKind));
    // the series never issued this item
    assert_eq!(c.approved_object(&ctx("alice.near", 1), "2|1:2".to_string()), Err(Error::TokenNotFound));
    assert_eq!(c.approved_object(&ctx("alice.near", 1), "2|1:01".to_string()), Err(Error::TokenNotFound));
}

#[test]
fn transfer_by_another_account_names_it_as_authorized() {
    let c = stocked();
    let log = c.nft_transfer_unsafe(
        "market.near".to_string(),
        "bob.near".to_string(),
        "carol.near".to_string(),
        "1|1:1".to_string(),
        Some("sold".to_string()),
    );
    assert_eq!(log.old_owner_id, "bob.near");
    assert_eq!(log.new_owner_id, "carol.near");
    assert_eq!(log.token_id, "1|1:1");
    assert_eq!(log.authorized_id, Some("market.near".to_string()));
    assert_eq!(log.memo, Some("sold".to_string()));
}

#[test]
fn a_returned_item_is_logged_as_a_transfer_back() {
    let c = stocked();
    assert_eq!(
        c.nft_resolve_transfer(true, "bob.near".to_string(), "carol.near".to_string(), "1|1:1".to_string()),
        None
    );
    let log = c
        .nft_resolve_transfer(false, "bob.near".to_string(), "carol.near".to_string(), "1|1:1".to_string())
        .unwrap();
    assert_eq!(log.old_owner_id, "carol.near");
    assert_eq!(log.new_owner_id, "bob.near");
    assert_eq!(log.token_id, "1|1:1");
    assert_eq!(log.authorized_id, None);
    assert_eq!(log.memo, None);
}

#[test]
fn payout_pays_the_royalties_and_the_holder() {
    let c = stocked();
    let p = c.nft_payout("1|1:1".to_string(), Some("bob.near".to_string()), 10_001, 10).unwrap();
    assert_eq!(p.payout, vec![entry("label.near", 1000), entry("venue.near", 250), entry("bob.near", 8751)]);
    // a holder that is a royalty recipient takes the rest only
    let p = c.nft_payout("1|1:1".to_string(), Some("label.near".to_string()), 10_000, 10).unwrap();
    assert_eq!(p.payout, vec![entry("venue.near", 250), entry("label.near", 9750)]);
    // a companion has no royalties
    let p = c.nft_payout("2|1:1".to_string(), Some("bob.near".to_string()), 500, 0).unwrap();
    assert_eq!(p.payout, vec![entry("bob.near", 500)]);
}

#[test]
fn payout_fails_for_unknown_items_and_small_markets() {
    let c = stocked();
    assert_eq!(c.nft_payout("1|1:1".to_string(), None, 100, 10), Err(Error::TokenNotFound));
    assert_eq!(
        c.nft_payout("1|5:1".to_string(), Some("bob.near".to_string()), 100, 10),
        Err(Error::SeriesNotFound)
    );
    assert_eq!(
        c.nft_payout("1|1:1".to_string(), Some("bob.near".to_string()), 100, 1),
        Err(Error::TooManyPayoutReceivers)
    );
    assert!(c.nft_payout("1|1:1".to_string(), Some("bob.near".to_string()), 100, 2).is_ok());
}

#[test]
fn transfer_payout_is_computed_only_for_a_balance() {
    let c = stocked();
    let owner = || Some("bob.near".to_string());
    assert_eq!(c.nft_transfer_payout(&ctx("bob.near", 1), "1|1:1".to_string(), owner(), None, None), Ok(None));
    let p = c
        .nft_transfer_payout(&ctx("market.near", 1), "1|1:1".to_string(), owner(), Some(2_000), Some(5))
        .unwrap()
        .unwrap();
    assert_eq!(p.payout, vec![entry("label.near", 200), entry("venue.near", 50), entry("bob.near", 1750)]);
    assert_eq!(
        c.nft_transfer_payout(&ctx("bob.near", 0), "1|1:1".to_string(), owner(), Some(1), Some(5)),
        Err(Error::OneYoctoRequired)
    );
    assert_eq!(
        c.nft_transfer_payout(&ctx("bob.near", 1), "1|1:1".to_string(), None, Some(1), Some(5)),
        Err(Error::TokenNotFound)
    );
    assert_eq!(
        c.nft_transfer_payout(&ctx("bob.near", 1), "1|4:1".to_string(), owner(), None, None),
        Err(Error::SeriesNotFound)
    );
    assert_eq!(
        c.nft_transfer_payout(&ctx("bob.near", 1), "1|1:1".to_string(), owner(), Some(1), None),
        Err(Error::MissingPayoutLimit)
    );
    assert_eq!(
        c.nft_transfer_payout(&ctx("bob.near", 1), "1|1:1".to_string(), owner(), Some(1), Some(1)),
        Err(Error::TooManyPayoutReceivers)
    );
}
