use mintick_nft::error::Error;
use mintick_nft::payout::{royalty_to_payout, split, Payout, PayoutEntry};
use mintick_nft::royalty::RoyaltyTable;

fn table(entries: &[(&str, u32)]) -> RoyaltyTable {
    let mut t = RoyaltyTable::new();
    for (a, b) in entries {
        t.insert(a.to_string(), *b);
    }
    t
}

fn entry(a: &str, amount: u128) -> PayoutEntry {
    PayoutEntry { account_id: a.to_string(), amount }
}

fn total(p: &Payout) -> u128 {
    p.payout.iter().map(|e| e.amount).sum()
}

#[test]
fn share_is_floor_of_basis_points() {
    assert_eq!(royalty_to_payout(300, 5_000_000_000_000_000_000_000_000), 150_000_000_000_000_000_000_000);
    assert_eq!(royalty_to_payout(3333, 999), 332);
    assert_eq!(royalty_to_payout(1, 9_999), 0);
    assert_eq!(royalty_to_payout(1, 10_000), 1);
    assert_eq!(royalty_to_payout(10_000, u128::MAX), u128::MAX);
    assert_eq!(royalty_to_payout(0, u128::MAX), 0);
    assert_eq!(royalty_to_payout(5_000, u128::MAX), u128::MAX / 2);
}

#[test]
fn split_pays_shares_and_remainder() {
    let t = table(&[("alice.near", 1000), ("bob.near", 2500)]);
    let p = split(1000, &t, 10, &"owner.near".to_string()).unwrap();
    assert_eq!(
        p.payout,
        vec![entry("alice.near", 100), entry("bob.near", 250), entry("owner.near", 650)]
    );
}

#[test]
fn split_conserves_the_total() {
    let t = table(&[("a.near", 3333), ("b.near", 3333), ("c.near", 2334)]);
    for amount in [0u128, 1, 2, 3, 999, 1_000, 10_001, 5_000_000_000_000_000_000_000_007, u128::MAX] {
        let p = split(amount, &t, 10, &"owner.near".to_string()).unwrap();
        assert_eq!(p.payout.len(), 4);
        assert_eq!(total(&p), amount);
    }
    let p = split(999, &table(&[("a.near", 3333)]), 10, &"owner.near".to_string()).unwrap();
    assert_eq!(p.payout, vec![entry("a.near", 332), entry("owner.near", 667)]);
}

#[test]
fn split_skips_the_excluded_account() {
    let t = table(&[("alice.near", 1000), ("owner.near", 9000), ("bob.near", 500)]);
    let p = split(10_000, &t, 3, &"owner.near".to_string()).unwrap();
    assert_eq!(
        p.payout,
        vec![entry("alice.near", 1000), entry("bob.near", 500), entry("owner.near", 8500)]
    );
}

#[test]
fn split_of_an_empty_table_pays_the_excluded_account_all() {
    let p = split(77, &RoyaltyTable::new(), 0, &"owner.near".to_string()).unwrap();
    assert_eq!(p.payout, vec![entry("owner.near", 77)]);
}

#[test]
fn split_refuses_too_many_recipients() {
    let t = table(&[("a.near", 1), ("b.near", 1), ("c.near", 1)]);
    assert_eq!(split(100, &t, 2, &"owner.near".to_string()), Err(Error::TooManyPayoutReceivers));
    assert!(split(100, &t, 3, &"owner.near".to_string()).is_ok());
}

#[test]
fn split_refuses_more_than_all_basis_points() {
    let t = table(&[("a.near", 6000), ("b.near", 4001)]);
    assert_eq!(split(100, &t, 5, &"owner.near".to_string()), Err(Error::PayoutOverflow));
    let exact = table(&[("a.near", 6000), ("b.near", 4000)]);
    let p = split(100, &exact, 5, &"owner.near".to_string()).unwrap();
    assert_eq!(p.payout, vec![entry("a.near", 60), entry("b.near", 40), entry("owner.near", 0)]);
    // the excluded account's own entry does not count
    let with_owner = table(&[("a.near", 6000), ("owner.near", 9000)]);
    assert!(split(100, &with_owner, 5, &"owner.near".to_string()).is_ok());
}
