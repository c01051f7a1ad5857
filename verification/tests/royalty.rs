use mintick_nft::error::Error;
use mintick_nft::royalty::RoyaltyTable;

fn table(entries: &[(&str, u32)]) -> RoyaltyTable {
    let mut t = RoyaltyTable::new();
    for (a, b) in entries {
        t.insert(a.to_string(), *b);
    }
    t
}

#[test]
fn insert_replaces_the_share_of_a_known_account() {
    let mut t = RoyaltyTable::new();
    assert_eq!(t.len(), 0);
    assert_eq!(t.insert("alice.near".to_string(), 100), None);
    assert_eq!(t.insert("bob.near".to_string(), 200), None);
    assert_eq!(t.insert("alice.near".to_string(), 300), Some(100));
    assert_eq!(t.len(), 2);
    assert_eq!(t.get(&"alice.near".to_string()), Some(300));
    assert_eq!(t.get(&"bob.near".to_string()), Some(200));
    assert_eq!(t.get(&"carol.near".to_string()), None);
    assert_eq!(t.account_at(0), "alice.near");
    assert_eq!(t.bps_at(1), 200);
    assert_eq!(t.total(), 500);
    assert_eq!(t.find(&"bob.near".to_string()), Some(1));
}

#[test]
fn royalty_table_may_sum_to_9000() {
    assert_eq!(table(&[("a.near", 4500), ("b.near", 4500)]).check_royalty(), Ok(()));
    assert_eq!(table(&[("a.near", 4500), ("b.near", 4501)]).check_royalty(), Err(Error::RoyaltyExceedsCap));
    assert_eq!(RoyaltyTable::new().check_royalty(), Ok(()));
    assert_eq!(table(&[("a.near", u32::MAX), ("b.near", u32::MAX)]).check_royalty(), Err(Error::RoyaltyExceedsCap));
}

#[test]
fn royalty_table_may_have_ten_accounts() {
    let names = ["a0", "a1", "a2", "a3", "a4", "a5", "a6", "a7", "a8", "a9", "b0"];
    let mut t = RoyaltyTable::new();
    for n in &names[..10] {
        t.insert(n.to_string(), 1);
    }
    assert_eq!(t.check_royalty(), Ok(()));
    t.insert(names[10].to_string(), 1);
    assert_eq!(t.check_royalty(), Err(Error::TooManyRoyaltyAccounts));
}

#[test]
fn royalty_buy_table_may_have_five_accounts() {
    let creator = "creator.near".to_string();
    let five = table(&[("a0", 1), ("a1", 1), ("a2", 1), ("a3", 1), ("a4", 1)]);
    assert_eq!(five.check_royalty_buy(&creator, 300), Ok(()));
    let six = table(&[("a0", 1), ("a1", 1), ("a2", 1), ("a3", 1), ("a4", 1), ("a5", 1)]);
    assert_eq!(six.check_royalty_buy(&creator, 300), Err(Error::TooManyRoyaltyBuyAccounts));
}

#[test]
fn royalty_buy_cap_is_9000_less_the_vault_fee() {
    let creator = "creator.near".to_string();
    assert_eq!(table(&[("a.near", 8700)]).check_royalty_buy(&creator, 300), Ok(()));
    assert_eq!(
        table(&[("a.near", 8701)]).check_royalty_buy(&creator, 300),
        Err(Error::RoyaltyBuyExceedsCap { max: 8700 })
    );
    assert_eq!(table(&[("a.near", 9000)]).check_royalty_buy(&creator, 0), Ok(()));
    assert_eq!(
        table(&[("a.near", 1)]).check_royalty_buy(&creator, 9000),
        Err(Error::RoyaltyBuyExceedsCap { max: 0 })
    );
}

#[test]
fn malformed_royalty_account_is_refused() {
    assert_eq!(table(&[("Not Valid", 10)]).check_royalty(), Err(Error::InvalidRoyaltyAccount));
    assert_eq!(
        table(&[("ok.near", 10), ("x", 10)]).check_royalty_buy(&"creator.near".to_string(), 300),
        Err(Error::InvalidRoyaltyAccount)
    );
    // a faulty entry is reported before a limit
    assert_eq!(table(&[("UPPER", 9500)]).check_royalty(), Err(Error::InvalidRoyaltyAccount));
}

#[test]
fn creator_may_not_be_on_the_purchase_split() {
    let creator = "creator.near".to_string();
    assert_eq!(
        table(&[("a.near", 10), ("creator.near", 10)]).check_royalty_buy(&creator, 300),
        Err(Error::CreatorInSplitList)
    );
    // the creator may be in the royalty table of later sales
    assert_eq!(table(&[("creator.near", 10)]).check_royalty(), Ok(()));
    assert_eq!(table(&[("creator.near", 10)]).check_entries(Some(&creator)), Err(Error::CreatorInSplitList));
    assert_eq!(table(&[("creator.near", 10)]).check_entries(None), Ok(()));
}
