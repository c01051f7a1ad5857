use mintick_nft::account::is_valid_account_id;

#[test]
fn valid_account_ids_are_accepted() {
    assert!(is_valid_account_id(&"near".to_string()));
    assert!(is_valid_account_id(&"alice.near".to_string()));
    assert!(is_valid_account_id(&"a-b_c.d0".to_string()));
}

#[test]
fn malformed_account_ids_are_rejected() {
    assert!(!is_valid_account_id(&"".to_string()));
    assert!(!is_valid_account_id(&"a".to_string()));
    assert!(!is_valid_account_id(&"Alice".to_string()));
    assert!(!is_valid_account_id(&".near".to_string()));
    assert!(!is_valid_account_id(&"near.".to_string()));
    assert!(!is_valid_account_id(&"a..b".to_string()));
    assert!(!is_valid_account_id(&"a".repeat(65)));
    assert!(is_valid_account_id(&"a".repeat(64)));
}

#[test]
fn account_ids_are_judged_by_their_bytes() {
    // two characters, three bytes, and none of them allowed
    assert!(!is_valid_account_id(&"a\u{f1}".to_string()));
    assert!(!is_valid_account_id(&"a\u{f1}b.near".to_string()));
    assert!(!is_valid_account_id(&"a b".to_string()));
    assert!(!is_valid_account_id(&"a-_b".to_string()));
    assert!(!is_valid_account_id(&"-ab".to_string()));
    assert!(!is_valid_account_id(&"ab_".to_string()));
    assert!(is_valid_account_id(&"0-9".to_string()));
    assert!(is_valid_account_id(&"ab".to_string()));
}
