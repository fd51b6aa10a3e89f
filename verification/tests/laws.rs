use mintick::contract::Contract;
use mintick::error::ContractError;
use mintick::types::{Review, TokenMetadata};

fn admin() -> String {
    "mintick.testnet".to_string()
}

fn meta(title: &str) -> TokenMetadata {
    TokenMetadata {
        title: Some(title.to_string()),
        description: None,
        media: None,
        media_hash: None,
        copies: Some(5),
        issued_at: None,
        expires_at: None,
        starts_at: None,
        updated_at: None,
        extra: None,
        reference: None,
        reference_hash: None,
    }
}

fn shelf() -> Contract {
    let mut c = Contract::new_default_meta("owner.testnet".to_string(), "vault.testnet".to_string());
    c.set_category(&admin(), "Music".to_string(), "m.png".to_string()).unwrap();
    c.set_category(&admin(), "Art".to_string(), "a.png".to_string()).unwrap();
    c
}

fn dump<T: std::fmt::Debug>(x: &T) -> String {
    format!("{:?}", x)
}

#[test]
fn series_ids_count_up_from_one() {
    let mut c = shelf();
    for (i, title) in ["A", "B", "C", "D"].iter().enumerate() {
        let j = c.nft_series(&admin(), meta(title), vec![], None, None).unwrap();
        assert_eq!(j.token_series_id, (i + 1).to_string());
    }
    let keys: Vec<String> = c.token_series_by_id.entries.iter().map(|e| e.0.clone()).collect();
    assert_eq!(keys, vec!["1", "2", "3", "4"]);
    let page = c.get_nft_series(Some(1), Some(2)).unwrap();
    assert_eq!(page.len(), 2);
    assert_eq!(page[0].token_series_id, "2");
    assert_eq!(page[1].token_series_id, "3");
    assert_eq!(dump(&page[1]), dump(&c.get_nft_series_single(&"3".to_string()).unwrap()));
}

#[test]
fn same_price_twice_changes_nothing() {
    let mut c = shelf();
    c.nft_series(&admin(), meta("A"), vec![1], None, None).unwrap();
    assert_eq!(c.put_nft_series_price(&admin(), 1, "1".to_string(), Some(70), None), Ok(Some(70)));
    let series = dump(&c.token_series_by_id.entries);
    let market = dump(&c.marketplace.entries);
    assert_eq!(c.put_nft_series_price(&admin(), 1, "1".to_string(), Some(70), None), Ok(Some(70)));
    assert_eq!(dump(&c.token_series_by_id.entries), series);
    assert_eq!(dump(&c.marketplace.entries), market);
}

#[test]
fn operation_counters_follow_history() {
    let mut c = shelf();
    c.nft_series(&admin(), meta("A"), vec![], None, None).unwrap();
    assert_eq!(c.transaction_add("2".to_string(), "bob".to_string(), 5, 1).unwrap_err(), ContractError::SeriesNotFound);
    assert!(c.transaction.entries.is_empty());
    c.transaction_add("1".to_string(), "bob".to_string(), 0, 1).unwrap();
    c.transaction_add("1".to_string(), "carol".to_string(), 9, 2).unwrap();
    c.transaction_add("1".to_string(), "dave".to_string(), 3, 3).unwrap();
    let t = &c.transaction.entries[0].1;
    assert_eq!(t.token_id, "1");
    assert_eq!(t.operations as usize, t.operation_history.len());
    assert_eq!(t.operations, 3);
    assert_eq!(t.sales, 2);
}

#[test]
fn category_market_is_the_market_narrowed() {
    let mut c = shelf();
    c.nft_series(&admin(), meta("A"), vec![1], Some(10), None).unwrap();
    c.nft_series(&admin(), meta("B"), vec![2], Some(20), None).unwrap();
    c.nft_series(&admin(), meta("C"), vec![2, 1], Some(30), None).unwrap();
    for cat in [1i128, 2, 3] {
        let a = c.get_market_category(cat, None, None).unwrap();
        let b = c.get_market(None, None, None, Some(cat), None, None).unwrap();
        assert_eq!(dump(&a), dump(&b));
    }
    let music: Vec<String> = c.get_market_category(1, None, None).unwrap().iter().map(|x| x.token_series_id.clone()).collect();
    assert_eq!(music, vec!["1", "3"]);
}

#[test]
fn reviews_of_a_copy_are_those_of_its_series() {
    let mut c = shelf();
    c.nft_series(&admin(), meta("A"), vec![], None, None).unwrap();
    c.nft_mint_series(&admin(), "1".to_string(), "bob".to_string(), 1).unwrap();
    c.set_review(&"bob".to_string(), "good".to_string(), 4, "1:1".to_string(), Some("bob".to_string())).unwrap();
    let of_series = dump(&c.nft_review(&"1".to_string()).unwrap());
    assert_eq!(dump(&c.nft_review(&"1:1".to_string()).unwrap()), of_series);
    assert_eq!(dump(&c.nft_review(&"1:99".to_string()).unwrap()), of_series);
    let r: Vec<Review> = c.nft_review(&"1:abc".to_string()).unwrap();
    assert_eq!(r.len(), 1);
}

#[test]
fn series_identity_survives_later_calls() {
    let mut c = shelf();
    let royalty = vec![("alice.testnet".to_string(), 500u32)];
    let created = c.nft_series(&admin(), meta("A"), vec![1], Some(100), Some(royalty)).unwrap();
    let before = dump(&(created.metadata.clone(), created.creator_id.clone(), created.royalty.clone()));
    c.nft_series(&admin(), meta("B"), vec![], None, None).unwrap();
    c.nft_mint_series(&admin(), "1".to_string(), "bob".to_string(), 1).unwrap();
    c.put_nft_series_price(&admin(), 1, "1".to_string(), Some(300), None).unwrap();
    c.set_review(&"bob".to_string(), "ok".to_string(), 3, "1:1".to_string(), Some("bob".to_string())).unwrap();
    c.transaction_add("1".to_string(), "bob".to_string(), 300, 2).unwrap();
    let now = c.get_nft_series_single(&"1".to_string()).unwrap();
    assert_eq!(now.token_series_id, "1");
    assert_eq!(dump(&(now.metadata.clone(), now.creator_id.clone(), now.royalty.clone())), before);
}

#[test]
fn royalty_accounts_keep_their_order() {
    let mut c = shelf();
    let royalty = vec![("alice.testnet".to_string(), 500u32), ("bob.testnet".to_string(), 700u32)];
    let j = c.nft_series(&admin(), meta("A"), vec![], None, Some(royalty)).unwrap();
    assert_eq!(j.royalty, vec![("alice.testnet".to_string(), 500u32), ("bob.testnet".to_string(), 700u32)]);
}
