use mintick::catalog::check_paging;
use mintick::contract::Contract;
use mintick::error::ContractError;
use mintick::payment::refund_deposit;
use mintick::types::{Profile, TokenMetadata};

fn admin() -> String {
    "mintick.testnet".to_string()
}

fn meta(title: &str) -> TokenMetadata {
    TokenMetadata {
        title: Some(title.to_string()),
        description: None,
        media: Some("series-media".to_string()),
        media_hash: None,
        copies: Some(100),
        issued_at: None,
        expires_at: None,
        starts_at: None,
        updated_at: None,
        extra: None,
        reference: Some("series-ref".to_string()),
        reference_hash: None,
    }
}

fn profile(sales: u64, complete: bool) -> Profile {
    let f = |s: &str| if complete { Some(s.to_string()) } else { None };
    Profile {
        name: Some("N".to_string()),
        last_name: f("L"),
        pen_name: f("P"),
        bio: f("B"),
        website: f("W"),
        twitter: f("T"),
        avatar: f("A"),
        sales,
    }
}

/// Three series: "1" (Music, priced 10), "2" (Art, priced 20), "3" (Music, unpriced);
/// copy "1:1" owned by bob and listed at 30.
fn market() -> Contract {
    let mut c = Contract::new_default_meta("owner.testnet".to_string(), "vault.testnet".to_string());
    c.set_category(&admin(), "Music".to_string(), "m.png".to_string()).unwrap();
    c.set_category(&admin(), "Art".to_string(), "a.png".to_string()).unwrap();
    c.set_admin(&admin(), "alice.testnet".to_string()).unwrap();
    c.nft_series(&admin(), meta("One"), vec![1], Some(10), None).unwrap();
    c.nft_series(&"alice.testnet".to_string(), meta("Two"), vec![2], Some(20), None).unwrap();
    c.nft_series(&admin(), meta("Three"), vec![1], None, None).unwrap();
    c.nft_mint_series(&admin(), "1".to_string(), "bob.testnet".to_string(), 1).unwrap();
    c.put_nft_series_price(&"bob.testnet".to_string(), 1, "1:1".to_string(), Some(30), Some("bob.testnet".to_string())).unwrap();
    c
}

fn ids(v: &[mintick::types::MarketView]) -> Vec<String> {
    v.iter().map(|x| x.token_series_id.clone()).collect()
}

#[test]
fn get_market_pages_and_filters() {
    let c = market();
    assert_eq!(ids(&c.get_market(None, None, None, None, None, None).unwrap()), vec!["1", "2", "1:1"]);
    assert_eq!(ids(&c.get_market(None, None, None, None, Some(1), Some(1)).unwrap()), vec!["2"]);
    assert_eq!(ids(&c.get_market(None, Some("bob.testnet".to_string()), None, None, None, None).unwrap()), vec!["1:1"]);
    assert_eq!(ids(&c.get_market(None, None, Some("mintick.testnet".to_string()), None, None, None).unwrap()), vec!["1", "1:1"]);
    assert_eq!(ids(&c.get_market(None, None, None, Some(1), None, None).unwrap()), vec!["1", "1:1"]);
    assert_eq!(ids(&c.get_market(Some("2".to_string()), None, None, None, None, None).unwrap()), vec!["2"]);
    // Each narrowing takes the page from the start index again.
    assert_eq!(ids(&c.get_market(None, None, None, Some(1), Some(1), None).unwrap()), Vec::<String>::new());
    assert_eq!(c.get_market(None, None, None, None, Some(3), None).unwrap_err(), ContractError::OutOfBounds);
    assert_eq!(c.get_market(None, None, None, None, None, Some(0)).unwrap_err(), ContractError::ZeroLimit);
}

#[test]
fn get_market_category_pages_after_filtering() {
    let c = market();
    assert_eq!(ids(&c.get_market_category(1, None, None).unwrap()), vec!["1", "1:1"]);
    assert_eq!(ids(&c.get_market_category(1, Some(1), None).unwrap()), vec!["1:1"]);
    assert_eq!(ids(&c.get_market_category(2, None, Some(5)).unwrap()), vec!["2"]);
    assert_eq!(c.get_market_category(2, Some(9), None).unwrap_err(), ContractError::OutOfBounds);
}

#[test]
fn reviews_by_owners() {
    let mut c = market();
    assert_eq!(c.set_review(&"bob.testnet".to_string(), "nice".to_string(), 5, "1:1".to_string(), None).unwrap_err(), ContractError::TokenNotFound);
    assert_eq!(
        c.set_review(&"eve".to_string(), "bad".to_string(), 1, "1:1".to_string(), Some("bob.testnet".to_string())).unwrap_err(),
        ContractError::NotTokenOwner
    );
    assert_eq!(c.set_review(&"bob.testnet".to_string(), "x".to_string(), 1, "1".to_string(), None).unwrap_err(), ContractError::InvalidTokenId);
    assert_eq!(
        c.set_review(&"bob.testnet".to_string(), "x".to_string(), 1, "7:1".to_string(), Some("bob.testnet".to_string())).unwrap_err(),
        ContractError::SeriesNotFound
    );
    let r = c.set_review(&"bob.testnet".to_string(), "nice".to_string(), 5, "1:1".to_string(), Some("bob.testnet".to_string())).unwrap();
    assert_eq!((r.user_id.as_str(), r.review.as_str(), r.critics), ("bob.testnet", "nice", 5));
    c.set_review(&"bob.testnet".to_string(), "nice".to_string(), 5, "1:1".to_string(), Some("bob.testnet".to_string())).unwrap();
    let rs = c.nft_review(&"1".to_string()).unwrap();
    assert_eq!(rs.len(), 1);
    assert_eq!(c.nft_review(&"1:4".to_string()).unwrap().len(), 1);
    assert_eq!(c.nft_review(&"1:4:4".to_string()).unwrap_err(), ContractError::InvalidTokenId);
    assert_eq!(c.nft_review(&"9".to_string()).unwrap_err(), ContractError::SeriesNotFound);
    assert_eq!(c.get_market_single(&"1:1".to_string()).unwrap().reviews.len(), 1);
    assert_eq!(c.get_market_single(&"2".to_string()).unwrap().reviews.len(), 0);
}

#[test]
fn series_views() {
    let c = market();
    let all = c.get_nft_series(None, None).unwrap();
    assert_eq!(all.iter().map(|s| s.token_series_id.clone()).collect::<Vec<_>>(), vec!["1", "2", "3"]);
    assert_eq!(c.get_nft_series(Some(2), Some(5)).unwrap()[0].token_series_id, "3");
    assert_eq!(c.get_nft_series(Some(3), None).unwrap_err(), ContractError::OutOfBounds);
    let mine = c.get_nft_series_creator("mintick.testnet".to_string(), None, None).unwrap();
    assert_eq!(mine.iter().map(|s| s.token_series_id.clone()).collect::<Vec<_>>(), vec!["1", "3"]);
    let music = c.get_nft_series_category("anyone".to_string(), 1, Some(1), None).unwrap();
    assert_eq!(music.iter().map(|s| s.token_series_id.clone()).collect::<Vec<_>>(), vec!["3"]);
    assert_eq!(c.get_nft_series_single(&"4".to_string()).unwrap_err(), ContractError::SeriesNotFound);
    assert_eq!(c.get_nft_series_copy(&"1".to_string(), None, None).unwrap(), vec!["1:1".to_string()]);
    assert_eq!(c.get_nft_series_copy(&"3".to_string(), None, None).unwrap_err(), ContractError::OutOfBounds);
    assert_eq!(c.get_nft_series_copy(&"1".to_string(), None, Some(0)).unwrap_err(), ContractError::ZeroLimit);
    assert_eq!(c.get_nft_series_copy(&"8".to_string(), None, None).unwrap_err(), ContractError::SeriesNotFound);
}

#[test]
fn token_view_uses_series_data() {
    let c = market();
    assert!(matches!(c.nft_token("1:1".to_string(), None, None, None), Ok(None)));
    let md = TokenMetadata {
        title: Some("old".to_string()),
        description: Some("d".to_string()),
        media: None,
        media_hash: None,
        copies: None,
        issued_at: Some("1".to_string()),
        expires_at: None,
        starts_at: None,
        updated_at: None,
        extra: None,
        reference: None,
        reference_hash: None,
    };
    let t = c.nft_token("1:1".to_string(), Some("bob.testnet".to_string()), None, Some(md.clone())).unwrap().unwrap();
    assert_eq!(t.token_id, "1:1");
    assert_eq!(t.owner_id, "bob.testnet");
    let m = t.metadata.unwrap();
    assert_eq!(m.title.as_deref(), Some("One #1"));
    assert_eq!(m.media.as_deref(), Some("series-media"));
    assert_eq!(m.reference.as_deref(), Some("series-ref"));
    assert_eq!(m.copies, Some(100));
    assert_eq!(m.description.as_deref(), Some("d"));
    assert_eq!(t.approved_account_ids, Some(vec![]));
    let t2 = c.nft_token("1:1".to_string(), Some("bob".to_string()), Some(vec![("carol".to_string(), 3)]), Some(md.clone())).unwrap().unwrap();
    assert_eq!(t2.approved_account_ids, Some(vec![("carol".to_string(), 3u64)]));
    assert_eq!(c.nft_token("1:1".to_string(), Some("bob".to_string()), None, None).unwrap_err(), ContractError::TokenMetadataMissing);
    // A token that is no copy of a stored series is shown as the ledger holds it.
    let t3 = c.nft_token("9:1".to_string(), Some("bob".to_string()), None, Some(md.clone())).unwrap().unwrap();
    assert_eq!(format!("{:?}", t3.metadata), format!("{:?}", Some(md.clone())));
    let t4 = c.nft_token("1".to_string(), Some("bob".to_string()), None, Some(md.clone())).unwrap().unwrap();
    assert_eq!(t4.token_id, "1");
    assert_eq!(format!("{:?}", t4.metadata), format!("{:?}", Some(md)));
    let t5 = c.nft_token("x".to_string(), Some("bob".to_string()), None, None).unwrap().unwrap();
    assert!(t5.metadata.is_none());
}

#[test]
fn sellers_and_authors() {
    let mut c = market();
    assert!(c.get_author_market().is_empty());
    assert!(c.get_Best_sellers().unwrap().is_empty());
    c.profile.insert("bob.testnet".to_string(), profile(2, true));
    c.profile.insert("alice.testnet".to_string(), profile(0, false));
    c.profile.insert("mintick.testnet".to_string(), profile(0, true));
    assert_eq!(c.get_author_market(), vec!["alice.testnet".to_string(), "mintick.testnet".to_string()]);
    let best = c.get_Best_sellers().unwrap();
    assert_eq!(best.len(), 1);
    assert_eq!(best[0].user_id, "bob.testnet");
    assert_eq!(best[0].sales, 2);
    assert_eq!(best[0].avatar, "A");
    c.profile.insert("dan".to_string(), profile(1, false));
    assert_eq!(c.get_Best_sellers().unwrap_err(), ContractError::ProfileIncomplete);
}

#[test]
fn transactions_count_operations_and_sales() {
    let mut c = market();
    assert_eq!(c.transaction_add("9".to_string(), "bob".to_string(), 0, 1), Err(ContractError::SeriesNotFound));
    assert_eq!(c.transaction_add("1".to_string(), "bob".to_string(), 0, 11), Ok(true));
    assert_eq!(c.transaction_add("1".to_string(), "carol".to_string(), 50, 12), Ok(true));
    let t = &c.transaction.entries[0].1;
    assert_eq!((t.operations, t.sales, t.operation_history.len()), (2, 1, 2));
    assert_eq!(t.operation_history[1].owner_id, "carol");
    assert_eq!(t.operation_history[1].price, 50);
    assert_eq!(t.operation_history[1].date, 12);
}

#[test]
fn refunds() {
    assert_eq!(refund_deposit(10, 0, 100, 5_000), Ok(Some(4_000)));
    assert_eq!(refund_deposit(10, 3_999, 100, 5_000), Ok(None));
    assert_eq!(refund_deposit(10, 3_998, 100, 5_000), Ok(Some(2)));
    assert_eq!(refund_deposit(10, 4_000, 100, 5_000), Ok(None));
    assert_eq!(refund_deposit(10, 3_997, 100, 5_000), Ok(Some(3)));
    assert_eq!(refund_deposit(10, 4_001, 100, 5_000), Err(ContractError::StorageNotCovered));
    assert_eq!(refund_deposit(10, 6_000, 100, 5_000), Err(ContractError::ArithmeticOverflow));
    assert_eq!(refund_deposit(u64::MAX, 0, u128::MAX, 5_000), Err(ContractError::ArithmeticOverflow));
}

#[test]
fn paging_checks() {
    assert_eq!(check_paging(3, None, None), Ok((0, u64::MAX)));
    assert_eq!(check_paging(3, Some(2), Some(1)), Ok((2, 1)));
    assert_eq!(check_paging(3, Some(3), None), Err(ContractError::OutOfBounds));
    assert_eq!(check_paging(0, None, None), Err(ContractError::OutOfBounds));
    assert_eq!(check_paging(3, None, Some(0)), Err(ContractError::ZeroLimit));
}
