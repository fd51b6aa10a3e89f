use mintick::contract::{Contract, MAX_PRICE};
use mintick::error::ContractError;
use mintick::types::{Profile, TokenMetadata};

fn admin() -> String {
    "mintick.testnet".to_string()
}

fn fresh() -> Contract {
    let mut c = Contract::new_default_meta("owner.testnet".to_string(), "vault.testnet".to_string());
    c.set_category(&admin(), "Music".to_string(), "m.png".to_string()).unwrap();
    c.set_category(&admin(), "Art".to_string(), "a.png".to_string()).unwrap();
    c
}

fn meta(title: Option<&str>, copies: Option<u64>) -> TokenMetadata {
    TokenMetadata {
        title: title.map(|t| t.to_string()),
        description: Some("The tallest mountain in the charted solar system".to_string()),
        media: Some("ipfs://m".to_string()),
        media_hash: None,
        copies,
        issued_at: None,
        expires_at: None,
        starts_at: None,
        updated_at: None,
        extra: None,
        reference: Some("ref".to_string()),
        reference_hash: None,
    }
}

#[test]
fn nft_series_creates_under_next_id() {
    let mut c = fresh();
    let royalty = vec![("alice.testnet".to_string(), 1000u32)];
    let j = c.nft_series(&admin(), meta(Some("Olympus Mons"), Some(3)), vec![2, 1, 2], Some(100), Some(royalty)).unwrap();
    assert_eq!(j.token_series_id, "1");
    assert_eq!(j.creator_id, "mintick.testnet");
    assert_eq!(j.royalty, vec![("alice.testnet".to_string(), 1000u32)]);
    let s = &c.token_series_by_id.entries[0].1;
    assert!(s.is_mintable);
    assert_eq!(s.price, Some(100));
    assert_eq!(s.category.len(), 2);
    assert_eq!(s.category[0].0, 2);
    assert_eq!(s.category[0].1.name, "Art");
    assert_eq!(s.category[1].0, 1);
    let offer = c.get_market_single(&"1".to_string()).unwrap();
    assert_eq!(offer.price, 100);
    assert_eq!(offer.owner_id, "mintick.testnet");
    assert!(offer.reviews.is_empty());
    let j2 = c.nft_series(&admin(), meta(Some("Second"), None), vec![], None, None).unwrap();
    assert_eq!(j2.token_series_id, "2");
    assert_eq!(c.get_market_single(&"2".to_string()).unwrap_err(), ContractError::NotInMarket);
    assert_eq!(c.get_nft_series_single(&"2".to_string()).unwrap().metadata.title.as_deref(), Some("Second"));
}

#[test]
fn nft_series_errors() {
    let mut c = fresh();
    let t = || meta(Some("T"), None);
    assert_eq!(c.nft_series(&"eve".to_string(), t(), vec![], None, None).unwrap_err(), ContractError::NotAdministrator);
    assert_eq!(c.nft_series(&admin(), meta(None, None), vec![], None, None).unwrap_err(), ContractError::TitleRequired);
    assert_eq!(
        c.nft_series(&admin(), t(), vec![], None, Some(vec![("Bad@Account".to_string(), 1)])).unwrap_err(),
        ContractError::InvalidRoyaltyAccount
    );
    assert_eq!(
        c.nft_series(&admin(), t(), vec![], None, Some(vec![("aa".to_string(), u32::MAX), ("bb".to_string(), 1)])).unwrap_err(),
        ContractError::RoyaltyOverflow
    );
    let many: Vec<(String, u32)> = (0..11).map(|i| (format!("acc{}", i), 1u32)).collect();
    assert_eq!(c.nft_series(&admin(), t(), vec![], None, Some(many)).unwrap_err(), ContractError::TooManyRoyaltyAccounts);
    assert_eq!(
        c.nft_series(&admin(), t(), vec![], None, Some(vec![("aa".to_string(), 9001)])).unwrap_err(),
        ContractError::RoyaltyTooHigh
    );
    assert_eq!(c.nft_series(&admin(), t(), vec![], Some(MAX_PRICE), None).unwrap_err(), ContractError::PriceTooHigh);
    assert_eq!(c.nft_series(&admin(), t(), vec![3], None, None).unwrap_err(), ContractError::CategoryNotFound);
    assert!(c.token_series_by_id.entries.is_empty());
    assert!(c.marketplace.entries.is_empty());
    assert!(c.nft_series(&admin(), t(), vec![], Some(MAX_PRICE - 1), Some(vec![("aa".to_string(), 9000)])).is_ok());
}

#[test]
fn mint_series_numbers_copies_and_closes_the_supply() {
    let mut c = fresh();
    c.nft_series(&admin(), meta(Some("Olympus Mons"), Some(2)), vec![], Some(5), None).unwrap();
    assert_eq!(c.nft_mint_series(&"eve".to_string(), "1".to_string(), "bob.testnet".to_string(), 7).unwrap_err(), ContractError::NotCreator);
    assert_eq!(c.nft_mint_series(&admin(), "9".to_string(), "bob.testnet".to_string(), 7).unwrap_err(), ContractError::SeriesNotFound);
    let t1 = c.nft_mint_series(&admin(), "1".to_string(), "bob.testnet".to_string(), 1617000000).unwrap();
    assert_eq!(t1.token_id, "1:1");
    assert_eq!(t1.owner_id, "bob.testnet");
    assert_eq!(t1.metadata.title.as_deref(), Some("Olympus Mons #1 #1"));
    assert_eq!(t1.metadata.issued_at.as_deref(), Some("1617000000"));
    assert_eq!(t1.metadata.description, meta(None, None).description);
    assert!(c.token_series_by_id.entries[0].1.is_mintable);
    let t2 = c.nft_mint_series(&admin(), "1".to_string(), "bob.testnet".to_string(), 8).unwrap();
    assert_eq!(t2.token_id, "1:2");
    let s = &c.token_series_by_id.entries[0].1;
    assert!(!s.is_mintable);
    assert_eq!(s.price, None);
    assert_eq!(s.tokens, vec!["1:1".to_string(), "1:2".to_string()]);
    assert_eq!(c.nft_mint_series(&admin(), "1".to_string(), "bob.testnet".to_string(), 9).unwrap_err(), ContractError::NotMintable);
}

#[test]
fn zero_copies_is_maxed_at_once() {
    let mut c = fresh();
    c.nft_series(&admin(), meta(Some("T"), Some(0)), vec![], None, None).unwrap();
    assert_eq!(c.nft_mint_series(&admin(), "1".to_string(), "bob".to_string(), 1).unwrap_err(), ContractError::SupplyMaxed);
}

fn profile(sales: u64, complete: bool) -> Profile {
    let f = |s: &str| if complete { Some(s.to_string()) } else { None };
    Profile {
        name: Some("N".to_string()),
        last_name: f("L"),
        pen_name: f("P"),
        bio: f("B"),
        website: f("W"),
        twitter: f("T"),
        avatar: f("A"),
        sales,
    }
}

#[test]
fn buy_series_mints_and_pays() {
    let mut c = fresh();
    c.nft_series(&admin(), meta(Some("T"), Some(10)), vec![], Some(10_000), None).unwrap();
    assert_eq!(c.nft_buy(9_999, "1".to_string(), "bob.testnet".to_string(), 5).unwrap_err(), ContractError::InsufficientDeposit);
    assert_eq!(c.nft_buy(10_000, "1".to_string(), "bob.testnet".to_string(), 5).unwrap_err(), ContractError::ProfileNotFound);
    c.profile.insert(admin(), profile(0, true));
    let o = c.nft_buy(12_000, "1".to_string(), "bob.testnet".to_string(), 5).unwrap();
    assert_eq!(o.token_id, "1:1");
    assert_eq!(o.minted.as_ref().unwrap().owner_id, "bob.testnet");
    assert!(o.transfer_to.is_none());
    assert_eq!(o.payouts, vec![(admin(), 9_500u128), ("vault.testnet".to_string(), 500u128)]);
    assert_eq!(o.deposit_spent, 10_000);
    assert_eq!(c.profile.entries[0].1.sales, 1);
    assert_eq!(c.token_series_by_id.entries[0].1.tokens, vec!["1:1".to_string()]);
}

#[test]
fn buy_errors() {
    let mut c = fresh();
    c.nft_series(&admin(), meta(Some("T"), None), vec![], None, None).unwrap();
    assert_eq!(c.nft_buy(1, "1".to_string(), "bob".to_string(), 5).unwrap_err(), ContractError::NotForSale);
    assert_eq!(c.nft_buy(1, "2".to_string(), "bob".to_string(), 5).unwrap_err(), ContractError::SeriesNotFound);
    assert_eq!(c.nft_buy(1, "1:1".to_string(), "bob".to_string(), 5).unwrap_err(), ContractError::NotInMarket);
    assert_eq!(c.nft_buy(1, "1:1:1".to_string(), "bob".to_string(), 5).unwrap_err(), ContractError::InvalidTokenId);
    c.profile.insert(admin(), profile(u64::MAX, true));
    c.put_nft_series_price(&admin(), 1, "1".to_string(), Some(3), None).unwrap();
    assert_eq!(c.nft_buy(3, "1".to_string(), "bob".to_string(), 5).unwrap_err(), ContractError::ArithmeticOverflow);
}

#[test]
fn resale_lists_and_buys_a_copy() {
    let mut c = fresh();
    c.nft_series(&admin(), meta(Some("T"), None), vec![1], None, None).unwrap();
    c.nft_mint_series(&admin(), "1".to_string(), "bob.testnet".to_string(), 5).unwrap();
    assert_eq!(c.put_nft_series_price(&"bob.testnet".to_string(), 1, "1:1".to_string(), Some(200), None).unwrap_err(), ContractError::TokenNotFound);
    assert_eq!(
        c.put_nft_series_price(&"bob.testnet".to_string(), 1, "1:1".to_string(), Some(200), Some("bob.testnet".to_string())),
        Ok(Some(200))
    );
    let offer = c.get_market_single(&"1:1".to_string()).unwrap();
    assert_eq!(offer.owner_id, "bob.testnet");
    assert_eq!(offer.creator_id, "mintick.testnet");
    assert_eq!(offer.price, 200);
    assert_eq!(offer.category.len(), 1);
    c.profile.insert("bob.testnet".to_string(), profile(4, true));
    let o = c.nft_buy(200, "1:1".to_string(), "carol.testnet".to_string(), 6).unwrap();
    assert_eq!(o.token_id, "1:1");
    assert!(o.minted.is_none());
    assert_eq!(o.transfer_to.as_deref(), Some("carol.testnet"));
    assert_eq!(o.payouts, vec![("bob.testnet".to_string(), 190u128), ("vault.testnet".to_string(), 10u128)]);
    assert_eq!(c.profile.entries[0].1.sales, 5);
}

#[test]
fn put_price_on_series() {
    let mut c = fresh();
    c.nft_series(&admin(), meta(Some("T"), None), vec![], None, None).unwrap();
    assert_eq!(c.put_nft_series_price(&admin(), 2, "1".to_string(), Some(1), None).unwrap_err(), ContractError::NotOneYocto);
    assert_eq!(c.put_nft_series_price(&"eve".to_string(), 1, "1".to_string(), Some(1), None).unwrap_err(), ContractError::NotCreator);
    assert_eq!(c.put_nft_series_price(&admin(), 1, "5".to_string(), Some(1), None).unwrap_err(), ContractError::SeriesNotFound);
    assert_eq!(c.put_nft_series_price(&admin(), 1, "1:2:3".to_string(), Some(1), None).unwrap_err(), ContractError::InvalidTokenId);
    assert_eq!(c.put_nft_series_price(&admin(), 1, "1".to_string(), Some(MAX_PRICE), None).unwrap_err(), ContractError::PriceTooHigh);
    assert_eq!(c.put_nft_series_price(&admin(), 1, "1".to_string(), Some(40), None), Ok(Some(40)));
    assert_eq!(c.token_series_by_id.entries[0].1.price, Some(40));
    assert_eq!(c.get_market_single(&"1".to_string()).unwrap().price, 40);
    assert_eq!(c.put_nft_series_price(&admin(), 1, "1".to_string(), Some(50), None), Ok(Some(50)));
    assert_eq!(c.get_market_single(&"1".to_string()).unwrap().price, 50);
    assert_eq!(c.marketplace.entries.len(), 1);
    assert_eq!(c.put_nft_series_price(&admin(), 1, "1".to_string(), None, None), Ok(None));
    assert_eq!(c.token_series_by_id.entries[0].1.price, None);
    assert_eq!(c.get_market_single(&"1".to_string()).unwrap_err(), ContractError::NotInMarket);
}

#[test]
fn put_price_on_closed_series_is_refused() {
    let mut c = fresh();
    c.nft_series(&admin(), meta(Some("T"), Some(1)), vec![], None, None).unwrap();
    c.nft_mint_series(&admin(), "1".to_string(), "bob".to_string(), 5).unwrap();
    assert_eq!(c.put_nft_series_price(&admin(), 1, "1".to_string(), Some(3), None).unwrap_err(), ContractError::NotMintable);
}
