use mintick::contract::{Contract, NFT_METADATA_SPEC};
use mintick::error::ContractError;
use mintick::types::NFTContractMetadata;

fn admin() -> String {
    "mintick.testnet".to_string()
}

fn fresh() -> Contract {
    Contract::new_default_meta("owner.testnet".to_string(), "vault.testnet".to_string())
}

fn metadata(spec: &str, reference: Option<&str>, hash: Option<Vec<u8>>) -> NFTContractMetadata {
    NFTContractMetadata {
        spec: spec.to_string(),
        name: "Name".to_string(),
        symbol: "SYM".to_string(),
        icon: None,
        base_uri: None,
        reference: reference.map(|s| s.to_string()),
        reference_hash: hash,
    }
}

#[test]
fn new_accepts_valid_metadata() {
    let c = Contract::new("o".to_string(), "v".to_string(), metadata(NFT_METADATA_SPEC, Some("r"), Some(vec![0u8; 32]))).unwrap();
    assert_eq!(c.owner_id, "o");
    assert_eq!(c.vault_id, "v");
    assert_eq!(c.nft_metadata().symbol, "SYM");
    assert!(c.token_series_by_id.entries.is_empty());
}

#[test]
fn new_refuses_wrong_spec() {
    let r = Contract::new("o".to_string(), "v".to_string(), metadata("nft-2.0.0", None, None));
    assert_eq!(r.err(), Some(ContractError::InvalidMetadata));
}

#[test]
fn new_refuses_reference_without_hash() {
    let r = Contract::new("o".to_string(), "v".to_string(), metadata(NFT_METADATA_SPEC, Some("r"), None));
    assert_eq!(r.err(), Some(ContractError::InvalidMetadata));
}

#[test]
fn new_refuses_short_hash() {
    let r = Contract::new("o".to_string(), "v".to_string(), metadata(NFT_METADATA_SPEC, Some("r"), Some(vec![1u8; 31])));
    assert_eq!(r.err(), Some(ContractError::InvalidMetadata));
}

#[test]
fn default_meta_is_mintick() {
    let c = fresh();
    let m = c.nft_metadata();
    assert_eq!(m.spec, "nft-1.0.0");
    assert_eq!(m.name, "MinTick");
    assert_eq!(m.symbol, "MinTick");
    assert!(m.icon.unwrap().starts_with("data:image/svg+xml"));
    assert!(m.base_uri.is_none());
    assert_eq!(c.administrators, vec!["mintick.testnet".to_string(), "min.mintick.testnet".to_string()]);
}

#[test]
fn set_admin_adds_and_refuses_duplicates() {
    let mut c = fresh();
    assert_eq!(c.set_admin(&admin(), "alice.testnet".to_string()), Ok(()));
    assert_eq!(c.administrators.len(), 3);
    assert_eq!(c.administrators[2], "alice.testnet");
    assert_eq!(c.set_admin(&admin(), "alice.testnet".to_string()), Err(ContractError::AlreadyAdministrator));
    assert_eq!(c.set_admin(&"eve.testnet".to_string(), "eve.testnet".to_string()), Err(ContractError::NotAdministrator));
    assert_eq!(c.administrators.len(), 3);
}

#[test]
fn delete_admin_removes_and_reports_missing() {
    let mut c = fresh();
    c.set_admin(&admin(), "alice.testnet".to_string()).unwrap();
    assert_eq!(c.delete_admin(&"alice.testnet".to_string(), "min.mintick.testnet".to_string()), Ok(()));
    assert_eq!(c.administrators, vec!["mintick.testnet".to_string(), "alice.testnet".to_string()]);
    assert_eq!(c.delete_admin(&admin(), "nobody".to_string()), Err(ContractError::NotInAdministrators));
    assert_eq!(c.delete_admin(&"eve".to_string(), "alice.testnet".to_string()), Err(ContractError::NotAdministrator));
}

#[test]
fn admin_add_then_remove_restores_list() {
    let mut c = fresh();
    let before = c.administrators.clone();
    c.set_admin(&admin(), "carol.testnet".to_string()).unwrap();
    c.delete_admin(&admin(), "carol.testnet".to_string()).unwrap();
    assert_eq!(c.administrators, before);
}

#[test]
fn put_category_updates_and_reports_missing() {
    let mut c = fresh();
    c.set_category(&admin(), "Music".to_string(), "m.png".to_string()).unwrap();
    let u = c.put_category(&admin(), 1, "Sound".to_string(), "s.png".to_string()).unwrap();
    assert_eq!((u.id, u.name.as_str(), u.img.as_str()), (1, "Sound", "s.png"));
    let got = c.get_category(Some(1));
    assert_eq!(got[0].name, "Sound");
    assert_eq!(got[0].img, "s.png");
    assert_eq!(c.put_category(&admin(), 2, "x".to_string(), "y".to_string()).unwrap_err(), ContractError::CategoryNotFound);
    assert_eq!(c.put_category(&admin(), 0, "x".to_string(), "y".to_string()).unwrap_err(), ContractError::CategoryNotFound);
    assert_eq!(c.put_category(&"eve".to_string(), 1, "x".to_string(), "y".to_string()).unwrap_err(), ContractError::NotAdministrator);
}

#[test]
fn test_new() {
    // accounts(1) of the NEAR test utilities is "bob"; a fresh ledger knows no owner of token "1".
    let contract = Contract::new_default_meta("bob".to_string(), "bob".to_string());
    assert!(matches!(contract.nft_token("1".to_string(), None, None, None), Ok(None)));
}
