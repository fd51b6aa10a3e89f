use mintick::contract::Contract;
use mintick::error::ContractError;

fn admin() -> String {
    "mintick.testnet".to_string()
}

#[test]
fn new_contract_has_the_two_administrators() {
    let c = Contract::new_default_meta("owner.testnet".to_string(), "vault.testnet".to_string());
    assert_eq!(c.administrators, vec!["mintick.testnet".to_string(), "min.mintick.testnet".to_string()]);
    assert_eq!(c.metadata.spec, "nft-1.0.0");
    assert_eq!(c.metadata.name, "MinTick");
}

#[test]
fn set_category_assigns_consecutive_ids() {
    let mut c = Contract::new_default_meta("owner.testnet".to_string(), "vault.testnet".to_string());
    let a = c.set_category(&admin(), "Music".to_string(), "m.png".to_string()).unwrap();
    let b = c.set_category(&admin(), "Art".to_string(), "a.png".to_string()).unwrap();
    assert_eq!(a.id, 1);
    assert_eq!(b.id, 2);
    let got = c.get_category(Some(2));
    assert_eq!(got.len(), 1);
    assert_eq!(got[0].name, "Art");
    assert!(c.get_category(Some(3)).is_empty());
    assert_eq!(c.get_category(None).len(), 2);
}

#[test]
fn set_category_refuses_non_admin() {
    let mut c = Contract::new_default_meta("owner.testnet".to_string(), "vault.testnet".to_string());
    let r = c.set_category(&"bob.testnet".to_string(), "Music".to_string(), "m.png".to_string());
    assert_eq!(r.unwrap_err(), ContractError::NotAdministrator);
    assert!(c.categories.is_empty());
}
