use cw20_base::msg::InstantiateMarketingInfo;
use frac721::{
    encode, Command, ContractError, Cw20Config, Frac721Contract, LedgerFault, ReceiveMsg, Response,
    Vault, VaultItem, FIXED_UNIT,
};

const REGISTRY: &str = "registry";
const LEDGER: &str = "ledger";
const ME: &str = "vault";

fn s(v: &str) -> String {
    v.to_string()
}

fn attr(resp: &Response, key: &str) -> Option<String> {
    resp.attributes.iter().find(|a| a.key == key).map(|a| a.value.clone())
}

fn created() -> Frac721Contract {
    let mut c = Frac721Contract::new();
    c.instantiate(s(ME), s(REGISTRY), None).unwrap();
    c
}

fn bound() -> Frac721Contract {
    let mut c = created();
    c.set_token_address(s(ME), s(LEDGER), Ok(s(ME))).unwrap();
    c
}

fn deposit(c: &mut Frac721Contract, who: &str, id: &str) -> Result<Response, ContractError> {
    c.receive_nft(s(ME), s(who), s(id), Ok(s(ME)))
}

fn claim(c: &mut Frac721Contract, who: &str, id: &str, amount: u128) -> Result<Response, ContractError> {
    c.receive(s(ME), s(who), amount, Ok(ReceiveMsg { token_id: s(id) }))
}

#[test]
fn fixed_unit_is_one_whole_token() {
    assert_eq!(FIXED_UNIT, 1000000u128);
}

#[test]
fn bind_after_create_without_ledger_config() {
    let mut c = Frac721Contract::new();
    let resp = c.instantiate(s(ME), s(REGISTRY), None).unwrap();
    assert!(resp.messages.is_empty());
    assert_eq!(attr(&resp, "method"), Some(s("instantiate")));
    assert_eq!(attr(&resp, "did_instantiate_cw20"), Some(s("false")));
    assert_eq!(c.config().unwrap().cw20_address, None);
    let resp = c.set_token_address(s(ME), s(LEDGER), Ok(s(ME))).unwrap();
    assert_eq!(attr(&resp, "method"), Some(s("set_cw20_address")));
    assert_eq!(attr(&resp, "cw20_address"), Some(s(LEDGER)));
    let cfg = c.config().unwrap();
    assert_eq!(cfg.collection_address, s(REGISTRY));
    assert_eq!(cfg.cw20_address, Some(s(LEDGER)));
}

#[test]
fn create_with_ledger_config_requests_ledger() {
    let mut c = Frac721Contract::new();
    let config = Cw20Config {
        code_id: 4207,
        name: s("Fractions"),
        symbol: s("FRC"),
        marketing: Some(InstantiateMarketingInfo {
            project: Some(s("p")),
            description: None,
            marketing: None,
            logo: Some(cw20::Logo::Url(s("u"))),
        }),
    };
    let resp = c.instantiate(s(ME), s(REGISTRY), Some(config)).unwrap();
    assert_eq!(attr(&resp, "cw20_code_id"), Some(s("4207")));
    assert_eq!(attr(&resp, "cw20_name"), Some(s("Fractions")));
    assert_eq!(attr(&resp, "cw20_symbol"), Some(s("FRC")));
    assert_eq!(attr(&resp, "did_instantiate_cw20"), Some(s("true")));
    assert_eq!(resp.messages.len(), 1);
    match &resp.messages[0] {
        Command::InstantiateLedger {
            admin, code_id, label, name, symbol, decimals, minter, cap, initial_balances, marketing,
        } => {
            assert_eq!(admin, ME);
            assert_eq!(*code_id, 4207);
            assert_eq!(label, "Fractions");
            assert_eq!(name, "Fractions");
            assert_eq!(symbol, "FRC");
            assert_eq!(*decimals, 6);
            assert_eq!(minter, ME);
            assert_eq!(*cap, None);
            assert!(initial_balances.is_empty());
            assert_eq!(marketing.as_ref().unwrap().project, Some(s("p")));
        }
        _ => panic!("expected a ledger creation"),
    }
    // The new ledger is still to be bound.
    assert_eq!(c.config().unwrap().cw20_address, None);
}

#[test]
fn code_id_zero_is_written_as_zero() {
    let mut c = Frac721Contract::new();
    let config = Cw20Config { code_id: 0, name: s("n"), symbol: s("S"), marketing: None };
    let resp = c.instantiate(s(ME), s(REGISTRY), Some(config)).unwrap();
    assert_eq!(attr(&resp, "cw20_code_id"), Some(s("0")));
}

#[test]
fn config_before_create_fails() {
    let c = Frac721Contract::new();
    assert_eq!(c.config().err(), Some(ContractError::NotInitialized));
}

#[test]
fn create_twice_fails() {
    let mut c = created();
    assert_eq!(c.instantiate(s(ME), s("other"), None).err(), Some(ContractError::AlreadyInitialized));
    assert_eq!(c.config().unwrap().collection_address, s(REGISTRY));
}

#[test]
fn bind_before_create_fails() {
    let mut c = Frac721Contract::new();
    assert_eq!(
        c.set_token_address(s(ME), s(LEDGER), Ok(s(ME))).err(),
        Some(ContractError::NotInitialized)
    );
}

#[test]
fn bind_twice_fails() {
    let mut c = bound();
    assert_eq!(
        c.set_token_address(s(ME), s("other"), Ok(s(ME))).err(),
        Some(ContractError::Cw20AddressAlreadySet)
    );
    assert_eq!(c.config().unwrap().cw20_address, Some(s(LEDGER)));
}

#[test]
fn bind_with_foreign_minter_fails_and_stays_unbound() {
    let mut c = created();
    assert_eq!(
        c.set_token_address(s(ME), s(LEDGER), Ok(s("someone"))).err(),
        Some(ContractError::InvalidFungibleLedger(LedgerFault::MinterMismatch { minter: s("someone") }))
    );
    assert_eq!(c.config().unwrap().cw20_address, None);
    assert_eq!(deposit(&mut c, "u", "1").err(), Some(ContractError::Cw20AddressNotSet));
}

#[test]
fn bind_with_failed_query_fails() {
    let mut c = created();
    assert_eq!(
        c.set_token_address(s(ME), s(LEDGER), Err(s("no such contract"))).err(),
        Some(ContractError::InvalidFungibleLedger(LedgerFault::QueryFailed(s("no such contract"))))
    );
    assert_eq!(c.config().unwrap().cw20_address, None);
}

#[test]
fn must_set_and_must_not_set() {
    let c = created();
    assert_eq!(c.must_set_cw20_address().err(), Some(ContractError::Cw20AddressNotSet));
    assert_eq!(c.must_not_set_cw20_address(), Ok(()));
    let c = bound();
    assert_eq!(c.must_set_cw20_address(), Ok(s(LEDGER)));
    assert_eq!(c.must_not_set_cw20_address().err(), Some(ContractError::Cw20AddressAlreadySet));
    let c = Frac721Contract::new();
    assert_eq!(c.must_not_set_cw20_address().err(), Some(ContractError::NotInitialized));
}

#[test]
fn deposit_before_bind_fails_then_succeeds() {
    let mut c = created();
    assert_eq!(deposit(&mut c, "u", "1").err(), Some(ContractError::Cw20AddressNotSet));
    c.set_token_address(s(ME), s(LEDGER), Ok(s(ME))).unwrap();
    assert!(deposit(&mut c, "u", "1").is_ok());
}

#[test]
fn deposit_mints_once_to_depositor() {
    let mut c = bound();
    let resp = deposit(&mut c, "U", "42").unwrap();
    assert_eq!(resp.messages.len(), 1);
    match &resp.messages[0] {
        Command::Mint { contract, recipient, amount } => {
            assert_eq!(contract, LEDGER);
            assert_eq!(recipient, "U");
            assert_eq!(*amount, 1000000u128);
        }
        _ => panic!("expected a mint"),
    }
    assert_eq!(attr(&resp, "method"), Some(s("deposit")));
    assert_eq!(attr(&resp, "contract_address"), Some(s(ME)));
    assert_eq!(attr(&resp, "collection_address"), Some(s(REGISTRY)));
    assert_eq!(attr(&resp, "token_id"), Some(s("42")));
    assert_eq!(attr(&resp, "depositor"), Some(s("U")));
    assert_eq!(c.deposits_of(&s("U")), vec![s("42")]);
}

#[test]
fn second_deposit_of_same_asset_fails() {
    let mut c = bound();
    deposit(&mut c, "a", "7").unwrap();
    assert_eq!(deposit(&mut c, "b", "7").err(), Some(ContractError::DuplicateAsset));
    assert_eq!(c.deposits_of(&s("a")), vec![s("7")]);
    assert!(c.deposits_of(&s("b")).is_empty());
}

#[test]
fn deposit_of_asset_not_held_fails() {
    let mut c = bound();
    let r = c.receive_nft(s(ME), s("u"), s("1"), Ok(s("u")));
    assert_eq!(r.err(), Some(ContractError::Cw721NotOwnedByContract));
    assert!(c.deposits_of(&s("u")).is_empty());
}

#[test]
fn deposit_with_failed_owner_query_fails() {
    let mut c = bound();
    let r = c.receive_nft(s(ME), s("u"), s("1"), Err(s("not found")));
    assert_eq!(r.err(), Some(ContractError::Std(s("not found"))));
}

#[test]
fn claim_returns_asset_and_burns() {
    let mut c = bound();
    deposit(&mut c, "d", "1").unwrap();
    let resp = claim(&mut c, "d", "1", 1000000).unwrap();
    assert_eq!(resp.messages.len(), 2);
    match &resp.messages[0] {
        Command::TransferNft { contract, recipient, token_id } => {
            assert_eq!(contract, REGISTRY);
            assert_eq!(recipient, "d");
            assert_eq!(token_id, "1");
        }
        _ => panic!("expected a transfer"),
    }
    match &resp.messages[1] {
        Command::Burn { contract, amount } => {
            assert_eq!(contract, LEDGER);
            assert_eq!(*amount, 1000000u128);
        }
        _ => panic!("expected a burn"),
    }
    assert_eq!(attr(&resp, "method"), Some(s("claim")));
    assert_eq!(attr(&resp, "recipient"), Some(s("d")));
    assert!(c.deposits_of(&s("d")).is_empty());
    // Custody is back where it was: the asset can be deposited again.
    assert!(deposit(&mut c, "d", "1").is_ok());
}

#[test]
fn claim_with_wrong_amount_fails_and_keeps_record() {
    let mut c = bound();
    deposit(&mut c, "d", "1").unwrap();
    assert_eq!(claim(&mut c, "d", "1", 999999).err(), Some(ContractError::IncorrectTokenAmount));
    assert_eq!(claim(&mut c, "d", "1", 1000001).err(), Some(ContractError::IncorrectTokenAmount));
    assert_eq!(claim(&mut c, "d", "1", 0).err(), Some(ContractError::IncorrectTokenAmount));
    assert_eq!(c.deposits_of(&s("d")), vec![s("1")]);
    assert!(claim(&mut c, "d", "1", 1000000).is_ok());
}

#[test]
fn claim_of_unescrowed_asset_fails() {
    let mut c = bound();
    assert_eq!(claim(&mut c, "d", "9", 1000000).err(), Some(ContractError::AssetNotEscrowed));
    deposit(&mut c, "d", "9").unwrap();
    claim(&mut c, "d", "9", 1000000).unwrap();
    assert_eq!(claim(&mut c, "d", "9", 1000000).err(), Some(ContractError::AssetNotEscrowed));
}

#[test]
fn claim_before_bind_fails() {
    let mut c = created();
    assert_eq!(claim(&mut c, "d", "1", 1000000).err(), Some(ContractError::Cw20AddressNotSet));
}

#[test]
fn claim_with_bad_payload_fails() {
    let mut c = bound();
    deposit(&mut c, "d", "1").unwrap();
    let r = c.receive(s(ME), s("d"), 1000000, Err(s("bad payload")));
    assert_eq!(r.err(), Some(ContractError::Std(s("bad payload"))));
    assert_eq!(c.deposits_of(&s("d")), vec![s("1")]);
}

#[test]
fn round_trip_nets_to_zero() {
    let mut c = bound();
    let d = deposit(&mut c, "D", "1").unwrap();
    let r = claim(&mut c, "D", "1", 1000000).unwrap();
    let mut supply: i128 = 0;
    for cmd in d.messages.iter().chain(r.messages.iter()) {
        match cmd {
            Command::Mint { amount, .. } => supply += *amount as i128,
            Command::Burn { amount, .. } => supply -= *amount as i128,
            _ => {}
        }
    }
    assert_eq!(supply, 0);
    assert!(c.deposits_of(&s("D")).is_empty());
}

#[test]
fn vault_ledger_index_follows_records() {
    let mut v = Vault::new();
    assert_eq!(v.len(), 0);
    v.put(s("1"), s("a")).unwrap();
    v.put(s("2"), s("b")).unwrap();
    v.put(s("3"), s("a")).unwrap();
    assert_eq!(v.put(s("2"), s("a")), Err(ContractError::DuplicateAsset));
    assert_eq!(v.len(), 3);
    assert_eq!(v.by_depositor(&s("a")), vec![s("1"), s("3")]);
    let it = v.take(&s("1")).unwrap();
    assert_eq!(it.token_id, s("1"));
    assert_eq!(it.depositor, s("a"));
    assert!(!v.contains(&s("1")));
    assert!(v.contains(&s("3")));
    assert_eq!(v.by_depositor(&s("a")), vec![s("3")]);
    assert_eq!(v.by_depositor(&s("b")), vec![s("2")]);
    assert_eq!(v.take(&s("1")).err(), Some(ContractError::AssetNotEscrowed));
    assert_eq!(v.len(), 2);
}

#[test]
fn encode_mint_burn_and_transfer() {
    let mut c = bound();
    let d = deposit(&mut c, "U", "42").unwrap();
    let bytes = encode(&d.messages[0]);
    assert_eq!(String::from_utf8(bytes).unwrap(), r#"{"mint":{"recipient":"U","amount":"1000000"}}"#);
    let r = claim(&mut c, "d", "42", 1000000).unwrap();
    let bytes = encode(&r.messages[0]);
    assert_eq!(String::from_utf8(bytes).unwrap(), r#"{"transfer_nft":{"recipient":"d","token_id":"42"}}"#);
    let bytes = encode(&r.messages[1]);
    assert_eq!(String::from_utf8(bytes).unwrap(), r#"{"burn":{"amount":"1000000"}}"#);
}

#[test]
fn encode_ledger_creation() {
    let mut c = Frac721Contract::new();
    let config = Cw20Config { code_id: 3, name: s("Frac"), symbol: s("FRC"), marketing: None };
    let resp = c.instantiate(s(ME), s(REGISTRY), Some(config)).unwrap();
    let bytes = encode(&resp.messages[0]);
    let json: serde_json::Value = serde_json::from_slice(&bytes).unwrap();
    assert_eq!(json["name"], "Frac");
    assert_eq!(json["symbol"], "FRC");
    assert_eq!(json["decimals"], 6);
    assert_eq!(json["initial_balances"], serde_json::Value::Array(vec![]));
    assert_eq!(json["mint"]["minter"], ME);
    assert!(json["mint"]["cap"].is_null());
}

#[test]
fn saved_state_restores() {
    let mut c = bound();
    deposit(&mut c, "a", "1").unwrap();
    deposit(&mut c, "b", "2").unwrap();
    let (collection, cw20, items) = c.to_parts();
    assert_eq!(collection, Some(s(REGISTRY)));
    assert_eq!(cw20, Some(s(LEDGER)));
    assert_eq!(items.len(), 2);
    let mut r = Frac721Contract::from_parts(collection, cw20, items).unwrap();
    assert_eq!(r.deposits_of(&s("a")), vec![s("1")]);
    assert_eq!(deposit(&mut r, "c", "2").err(), Some(ContractError::DuplicateAsset));
    assert!(claim(&mut r, "b", "2", 1000000).is_ok());
}

#[test]
fn restore_refuses_bad_state() {
    let dup = vec![
        VaultItem { token_id: s("1"), depositor: s("a") },
        VaultItem { token_id: s("1"), depositor: s("b") },
    ];
    assert_eq!(
        Frac721Contract::from_parts(Some(s(REGISTRY)), None, dup).err(),
        Some(ContractError::DuplicateAsset)
    );
    assert_eq!(
        Frac721Contract::from_parts(None, Some(s(LEDGER)), vec![]).err(),
        Some(ContractError::NotInitialized)
    );
}

#[test]
fn decimal_text_of_numbers() {
    assert_eq!(frac721::contract::decimal_string(0), "0");
    assert_eq!(frac721::contract::decimal_string(7), "7");
    assert_eq!(frac721::contract::decimal_string(1000000), "1000000");
    assert_eq!(frac721::contract::decimal_string(u64::MAX), "18446744073709551615");
}

#[test]
fn encode_ledger_creation_with_cap_and_balances() {
    let cmd = Command::InstantiateLedger {
        admin: s(ME),
        code_id: 1,
        label: s("L"),
        name: s("Frac"),
        symbol: s("FRC"),
        decimals: 6,
        minter: s(ME),
        cap: Some(10),
        initial_balances: vec![frac721::msg::InitialBalance { address: s("a"), amount: 5 }],
        marketing: None,
    };
    let json: serde_json::Value = serde_json::from_slice(&encode(&cmd)).unwrap();
    assert_eq!(json["mint"]["cap"], "10");
    assert_eq!(json["initial_balances"][0]["address"], "a");
    assert_eq!(json["initial_balances"][0]["amount"], "5");
}

#[test]
fn deposits_of_lists_each_asset_once() {
    let mut c = bound();
    deposit(&mut c, "a", "1").unwrap();
    deposit(&mut c, "a", "2").unwrap();
    deposit(&mut c, "b", "3").unwrap();
    claim(&mut c, "a", "1", 1000000).unwrap();
    deposit(&mut c, "a", "1").unwrap();
    let mut ids = c.deposits_of(&s("a"));
    ids.sort();
    assert_eq!(ids, vec![s("1"), s("2")]);
}
