use std::collections::HashMap;

use frac721::{Command, Frac721Contract, ReceiveMsg, Response};

const CW721: &str = "contract0";
const CW20: &str = "contract1";
const FRAC721: &str = "contract2";

const USER: &str = "user";

/// The vault together with stand-ins for the asset registry and the
/// fungible ledger, which carry out the commands that the vault requests.
struct Chain {
    vault: Frac721Contract,
    owners: HashMap<String, String>,
    balances: HashMap<String, u128>,
}

impl Chain {
    fn balance(&self, addr: &str) -> u128 {
        *self.balances.get(addr).unwrap_or(&0)
    }

    fn dispatch(&mut self, resp: &Response) {
        for cmd in &resp.messages {
            match cmd {
                Command::Mint { contract, recipient, amount } => {
                    assert_eq!(contract, CW20);
                    *self.balances.entry(recipient.clone()).or_insert(0) += *amount;
                }
                Command::Burn { contract, amount } => {
                    assert_eq!(contract, CW20);
                    let held = self.balances.entry(FRAC721.to_string()).or_insert(0);
                    assert!(*held >= *amount);
                    *held -= *amount;
                }
                Command::TransferNft { contract, recipient, token_id } => {
                    assert_eq!(contract, CW721);
                    assert_eq!(self.owners.get(token_id).unwrap(), FRAC721);
                    self.owners.insert(token_id.clone(), recipient.clone());
                }
                Command::InstantiateLedger { .. } => panic!("no ledger is created here"),
            }
        }
    }
}

// Initial contract setup
fn setup_contracts() -> Chain {
    let mut vault = Frac721Contract::new();
    vault.instantiate(FRAC721.to_string(), CW721.to_string(), None).unwrap();
    // The ledger reports this contract as its minter.
    vault
        .set_token_address(FRAC721.to_string(), CW20.to_string(), Ok(FRAC721.to_string()))
        .unwrap();
    Chain { vault, owners: HashMap::new(), balances: HashMap::new() }
}

// Mint a CW721 NFT to an address
fn mint_cw721(chain: &mut Chain, addr: &str, token_id: &str) {
    assert!(!chain.owners.contains_key(token_id));
    chain.owners.insert(token_id.to_string(), addr.to_string());
}

// Send a CW721 NFT to the vault, which is then told of the deposit
fn send_cw721(chain: &mut Chain, sender: &str, token_id: &str) {
    assert_eq!(chain.owners.get(token_id).unwrap(), sender);
    chain.owners.insert(token_id.to_string(), FRAC721.to_string());
    let owner = chain.owners.get(token_id).unwrap().clone();
    let resp = chain
        .vault
        .receive_nft(FRAC721.to_string(), sender.to_string(), token_id.to_string(), Ok(owner))
        .unwrap();
    chain.dispatch(&resp);
}

// Send CW20 tokens to the vault, which is then told of the claim
fn send_cw20(chain: &mut Chain, sender: &str, amount: u128, token_id: &str) {
    let held = chain.balances.entry(sender.to_string()).or_insert(0);
    assert!(*held >= amount);
    *held -= amount;
    *chain.balances.entry(FRAC721.to_string()).or_insert(0) += amount;
    let msg = ReceiveMsg { token_id: token_id.to_string() };
    let resp = chain.vault.receive(FRAC721.to_string(), sender.to_string(), amount, Ok(msg)).unwrap();
    chain.dispatch(&resp);
}

#[test]
fn proper_initialization() {
    setup_contracts();
}

#[test]
fn try_query_config() {
    let chain = setup_contracts();
    let res = chain.vault.config().unwrap();
    assert_eq!(res.collection_address, CW721.to_string());
    assert_eq!(res.cw20_address.unwrap(), CW20.to_string());
}

#[test]
fn try_deposit() {
    let mut chain = setup_contracts();
    let token_id = "1";

    // Mint a CW721 NFT to the user
    mint_cw721(&mut chain, USER, token_id);

    // Send the NFT to the Frac721 contract
    send_cw721(&mut chain, USER, token_id);

    // Query the CW20 balance of the user
    assert_eq!(chain.balance(USER), 1000000u128);
}

#[test]
fn try_claim() {
    let mut chain = setup_contracts();
    let token_id = "1";

    // Mint a CW721 NFT to the user
    mint_cw721(&mut chain, USER, token_id);

    // Send the NFT to the Frac721 contract
    send_cw721(&mut chain, USER, token_id);

    assert_eq!(chain.balance(USER), 1000000u128);

    // Send a CW20 token to the contract, with payload {"token_id":"1"}
    send_cw20(&mut chain, USER, 1000000u128, "1");

    assert_eq!(chain.balance(USER), 0u128);

    // Verify that the user now owns the NFT
    assert_eq!(chain.owners.get(token_id).unwrap(), USER);
}
