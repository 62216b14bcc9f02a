use cosmwasm_std::Uint128;
use cw20::{Cw20Coin, MinterResponse};
use cw20_base::msg::{InstantiateMarketingInfo, InstantiateMsg};
use vstd::prelude::*;

use crate::contract::decimal;
use crate::msg::{Command, InitialBalance};

verus! {

/// The JSON of cw20's mint message.
pub uninterp spec fn mint_json(recipient: Seq<char>, amount: u128) -> Seq<u8>;

/// The JSON of cw721's transfer message.
pub uninterp spec fn transfer_nft_json(recipient: Seq<char>, token_id: Seq<char>) -> Seq<u8>;

/// The JSON of cw20-base's instantiate message. `initial_balances` holds
/// pairs of address and amount.
pub uninterp spec fn ledger_instantiate_json(
    name: Seq<char>,
    symbol: Seq<char>,
    decimals: u8,
    minter: Seq<char>,
    cap: Option<u128>,
    initial_balances: Seq<(Seq<char>, u128)>,
    marketing: Option<InstantiateMarketingInfo>,
) -> Seq<u8>;

/// The bytes of an ASCII text.
pub open spec fn ascii(s: Seq<char>) -> Seq<u8> {
    s.map_values(|c: char| c as u8)
}

/// The JSON of cw20's burn message: `{"burn":{"amount":"<digits>"}}`.
pub open spec fn burn_json(amount: u128) -> Seq<u8> {
    ascii("{\"burn\":{\"amount\":\""@ + decimal(amount as nat) + "\"}}"@)
}

/// Relies on `serde_json::to_vec` of `cw20::Cw20ExecuteMsg::Mint`: the
/// message's JSON, which depends on the arguments alone. It cannot fail: it
/// fails only through a failing `Serialize` impl or a map with non-string
/// keys, and the message holds strings and a `Uint128` only.
#[verifier::external_body]
fn mint_message(recipient: &String, amount: u128) -> (r: Result<Vec<u8>, String>)
    ensures
        r is Ok,
        r matches Ok(b) ==> b@ == mint_json(recipient@, amount),
{
    let msg = cw20::Cw20ExecuteMsg::Mint { recipient: recipient.clone(), amount: Uint128::new(amount) };
    match serde_json::to_vec(&msg) {
        Ok(b) => Ok(b),
        Err(e) => Err(e.to_string()),
    }
}

/// Relies on `serde_json::to_vec` of `cw20::Cw20ExecuteMsg::Burn`: the
/// variant in snake case holding the amount, which `Uint128` writes as a
/// decimal string. It cannot fail, as for the mint message.
#[verifier::external_body]
fn burn_message(amount: u128) -> (r: Result<Vec<u8>, String>)
    ensures
        r is Ok,
        r matches Ok(b) ==> b@ == burn_json(amount),
{
    let msg = cw20::Cw20ExecuteMsg::Burn { amount: Uint128::new(amount) };
    match serde_json::to_vec(&msg) {
        Ok(b) => Ok(b),
        Err(e) => Err(e.to_string()),
    }
}

/// Relies on `serde_json::to_vec` of `cw721::Cw721ExecuteMsg::TransferNft`:
/// the message's JSON, which depends on the arguments alone. It cannot
/// fail: the message holds strings only.
#[verifier::external_body]
fn transfer_nft_message(recipient: &String, token_id: &String) -> (r: Result<Vec<u8>, String>)
    ensures
        r is Ok,
        r matches Ok(b) ==> b@ == transfer_nft_json(recipient@, token_id@),
{
    let msg = cw721::Cw721ExecuteMsg::TransferNft {
        recipient: recipient.clone(),
        token_id: token_id.clone(),
    };
    match serde_json::to_vec(&msg) {
        Ok(b) => Ok(b),
        Err(e) => Err(e.to_string()),
    }
}

/// Relies on `serde_json::to_vec` of `cw20_base::msg::InstantiateMsg`: the
/// message's JSON, which depends on the arguments alone. It cannot fail:
/// the message holds no map, and its `Binary` logos are written as base64.
#[verifier::external_body]
fn ledger_instantiate_message(
    name: &String,
    symbol: &String,
    decimals: u8,
    minter: &String,
    cap: Option<u128>,
    initial_balances: &Vec<InitialBalance>,
    marketing: &Option<InstantiateMarketingInfo>,
) -> (r: Result<Vec<u8>, String>)
    ensures
        r is Ok,
        r matches Ok(b) ==> b@ == ledger_instantiate_json(
            name@,
            symbol@,
            decimals,
            minter@,
            cap,
            initial_balances@.map_values(|i: InitialBalance| (i.address@, i.amount)),
            *marketing,
        ),
{
    let balances = initial_balances.iter().map(|i| Cw20Coin { address: i.address.clone(), amount: Uint128::new(i.amount) }).collect();
    let mint = Some(MinterResponse { minter: minter.clone(), cap: cap.map(Uint128::new) });
    let msg = InstantiateMsg { name: name.clone(), symbol: symbol.clone(), decimals, initial_balances: balances, mint, marketing: marketing.clone() };
    match serde_json::to_vec(&msg) {
        Ok(b) => Ok(b),
        Err(e) => Err(e.to_string()),
    }
}

/// The JSON message that carries out `cmd` at its collaborator.
pub open spec fn command_json(cmd: Command) -> Seq<u8> {
    match cmd {
        Command::InstantiateLedger { name, symbol, decimals, minter, cap, initial_balances, marketing, .. } =>
            ledger_instantiate_json(
                name@,
                symbol@,
                decimals,
                minter@,
                cap,
                initial_balances@.map_values(|i: InitialBalance| (i.address@, i.amount)),
                marketing,
            ),
        Command::Mint { recipient, amount, .. } => mint_json(recipient@, amount),
        Command::Burn { amount, .. } => burn_json(amount),
        Command::TransferNft { recipient, token_id, .. } => transfer_nft_json(recipient@, token_id@),
    }
}

/// Encodes `cmd` as the JSON message for its collaborator.
pub fn encode(cmd: &Command) -> (r: Vec<u8>)
    ensures
        r@ == command_json(*cmd),
{
    let encoded = match cmd {
        Command::InstantiateLedger { name, symbol, decimals, minter, cap, initial_balances, marketing, .. } =>
            ledger_instantiate_message(name, symbol, *decimals, minter, *cap, initial_balances, marketing),
        Command::Mint { recipient, amount, .. } => mint_message(recipient, *amount),
        Command::Burn { amount, .. } => burn_message(*amount),
        Command::TransferNft { recipient, token_id, .. } => transfer_nft_message(recipient, token_id),
    };
    match encoded {
        Ok(b) => b,
        Err(_) => {
            proof {
                assert(false);
            }
            Vec::new()
        },
    }
}

} // verus!
