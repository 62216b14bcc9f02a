use cw20_base::msg::InstantiateMarketingInfo;
use vstd::prelude::*;

verus! {

/// The payload carried by an inbound claim-token transfer.
pub struct ReceiveMsg {
    pub token_id: String,
}

/// The configuration as the `config` query reports it.
pub struct ConfigResponse {
    pub collection_address: String,
    pub cw20_address: Option<String>,
}

/// Marketing metadata for a new fungible ledger, as cw20-base takes it.
/// The library carries it through unread.
#[verifier::external_type_specification]
#[verifier::external_body]
pub struct ExInstantiateMarketingInfo(InstantiateMarketingInfo);

/// How to create a new fungible ledger at contract creation.
pub struct Cw20Config {
    pub code_id: u64,
    pub name: String,
    pub symbol: String,
    pub marketing: Option<InstantiateMarketingInfo>,
}

/// A balance that a new fungible ledger starts with.
pub struct InitialBalance {
    pub address: String,
    pub amount: u128,
}

/// A key/value pair describing what an operation did.
pub struct Attribute {
    pub key: String,
    pub value: String,
}

/// An outbound command for one of the two collaborators. Commands are
/// requested by an operation and carried out after it has completed.
pub enum Command {
    /// Create a fungible ledger from code `code_id`, starting with
    /// `initial_balances`, on which `minter` may mint up to `cap` (no cap
    /// where `None`).
    InstantiateLedger {
        admin: String,
        code_id: u64,
        label: String,
        name: String,
        symbol: String,
        decimals: u8,
        minter: String,
        cap: Option<u128>,
        initial_balances: Vec<InitialBalance>,
        marketing: Option<InstantiateMarketingInfo>,
    },
    /// Mint `amount` on the ledger `contract` to `recipient`.
    Mint { contract: String, recipient: String, amount: u128 },
    /// Burn `amount` held by this contract on the ledger `contract`.
    Burn { contract: String, amount: u128 },
    /// Transfer asset `token_id` on the registry `contract` to `recipient`.
    TransferNft { contract: String, recipient: String, token_id: String },
}

/// What an operation returns: its attributes and the commands it requests.
pub struct Response {
    pub attributes: Vec<Attribute>,
    pub messages: Vec<Command>,
}

/// The attributes as pairs of key and value.
pub open spec fn attr_views(attrs: Seq<Attribute>) -> Seq<(Seq<char>, Seq<char>)> {
    attrs.map_values(|a: Attribute| (a.key@, a.value@))
}

/// `c` mints `amount` on `ledger` to `recipient`.
pub open spec fn is_mint(c: Command, ledger: Seq<char>, recipient: Seq<char>, amount: u128) -> bool {
    match c {
        Command::Mint { contract, recipient: to, amount: a } => contract@ == ledger && to@
            == recipient && a == amount,
        _ => false,
    }
}

/// `c` burns `amount` on `ledger`.
pub open spec fn is_burn(c: Command, ledger: Seq<char>, amount: u128) -> bool {
    match c {
        Command::Burn { contract, amount: a } => contract@ == ledger && a == amount,
        _ => false,
    }
}

/// `c` transfers asset `token_id` on `registry` to `recipient`.
pub open spec fn is_transfer(
    c: Command,
    registry: Seq<char>,
    recipient: Seq<char>,
    token_id: Seq<char>,
) -> bool {
    match c {
        Command::TransferNft { contract, recipient: to, token_id: t } => contract@ == registry
            && to@ == recipient && t@ == token_id,
        _ => false,
    }
}

/// The change of fungible supply that the commands request.
pub open spec fn supply_delta(cmds: Seq<Command>) -> int
    decreases cmds.len(),
{
    if cmds.len() == 0 {
        0
    } else {
        let last = cmds.last();
        supply_delta(cmds.drop_last()) + match last {
            Command::Mint { amount, .. } => amount as int,
            Command::Burn { amount, .. } => -(amount as int),
            _ => 0,
        }
    }
}

/// A new attribute.
pub fn attribute(key: &str, value: String) -> (r: Attribute)
    ensures
        r.key@ == key@,
        r.value == value,
{
    Attribute { key: key.to_owned(), value }
}

} // verus!
