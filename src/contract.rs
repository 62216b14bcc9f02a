use vstd::prelude::*;

use crate::error::{ContractError, LedgerFault};
use crate::msg::{attr_views, attribute, is_burn, is_mint, is_transfer, supply_delta, Command, ConfigResponse, Cw20Config, ReceiveMsg, Response};
use crate::storage::{distinct_ids, records_map, Vault, VaultItem};

verus! {

/// The claim-token quantity issued for one escrowed asset: one whole token
/// at six decimal places.
pub const FIXED_UNIT: u128 = 1000000;

/// The precision of a fungible ledger that the contract creates.
pub const LEDGER_DECIMALS: u8 = 6;

/// The contract's state as mathematical values.
pub struct ContractView {
    /// The asset registry; unset until the contract is created.
    pub collection: Option<Seq<char>>,
    /// The fungible ledger; unset until it is bound.
    pub cw20: Option<Seq<char>>,
    /// The custody records, from asset id to depositor.
    pub vault: Map<Seq<char>, Seq<char>>,
}

pub open spec fn opt_view(o: Option<String>) -> Option<Seq<char>> {
    match o {
        Some(s) => Some(s@),
        None => None,
    }
}

/// The decimal digit `d`.
pub open spec fn digit_char(d: nat) -> char {
    if d == 0 { '0' }
    else if d == 1 { '1' }
    else if d == 2 { '2' }
    else if d == 3 { '3' }
    else if d == 4 { '4' }
    else if d == 5 { '5' }
    else if d == 6 { '6' }
    else if d == 7 { '7' }
    else if d == 8 { '8' }
    else { '9' }
}

/// The decimal notation of `n`, most significant digit first.
pub open spec fn decimal(n: nat) -> Seq<char>
    decreases n,
{
    if n < 10 {
        seq![digit_char(n)]
    } else {
        decimal(n / 10).push(digit_char(n % 10))
    }
}

/// The one-character text of the decimal digit `d`.
fn digit_str(d: u64) -> (r: &'static str)
    requires
        d < 10,
    ensures
        r@ == seq![digit_char(d as nat)],
{
    proof {
        reveal_strlit("0");
        reveal_strlit("1");
        reveal_strlit("2");
        reveal_strlit("3");
        reveal_strlit("4");
        reveal_strlit("5");
        reveal_strlit("6");
        reveal_strlit("7");
        reveal_strlit("8");
        reveal_strlit("9");
        assert("0"@ =~= seq!['0']);
        assert("1"@ =~= seq!['1']);
        assert("2"@ =~= seq!['2']);
        assert("3"@ =~= seq!['3']);
        assert("4"@ =~= seq!['4']);
        assert("5"@ =~= seq!['5']);
        assert("6"@ =~= seq!['6']);
        assert("7"@ =~= seq!['7']);
        assert("8"@ =~= seq!['8']);
        assert("9"@ =~= seq!['9']);
    }
    if d == 0 { "0" }
    else if d == 1 { "1" }
    else if d == 2 { "2" }
    else if d == 3 { "3" }
    else if d == 4 { "4" }
    else if d == 5 { "5" }
    else if d == 6 { "6" }
    else if d == 7 { "7" }
    else if d == 8 { "8" }
    else { "9" }
}

/// The decimal notation of `n`.
pub fn decimal_string(n: u64) -> (r: String)
    ensures
        r@ == decimal(n as nat),
    decreases n,
{
    if n < 10 {
        String::from_str(digit_str(n))
    } else {
        let mut s = decimal_string(n / 10);
        s.append(digit_str(n % 10));
        s
    }
}

/// The state after `create` with asset registry `collection`.
pub open spec fn created(s: ContractView, collection: Seq<char>) -> ContractView {
    ContractView { collection: Some(collection), cw20: None, vault: s.vault }
}

/// The state after the fungible ledger `ledger` is bound.
pub open spec fn bound(s: ContractView, ledger: Seq<char>) -> ContractView {
    ContractView { cw20: Some(ledger), ..s }
}

/// The state after asset `token_id` is deposited by `depositor`.
pub open spec fn deposited(s: ContractView, token_id: Seq<char>, depositor: Seq<char>) -> ContractView {
    ContractView { vault: s.vault.insert(token_id, depositor), ..s }
}

/// The state after asset `token_id` is claimed.
pub open spec fn claimed(s: ContractView, token_id: Seq<char>) -> ContractView {
    ContractView { vault: s.vault.remove(token_id), ..s }
}

/// The error that binding a fungible ledger reports, given what the
/// candidate answered to the minter query; `None` where it succeeds.
pub open spec fn bind_error(s: ContractView, contract: Seq<char>, minter: Result<String, String>) -> Option<
    ContractError,
> {
    if s.cw20 is Some {
        Some(ContractError::Cw20AddressAlreadySet)
    } else if s.collection is None {
        Some(ContractError::NotInitialized)
    } else {
        match minter {
            Err(e) => Some(ContractError::InvalidFungibleLedger(LedgerFault::QueryFailed(e))),
            Ok(m) => if m@ != contract {
                Some(ContractError::InvalidFungibleLedger(LedgerFault::MinterMismatch { minter: m }))
            } else {
                None
            },
        }
    }
}

/// The error that a deposit reports, given what the asset registry
/// answered to the owner query; `None` where it succeeds.
pub open spec fn deposit_error(
    s: ContractView,
    contract: Seq<char>,
    token_id: Seq<char>,
    owner: Result<String, String>,
) -> Option<ContractError> {
    if s.cw20 is None {
        Some(ContractError::Cw20AddressNotSet)
    } else {
        match owner {
            Err(e) => Some(ContractError::Std(e)),
            Ok(o) => if o@ != contract {
                Some(ContractError::Cw721NotOwnedByContract)
            } else if s.vault.contains_key(token_id) {
                Some(ContractError::DuplicateAsset)
            } else {
                None
            },
        }
    }
}

/// The error that a claim reports, given how its payload decoded; `None`
/// where it succeeds.
pub open spec fn claim_error(s: ContractView, amount: u128, msg: Result<ReceiveMsg, String>) -> Option<
    ContractError,
> {
    if s.cw20 is None {
        Some(ContractError::Cw20AddressNotSet)
    } else {
        match msg {
            Err(e) => Some(ContractError::Std(e)),
            Ok(m) => if amount != FIXED_UNIT {
                Some(ContractError::IncorrectTokenAmount)
            } else if !s.vault.contains_key(m.token_id@) {
                Some(ContractError::AssetNotEscrowed)
            } else {
                None
            },
        }
    }
}

/// `cmd` creates the fungible ledger that `c` describes: this contract is
/// its admin and its minter without cap, it has six decimals, no initial
/// balances, and the ledger's name as label.
pub open spec fn ledger_creation(cmd: Command, contract: Seq<char>, c: Cw20Config) -> bool {
    match cmd {
        Command::InstantiateLedger {
            admin,
            code_id,
            label,
            name,
            symbol,
            decimals,
            minter,
            cap,
            initial_balances,
            marketing,
        } => admin@ == contract && code_id == c.code_id && label@ == c.name@ && name@ == c.name@
            && symbol@ == c.symbol@ && decimals == LEDGER_DECIMALS && minter@ == contract && cap
            is None && initial_balances@.len() == 0 && marketing == c.marketing,
        _ => false,
    }
}

/// The response of a successful deposit: one mint of the fixed unit to the
/// depositor on the bound ledger.
pub open spec fn deposit_response(
    r: Response,
    s: ContractView,
    contract: Seq<char>,
    sender: Seq<char>,
    token_id: Seq<char>,
) -> bool {
    &&& r.messages@.len() == 1
    &&& is_mint(r.messages@[0], s.cw20->Some_0, sender, FIXED_UNIT)
    &&& attr_views(r.attributes@) == seq![
        ("method"@, "deposit"@),
        ("contract_address"@, contract),
        ("collection_address"@, s.collection->Some_0),
        ("token_id"@, token_id),
        ("depositor"@, sender),
    ]
}

/// The response of a successful claim: the asset goes to the claimant and
/// the fixed unit is burnt, in that order.
pub open spec fn claim_response(
    r: Response,
    s: ContractView,
    contract: Seq<char>,
    sender: Seq<char>,
    token_id: Seq<char>,
) -> bool {
    &&& r.messages@.len() == 2
    &&& is_transfer(r.messages@[0], s.collection->Some_0, sender, token_id)
    &&& is_burn(r.messages@[1], s.cw20->Some_0, FIXED_UNIT)
    &&& attr_views(r.attributes@) == seq![
        ("method"@, "claim"@),
        ("contract_address"@, contract),
        ("collection_address"@, s.collection->Some_0),
        ("token_id"@, token_id),
        ("recipient"@, sender),
    ]
}

/// The fractionalization vault: its configuration and its vault ledger.
pub struct Frac721Contract {
    collection_address: Option<String>,
    cw20_address: Option<String>,
    vault: Vault,
}

impl View for Frac721Contract {
    type V = ContractView;

    closed spec fn view(&self) -> ContractView {
        ContractView {
            collection: opt_view(self.collection_address),
            cw20: opt_view(self.cw20_address),
            vault: self.vault.view(),
        }
    }
}

impl Frac721Contract {
    /// The vault ledger is well formed, and no fungible ledger is bound
    /// before the contract is created.
    pub closed spec fn wf(&self) -> bool {
        &&& self.vault.wf()
        &&& self.cw20_address is Some ==> self.collection_address is Some
    }

    /// The vault ledger.
    pub closed spec fn vault(&self) -> Vault {
        self.vault
    }

    /// The contract before creation: nothing configured, nothing escrowed.
    pub fn new() -> (r: Self)
        ensures
            r.wf(),
            r@ == (ContractView { collection: None, cw20: None, vault: Map::empty() }),
    {
        Frac721Contract { collection_address: None, cw20_address: None, vault: Vault::new() }
    }

    /// The bound fungible ledger, or `Cw20AddressNotSet`.
    pub fn must_set_cw20_address(&self) -> (r: Result<String, ContractError>)
        ensures
            self@.cw20 is None ==> r == Err::<String, ContractError>(ContractError::Cw20AddressNotSet),
            self@.cw20 is Some ==> (r matches Ok(a) && a@ == self@.cw20->Some_0),
    {
        match &self.cw20_address {
            Some(a) => Ok(a.clone()),
            None => Err(ContractError::Cw20AddressNotSet),
        }
    }

    /// Succeeds only while no fungible ledger is bound to a created contract.
    pub fn must_not_set_cw20_address(&self) -> (r: Result<(), ContractError>)
        ensures
            self@.cw20 is Some ==> r == Err::<(), ContractError>(ContractError::Cw20AddressAlreadySet),
            self@.cw20 is None && self@.collection is None ==> r == Err::<(), ContractError>(
                ContractError::NotInitialized,
            ),
            self@.cw20 is None && self@.collection is Some ==> r is Ok,
    {
        if self.cw20_address.is_some() {
            return Err(ContractError::Cw20AddressAlreadySet);
        }
        if self.collection_address.is_none() {
            return Err(ContractError::NotInitialized);
        }
        Ok(())
    }

    /// A contract holding saved state: its asset registry, its fungible
    /// ledger and its custody records. Refuses a ledger without a registry
    /// and two records of one asset.
    pub fn from_parts(
        collection_address: Option<String>,
        cw20_address: Option<String>,
        items: Vec<VaultItem>,
    ) -> (r: Result<Self, ContractError>)
        ensures
            cw20_address is Some && collection_address is None ==> r == Err::<Self, ContractError>(
                ContractError::NotInitialized,
            ),
            !(cw20_address is Some && collection_address is None) && !distinct_ids(items@) ==> r
                == Err::<Self, ContractError>(ContractError::DuplicateAsset),
            !(cw20_address is Some && collection_address is None) && distinct_ids(items@) ==> (r matches Ok(
                c,
            ) && c.wf() && c@ == (ContractView {
                collection: opt_view(collection_address),
                cw20: opt_view(cw20_address),
                vault: records_map(items@),
            })),
    {
        if cw20_address.is_some() && collection_address.is_none() {
            return Err(ContractError::NotInitialized);
        }
        let vault = match Vault::from_items(items) {
            Ok(v) => v,
            Err(e) => return Err(e),
        };
        Ok(Frac721Contract { collection_address, cw20_address, vault })
    }

    /// The state to save: the asset registry, the fungible ledger and the
    /// custody records.
    pub fn to_parts(&self) -> (r: (Option<String>, Option<String>, Vec<VaultItem>))
        requires
            self.wf(),
        ensures
            opt_view(r.0) == self@.collection,
            opt_view(r.1) == self@.cw20,
            r.1 is Some ==> r.0 is Some,
            distinct_ids(r.2@),
            records_map(r.2@) == self@.vault,
    {
        let collection = match &self.collection_address {
            Some(c) => Some(c.clone()),
            None => None,
        };
        let cw20 = match &self.cw20_address {
            Some(a) => Some(a.clone()),
            None => None,
        };
        (collection, cw20, self.vault.to_items())
    }

    /// Deposit: records custody of `token_id` for `sender` and requests the
    /// mint of the fixed unit to `sender`. `owner` is what the asset
    /// registry reported as the asset's owner.
    pub fn receive_nft(
        &mut self,
        contract_address: String,
        sender: String,
        token_id: String,
        owner: Result<String, String>,
    ) -> (r: Result<Response, ContractError>)
        requires
            old(self).wf(),
        ensures
            final(self).wf(),
            match deposit_error(old(self)@, contract_address@, token_id@, owner) {
                Some(e) => r == Err::<Response, ContractError>(e) && final(self)@ == old(self)@,
                None => r matches Ok(resp) && final(self)@ == deposited(old(self)@, token_id@, sender@)
                    && deposit_response(resp, old(self)@, contract_address@, sender@, token_id@),
            },
    {
        let cw20_address = match self.must_set_cw20_address() {
            Ok(a) => a,
            Err(e) => return Err(e),
        };
        let collection_address = match &self.collection_address {
            Some(c) => c.clone(),
            None => return Err(ContractError::NotInitialized),
        };
        let reported = match owner {
            Ok(o) => o,
            Err(e) => return Err(ContractError::Std(e)),
        };
        if reported != contract_address {
            return Err(ContractError::Cw721NotOwnedByContract);
        }
        match self.vault.put(token_id.clone(), sender.clone()) {
            Ok(()) => {},
            Err(e) => return Err(e),
        }
        let mint = Command::Mint { contract: cw20_address, recipient: sender.clone(), amount: FIXED_UNIT };
        let attributes = vec![
            attribute("method", "deposit".to_owned()),
            attribute("contract_address", contract_address),
            attribute("collection_address", collection_address),
            attribute("token_id", token_id),
            attribute("depositor", sender),
        ];
        let resp = Response { attributes, messages: vec![mint] };
        proof {
            assert(attr_views(resp.attributes@) =~= seq![
                ("method"@, "deposit"@),
                ("contract_address"@, contract_address@),
                ("collection_address"@, old(self)@.collection->Some_0),
                ("token_id"@, token_id@),
                ("depositor"@, sender@),
            ]);
            assert(self@ =~= deposited(old(self)@, token_id@, sender@));
        }
        Ok(resp)
    }

    /// Claim: `sender` presented `amount` claim-tokens with payload `msg`.
    /// Releases the asset to `sender` and requests the burn of the fixed
    /// unit.
    pub fn receive(
        &mut self,
        contract_address: String,
        sender: String,
        amount: u128,
        msg: Result<ReceiveMsg, String>,
    ) -> (r: Result<Response, ContractError>)
        requires
            old(self).wf(),
        ensures
            final(self).wf(),
            match claim_error(old(self)@, amount, msg) {
                Some(e) => r == Err::<Response, ContractError>(e) && final(self)@ == old(self)@,
                None => r matches Ok(resp) && final(self)@ == claimed(old(self)@, msg->Ok_0.token_id@)
                    && claim_response(resp, old(self)@, contract_address@, sender@, msg->Ok_0.token_id@),
            },
    {
        let cw20_address = match self.must_set_cw20_address() {
            Ok(a) => a,
            Err(e) => return Err(e),
        };
        let collection_address = match &self.collection_address {
            Some(c) => c.clone(),
            None => return Err(ContractError::NotInitialized),
        };
        let unwrapped = match msg {
            Ok(m) => m,
            Err(e) => return Err(ContractError::Std(e)),
        };
        if amount != FIXED_UNIT {
            return Err(ContractError::IncorrectTokenAmount);
        }
        match self.vault.take(&unwrapped.token_id) {
            Ok(_item) => {},
            Err(e) => return Err(e),
        }
        let token_id = unwrapped.token_id;
        let transfer = Command::TransferNft {
            contract: collection_address.clone(),
            recipient: sender.clone(),
            token_id: token_id.clone(),
        };
        let burn = Command::Burn { contract: cw20_address, amount: FIXED_UNIT };
        let attributes = vec![
            attribute("method", "claim".to_owned()),
            attribute("contract_address", contract_address),
            attribute("collection_address", collection_address),
            attribute("token_id", token_id),
            attribute("recipient", sender),
        ];
        let resp = Response { attributes, messages: vec![transfer, burn] };
        proof {
            assert(attr_views(resp.attributes@) =~= seq![
                ("method"@, "claim"@),
                ("contract_address"@, contract_address@),
                ("collection_address"@, old(self)@.collection->Some_0),
                ("token_id"@, token_id@),
                ("recipient"@, sender@),
            ]);
            assert(self@ =~= claimed(old(self)@, token_id@));
        }
        Ok(resp)
    }

    /// Create: binds the asset registry `collection_address`. With a
    /// `cw20_config` it also requests the creation of a fungible ledger that
    /// this contract may mint on without cap; that ledger is bound later.
    pub fn instantiate(
        &mut self,
        contract_address: String,
        collection_address: String,
        cw20_config: Option<Cw20Config>,
    ) -> (r: Result<Response, ContractError>)
        requires
            old(self).wf(),
        ensures
            final(self).wf(),
            old(self)@.collection is Some ==> r == Err::<Response, ContractError>(
                ContractError::AlreadyInitialized,
            ) && final(self)@ == old(self)@,
            old(self)@.collection is None ==> (r matches Ok(resp) && final(self)@ == created(
                old(self)@,
                collection_address@,
            ) && match cw20_config {
                None => resp.messages@.len() == 0 && attr_views(resp.attributes@) == seq![
                    ("method"@, "instantiate"@),
                    ("contract_address"@, contract_address@),
                    ("collection_address"@, collection_address@),
                    ("did_instantiate_cw20"@, "false"@),
                ],
                Some(c) => resp.messages@.len() == 1 && ledger_creation(
                    resp.messages@[0],
                    contract_address@,
                    c,
                ) && attr_views(resp.attributes@) == seq![
                    ("method"@, "instantiate"@),
                    ("contract_address"@, contract_address@),
                    ("collection_address"@, collection_address@),
                    ("cw20_name"@, c.name@),
                    ("cw20_symbol"@, c.symbol@),
                    ("cw20_code_id"@, decimal(c.code_id as nat)),
                    ("did_instantiate_cw20"@, "true"@),
                ],
            }),
    {
        if self.collection_address.is_some() {
            return Err(ContractError::AlreadyInitialized);
        }
        self.collection_address = Some(collection_address.clone());
        self.cw20_address = None;
        let mut attributes = vec![
            attribute("method", "instantiate".to_owned()),
            attribute("contract_address", contract_address.clone()),
            attribute("collection_address", collection_address.clone()),
        ];
        let mut messages: Vec<Command> = Vec::new();
        let ghost cfg = cw20_config;
        match cw20_config {
            Some(config) => {
                let code_id = decimal_string(config.code_id);
                attributes.push(attribute("cw20_name", config.name.clone()));
                attributes.push(attribute("cw20_symbol", config.symbol.clone()));
                attributes.push(attribute("cw20_code_id", code_id));
                attributes.push(attribute("did_instantiate_cw20", "true".to_owned()));
                messages.push(
                    Command::InstantiateLedger {
                        admin: contract_address.clone(),
                        code_id: config.code_id,
                        label: config.name.clone(),
                        name: config.name,
                        symbol: config.symbol,
                        decimals: LEDGER_DECIMALS,
                        minter: contract_address,
                        cap: None,
                        initial_balances: Vec::new(),
                        marketing: config.marketing,
                    },
                );
            },
            None => {
                attributes.push(attribute("did_instantiate_cw20", "false".to_owned()));
            },
        }
        let resp = Response { attributes, messages };
        proof {
            match cfg {
                Some(c) => {
                    assert(attr_views(resp.attributes@) =~= seq![
                        ("method"@, "instantiate"@),
                        ("contract_address"@, contract_address@),
                        ("collection_address"@, collection_address@),
                        ("cw20_name"@, c.name@),
                        ("cw20_symbol"@, c.symbol@),
                        ("cw20_code_id"@, decimal(c.code_id as nat)),
                        ("did_instantiate_cw20"@, "true"@),
                    ]);
                },
                None => {
                    assert(attr_views(resp.attributes@) =~= seq![
                        ("method"@, "instantiate"@),
                        ("contract_address"@, contract_address@),
                        ("collection_address"@, collection_address@),
                        ("did_instantiate_cw20"@, "false"@),
                    ]);
                },
            }
            assert(self@ =~= created(old(self)@, collection_address@));
        }
        Ok(resp)
    }

    /// Binds the fungible ledger `cw20_address`. `minter` is what the
    /// candidate reported as its minting authority; it must be this
    /// contract.
    pub fn set_token_address(
        &mut self,
        contract_address: String,
        cw20_address: String,
        minter: Result<String, String>,
    ) -> (r: Result<Response, ContractError>)
        requires
            old(self).wf(),
        ensures
            final(self).wf(),
            match bind_error(old(self)@, contract_address@, minter) {
                Some(e) => r == Err::<Response, ContractError>(e) && final(self)@ == old(self)@,
                None => r matches Ok(resp) && final(self)@ == bound(old(self)@, cw20_address@)
                    && resp.messages@.len() == 0 && attr_views(resp.attributes@) == seq![
                    ("method"@, "set_cw20_address"@),
                    ("contract_address"@, contract_address@),
                    ("cw20_address"@, cw20_address@),
                ],
            },
    {
        match self.must_not_set_cw20_address() {
            Ok(()) => {},
            Err(e) => return Err(e),
        }
        let reported = match minter {
            Ok(m) => m,
            Err(e) => return Err(ContractError::InvalidFungibleLedger(LedgerFault::QueryFailed(e))),
        };
        if reported != contract_address {
            return Err(ContractError::InvalidFungibleLedger(LedgerFault::MinterMismatch { minter: reported }));
        }
        self.cw20_address = Some(cw20_address.clone());
        let attributes = vec![
            attribute("method", "set_cw20_address".to_owned()),
            attribute("contract_address", contract_address),
            attribute("cw20_address", cw20_address),
        ];
        let resp = Response { attributes, messages: Vec::new() };
        proof {
            assert(attr_views(resp.attributes@) =~= seq![
                ("method"@, "set_cw20_address"@),
                ("contract_address"@, contract_address@),
                ("cw20_address"@, cw20_address@),
            ]);
            assert(self@ =~= bound(old(self)@, cw20_address@));
        }
        Ok(resp)
    }

    /// The configuration: the asset registry and the fungible ledger, if
    /// bound.
    pub fn config(&self) -> (r: Result<ConfigResponse, ContractError>)
        ensures
            self@.collection is None ==> r == Err::<ConfigResponse, ContractError>(ContractError::NotInitialized),
            self@.collection is Some ==> (r matches Ok(c) && c.collection_address@ == self@.collection->Some_0
                && opt_view(c.cw20_address) == self@.cw20),
    {
        let collection_address = match &self.collection_address {
            Some(c) => c.clone(),
            None => return Err(ContractError::NotInitialized),
        };
        let cw20_address = match &self.cw20_address {
            Some(a) => Some(a.clone()),
            None => None,
        };
        Ok(ConfigResponse { collection_address, cw20_address })
    }

    /// The asset ids currently escrowed for `depositor`.
    pub fn deposits_of(&self, depositor: &String) -> (r: Vec<String>)
        requires
            self.wf(),
        ensures
            forall|a: int|
                0 <= a < r@.len() ==> self@.vault.contains_key(#[trigger] r@[a]@) && self@.vault[r@[a]@]
                    == depositor@,
            forall|k: Seq<char>|
                #[trigger] self@.vault.contains_key(k) && self@.vault[k] == depositor@ ==> exists|a: int|
                    0 <= a < r@.len() && r@[a]@ == k,
            forall|a: int, b: int|
                0 <= a < r@.len() && 0 <= b < r@.len() && a != b ==> #[trigger] r@[a]@ != #[trigger] r@[b]@,
    {
        self.vault.by_depositor(depositor)
    }
}

/// At most one custody record exists for any asset id: two stored records
/// with the same asset id are the same record.
pub proof fn lemma_one_record_per_asset(c: &Frac721Contract, a: Seq<char>, i: int, j: int)
    requires
        c.wf(),
        0 <= i < c.vault().records().len(),
        0 <= j < c.vault().records().len(),
        c.vault().records()[i].0 == a,
        c.vault().records()[j].0 == a,
    ensures
        i == j,
{
    c.vault().lemma_single_record(a, i, j);
}

/// After a deposit, a claim of exactly the fixed unit succeeds and removes
/// the record; a claim of any other amount fails with
/// `IncorrectTokenAmount` (and `receive` then leaves the state unchanged).
pub proof fn lemma_claim_after_deposit(
    s: ContractView,
    contract: Seq<char>,
    token_id: String,
    depositor: Seq<char>,
    owner: String,
    amount: u128,
)
    requires
        deposit_error(s, contract, token_id@, Ok(owner)) is None,
    ensures
        amount == FIXED_UNIT ==> claim_error(
            deposited(s, token_id@, depositor),
            amount,
            Ok(ReceiveMsg { token_id }),
        ) is None && !claimed(deposited(s, token_id@, depositor), token_id@).vault.contains_key(
            token_id@,
        ),
        amount != FIXED_UNIT ==> claim_error(
            deposited(s, token_id@, depositor),
            amount,
            Ok(ReceiveMsg { token_id }),
        ) == Some(ContractError::IncorrectTokenAmount),
{
}

/// A claim of the fixed unit on an asset id with no custody record fails
/// with `AssetNotEscrowed`.
pub proof fn lemma_claim_needs_record(s: ContractView, amount: u128, msg: ReceiveMsg)
    requires
        s.cw20 is Some,
        !s.vault.contains_key(msg.token_id@),
        amount == FIXED_UNIT,
    ensures
        claim_error(s, amount, Ok(msg)) == Some(ContractError::AssetNotEscrowed),
{
}

/// A deposit before a fungible ledger is bound fails with
/// `Cw20AddressNotSet`; once a ledger that reports this contract as its
/// minter is bound, a deposit of an asset that the contract holds and has
/// not escrowed succeeds.
pub proof fn lemma_deposit_needs_ledger(
    s: ContractView,
    contract: Seq<char>,
    token_id: Seq<char>,
    owner: Result<String, String>,
    ledger: Seq<char>,
    minter: String,
)
    requires
        s.cw20 is None,
    ensures
        deposit_error(s, contract, token_id, owner) == Some(ContractError::Cw20AddressNotSet),
        s.collection is Some && minter@ == contract && owner is Ok && owner->Ok_0@ == contract
            && !s.vault.contains_key(token_id) ==> bind_error(s, contract, Ok(minter)) is None
            && deposit_error(bound(s, ledger), contract, token_id, owner) is None,
{
}

/// A candidate ledger whose minting authority is not this contract is
/// refused (and `set_token_address` then leaves the configuration as it
/// was).
pub proof fn lemma_foreign_minter_refused(s: ContractView, contract: Seq<char>, minter: String)
    requires
        minter@ != contract,
    ensures
        bind_error(s, contract, Ok(minter)) is Some,
{
}

/// A deposit followed by a claim of the same asset by its depositor
/// restores the custody state, and the fixed unit minted to the depositor
/// equals the amount presented and burnt, so the claim-token supply nets to
/// zero.
pub proof fn lemma_round_trip(
    s: ContractView,
    contract: Seq<char>,
    token_id: String,
    depositor: Seq<char>,
    owner: String,
    dr: Response,
    cr: Response,
)
    requires
        deposit_error(s, contract, token_id@, Ok(owner)) is None,
        deposit_response(dr, s, contract, depositor, token_id@),
        claim_response(cr, deposited(s, token_id@, depositor), contract, depositor, token_id@),
    ensures
        claim_error(deposited(s, token_id@, depositor), FIXED_UNIT, Ok(ReceiveMsg { token_id }))
            is None,
        claimed(deposited(s, token_id@, depositor), token_id@) == s,
        is_mint(dr.messages@[0], s.cw20->Some_0, depositor, FIXED_UNIT),
        is_burn(cr.messages@[1], s.cw20->Some_0, FIXED_UNIT),
        supply_delta(dr.messages@) == FIXED_UNIT,
        supply_delta(dr.messages@) + supply_delta(cr.messages@) == 0,
{
    assert(s.vault.insert(token_id@, depositor).remove(token_id@) =~= s.vault);
    let d = dr.messages@;
    let c = cr.messages@;
    assert(d.drop_last().len() == 0);
    assert(supply_delta(d.drop_last()) == 0);
    assert(c.drop_last().drop_last().len() == 0);
    assert(supply_delta(c.drop_last().drop_last()) == 0);
    assert(c.drop_last()[0] == c[0]);
    assert(supply_delta(c.drop_last()) == 0);
}

} // verus!
