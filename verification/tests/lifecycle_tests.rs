use std::collections::BTreeMap;

use cw20_milestone_escrow::asset::{Coin, Cw20CoinVerified};
use cw20_milestone_escrow::contract::{execute, instantiate, query_escrow_details};
use cw20_milestone_escrow::expiration::Env;
use cw20_milestone_escrow::msg::{
    Account, CreateMilestoneMsg, CreateMsg, Cw20ReceiveMsg, DepositCheck, ExecuteMsg,
    InstantiateMsg, MessageInfo, ReceiveMsg, Response,
};
use cw20_milestone_escrow::state::GenericBalance;
use cw20_milestone_escrow::transfer::TransferMsg;

const ESCROW_CONTRACT: &str = "contract1";

/// Balances by asset and holder: a ledger that carries instructions out.
struct Ledger {
    balances: BTreeMap<(String, String), u128>,
}

impl Ledger {
    fn new() -> Self {
        Ledger { balances: BTreeMap::new() }
    }

    fn balance(&self, asset: &str, holder: &str) -> u128 {
        *self.balances.get(&(asset.to_string(), holder.to_string())).unwrap_or(&0)
    }

    fn mint(&mut self, asset: &str, holder: &str, amount: u128) {
        *self.balances.entry((asset.to_string(), holder.to_string())).or_insert(0) += amount;
    }

    fn transfer(&mut self, asset: &str, from: &str, to: &str, amount: u128) {
        let held = self.balance(asset, from);
        assert!(held >= amount);
        self.balances.insert((asset.to_string(), from.to_string()), held - amount);
        self.mint(asset, to, amount);
    }

    /// Carries out what the escrow contract instructs.
    fn carry_out(&mut self, res: &Response) {
        for msg in &res.messages {
            match msg {
                TransferMsg::Bank { to_address, amount } => {
                    for coin in amount {
                        self.transfer(&coin.denom, ESCROW_CONTRACT, to_address, coin.amount);
                    }
                }
                TransferMsg::Cw20 { contract_addr, recipient, amount, msg } => {
                    let text = format!(
                        "{{\"transfer\":{{\"recipient\":\"{}\",\"amount\":\"{}\"}}}}",
                        recipient, amount
                    );
                    assert_eq!(msg, text.as_bytes());
                    self.transfer(contract_addr, ESCROW_CONTRACT, recipient, *amount);
                }
            }
        }
    }
}

fn env() -> Env {
    Env { height: 12_345, time: 1_571_797_419_879_305_533 }
}

fn info(sender: &str, funds: Vec<Coin>) -> MessageInfo {
    MessageInfo { sender: sender.to_string(), funds }
}

#[test]
// receive cw20 tokens and release upon approval
fn test_escrow_lifecycle_cw20() {
    const NATIVE_TOKEN_DENOM: &str = "juno";
    const ARBITER: &str = "arbiter";
    const RECIPIENT: &str = "recipient";
    const CASH: &str = "contract0";

    // set owner balance, and arbiter's tokens
    let mut ledger = Ledger::new();
    ledger.mint(NATIVE_TOKEN_DENOM, "owner", 2000);
    ledger.mint(CASH, ARBITER, 5000);

    // set up escrow contract
    let (mut store, _) = instantiate(env(), info("owner", vec![]), InstantiateMsg {});

    // they are different
    assert_ne!(CASH, ESCROW_CONTRACT);

    // ensure our initial balances
    assert_eq!(ledger.balance(CASH, ARBITER), 5000);
    assert_eq!(ledger.balance(CASH, ESCROW_CONTRACT), 0);

    // send some tokens to create an escrow
    let amount = GenericBalance {
        native: vec![],
        cw20: vec![Cw20CoinVerified { address: CASH.to_string(), amount: 1000 }],
    };
    let id = "demo";
    let milestones = vec![CreateMilestoneMsg {
        escrow_id: id.to_string(),
        title: "milestone_1".to_string(),
        description: "milestone_description_1".to_string(),
        amount: amount.clone(),
        end_height: None,
        end_time: None,
    }];
    let create_msg = ReceiveMsg::Create(CreateMsg {
        id: id.to_string(),
        arbiter: Account::Valid(ARBITER.to_string()),
        recipient: Some(Account::Valid(RECIPIENT.to_string())),
        title: "some_title".to_string(),
        description: "some_description".to_string(),
        cw20_whitelist: Some(vec![Account::Valid(CASH.to_string())]),
        milestones,
    });
    // the token contract moves the tokens and passes the request on
    ledger.transfer(CASH, ARBITER, ESCROW_CONTRACT, amount.cw20[0].amount);
    let send_msg = ExecuteMsg::Receive(Cw20ReceiveMsg {
        sender: Account::Valid(ARBITER.to_string()),
        amount: amount.cw20[0].amount,
        msg: create_msg,
    });
    let res =
        execute(&mut store, env(), info(CASH, vec![]), send_msg, DepositCheck::FirstEntry).unwrap();
    assert_eq!(2, res.attributes.len());

    // ensure balances updated
    assert_eq!(ledger.balance(CASH, ARBITER), 4000);
    assert_eq!(ledger.balance(CASH, ESCROW_CONTRACT), 1000);

    // ensure escrow properly created
    let details = query_escrow_details(&store, id.to_string()).unwrap();
    assert_eq!(id, details.id);
    assert_eq!(ARBITER, details.arbiter);
    assert_eq!(Some(RECIPIENT.to_string()), details.recipient);
    // the balance is what the milestones add up to
    assert_eq!(1, details.cw20_balance.len());
    assert_eq!(CASH, details.cw20_balance[0].address);
    assert_eq!(1000, details.cw20_balance[0].amount);

    println!("{:?}", details);

    // release escrow
    let approve_msg = ExecuteMsg::ApproveMilestone {
        id: id.to_string(),
        milestone_id: String::from("1"),
    };
    let res =
        execute(&mut store, env(), info(ARBITER, vec![]), approve_msg, DepositCheck::FirstEntry)
            .unwrap();
    ledger.carry_out(&res);

    // ensure balances updated
    assert_eq!(ledger.balance(CASH, ARBITER), 4000);
    assert_eq!(ledger.balance(CASH, ESCROW_CONTRACT), 0);
    assert_eq!(ledger.balance(CASH, RECIPIENT), 1000);
}

#[test]
// receive native tokens and release upon approval
fn test_escrow_lifecycle_native() {
    const NATIVE_TOKEN_DENOM: &str = "juno";
    const ARBITER: &str = "arbiter";
    const RECIPIENT: &str = "recipient";

    // set personal balance
    let mut ledger = Ledger::new();
    ledger.mint(NATIVE_TOKEN_DENOM, "owner", 2000);

    // set up escrow contract
    let (mut store, _) = instantiate(env(), info("owner", vec![]), InstantiateMsg {});

    // send some tokens to create an escrow
    let amount = GenericBalance { native: vec![Coin::new(1500, NATIVE_TOKEN_DENOM)], cw20: vec![] };
    let id = "demo";
    let milestones = vec![CreateMilestoneMsg {
        escrow_id: id.to_string(),
        title: "milestone_1".to_string(),
        description: "milestone_description_1".to_string(),
        amount: amount.clone(),
        end_height: None,
        end_time: None,
    }];
    let create_msg = ExecuteMsg::Create(CreateMsg {
        id: id.to_string(),
        arbiter: Account::Valid(ARBITER.to_string()),
        recipient: Some(Account::Valid(RECIPIENT.to_string())),
        title: "some_title".to_string(),
        description: "some_description".to_string(),
        cw20_whitelist: None,
        milestones,
    });
    let funds = vec![Coin::new(amount.native[0].amount, NATIVE_TOKEN_DENOM)];
    ledger.transfer(NATIVE_TOKEN_DENOM, "owner", ESCROW_CONTRACT, 1500);
    let res =
        execute(&mut store, env(), info("owner", funds), create_msg, DepositCheck::FirstEntry)
            .unwrap();
    assert_eq!(2, res.attributes.len());

    // ensure escrow properly created
    let details = query_escrow_details(&store, id.to_string()).unwrap();
    assert_eq!(ARBITER, details.arbiter);
    assert_eq!(Some(RECIPIENT.to_string()), details.recipient);

    // Approve only milestone and release escrow
    let approve_msg = ExecuteMsg::ApproveMilestone {
        id: id.to_string(),
        milestone_id: String::from("1"),
    };
    let res =
        execute(&mut store, env(), info(ARBITER, vec![]), approve_msg, DepositCheck::FirstEntry)
            .unwrap();
    ledger.carry_out(&res);

    // ensure balances updated - release to recipient
    assert_eq!(ledger.balance(NATIVE_TOKEN_DENOM, "owner"), 500);
    assert_eq!(ledger.balance(NATIVE_TOKEN_DENOM, ESCROW_CONTRACT), 0);
    assert_eq!(ledger.balance(NATIVE_TOKEN_DENOM, RECIPIENT), 1500);
}
