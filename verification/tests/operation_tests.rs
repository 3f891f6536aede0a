use cw20_milestone_escrow::asset::{Balance, Coin, Cw20CoinVerified};
use cw20_milestone_escrow::contract::{
    execute, execute_approve, execute_create, execute_create_milestone, execute_receive,
    instantiate, query, query_escrow_details, query_list, query_list_milestones,
    query_milestone_details,
};
use cw20_milestone_escrow::expiration::Env;
use cw20_milestone_escrow::msg::{
    Account, Attribute, CreateMilestoneMsg, CreateMsg, Cw20ReceiveMsg, DepositCheck, ExecuteMsg,
    InstantiateMsg, MessageInfo, QueryMsg, QueryResponse, ReceiveMsg,
};
use cw20_milestone_escrow::registry::Registry;
use cw20_milestone_escrow::state::GenericBalance;
use cw20_milestone_escrow::transfer::TransferMsg;
use cw20_milestone_escrow::ContractError;

const ARBITER: &str = "arbiter";
const RECIPIENT: &str = "recipient";
const SOURCE: &str = "source";
const OTHER: &str = "someone";
const NANOS: u64 = 1_000_000_000;

fn env_at(height: u64, seconds: u64) -> Env {
    Env { height, time: seconds * NANOS }
}

fn now() -> Env {
    env_at(100, 1_000)
}

fn info(sender: &str) -> MessageInfo {
    MessageInfo { sender: sender.to_string(), funds: vec![] }
}

fn info_with(sender: &str, funds: Vec<Coin>) -> MessageInfo {
    MessageInfo { sender: sender.to_string(), funds }
}

fn attr(key: &str, value: &str) -> Attribute {
    Attribute { key: key.to_string(), value: value.to_string() }
}

fn native(amount: u128, denom: &str) -> GenericBalance {
    GenericBalance { native: vec![Coin::new(amount, denom)], cw20: vec![] }
}

fn token(amount: u128, contract: &str) -> GenericBalance {
    GenericBalance {
        native: vec![],
        cw20: vec![Cw20CoinVerified { address: contract.to_string(), amount }],
    }
}

fn milestone(id: &str, amount: GenericBalance) -> CreateMilestoneMsg {
    CreateMilestoneMsg {
        escrow_id: id.to_string(),
        title: "title".to_string(),
        description: "description".to_string(),
        amount,
        end_height: None,
        end_time: None,
    }
}

fn milestone_until(
    id: &str,
    amount: GenericBalance,
    end_height: Option<u64>,
    end_time: Option<u64>,
) -> CreateMilestoneMsg {
    CreateMilestoneMsg { end_height, end_time, ..milestone(id, amount) }
}

fn create(id: &str, milestones: Vec<CreateMilestoneMsg>) -> CreateMsg {
    CreateMsg {
        id: id.to_string(),
        arbiter: Account::Valid(ARBITER.to_string()),
        recipient: Some(Account::Valid(RECIPIENT.to_string())),
        title: "escrow".to_string(),
        description: "an escrow".to_string(),
        cw20_whitelist: None,
        milestones,
    }
}

fn new_store() -> Registry {
    instantiate(now(), info(SOURCE), InstantiateMsg {}).0
}

fn run(store: &mut Registry, env: Env, sender: &str, msg: ExecuteMsg) -> Result<
    cw20_milestone_escrow::msg::Response,
    ContractError,
> {
    execute(store, env, info(sender), msg, DepositCheck::FirstEntry)
}

fn approve(id: &str, milestone_id: &str) -> ExecuteMsg {
    ExecuteMsg::ApproveMilestone { id: id.to_string(), milestone_id: milestone_id.to_string() }
}

fn two_milestones(store: &mut Registry) {
    let msg = create(
        "escrow_1",
        vec![
            milestone("escrow_1", native(100, "tokens")),
            milestone("escrow_1", native(100, "tokens")),
        ],
    );
    let funds = vec![Coin::new(200, "tokens")];
    let create = ExecuteMsg::Create(msg);
    execute(store, now(), info_with(SOURCE, funds), create, DepositCheck::FirstEntry).unwrap();
}

#[test]
fn one_milestone_is_released_once() {
    let mut store = new_store();
    let msg = create("escrow_1", vec![milestone("escrow_1", native(100, "tokens"))]);
    let funds = vec![Coin::new(100, "tokens")];
    execute(
        &mut store,
        now(),
        info_with(SOURCE, funds),
        ExecuteMsg::Create(msg),
        DepositCheck::FirstEntry,
    )
    .unwrap();

    let res = run(&mut store, now(), ARBITER, approve("escrow_1", "1")).unwrap();
    assert_eq!(
        res.messages,
        vec![TransferMsg::Bank {
            to_address: RECIPIENT.to_string(),
            amount: vec![Coin::new(100, "tokens")],
        }]
    );
    assert!(!store.contains("escrow_1"));

    let again = run(&mut store, now(), ARBITER, approve("escrow_1", "1"));
    assert_eq!(again, Err(ContractError::NotFound));
}

#[test]
fn two_milestones_are_released_in_turn() {
    let mut store = new_store();
    two_milestones(&mut store);
    let details = query_escrow_details(&store, "escrow_1".to_string()).unwrap();
    assert_eq!(details.native_balance, vec![Coin::new(200, "tokens")]);

    let res = run(&mut store, now(), ARBITER, approve("escrow_1", "1")).unwrap();
    assert_eq!(
        res.messages,
        vec![TransferMsg::Bank {
            to_address: RECIPIENT.to_string(),
            amount: vec![Coin::new(100, "tokens")],
        }]
    );
    assert_eq!(
        res.attributes,
        vec![attr("action", "approve_milestone"), attr("id", "escrow_1"), attr("milestone_id", "1")]
    );
    let details = query_escrow_details(&store, "escrow_1".to_string()).unwrap();
    assert_eq!(details.native_balance, vec![Coin::new(100, "tokens")]);
    assert!(details.milestones[0].is_completed);
    assert!(!details.milestones[1].is_completed);

    let res = run(&mut store, now(), ARBITER, approve("escrow_1", "2")).unwrap();
    assert_eq!(
        res.messages,
        vec![TransferMsg::Bank {
            to_address: RECIPIENT.to_string(),
            amount: vec![Coin::new(100, "tokens")],
        }]
    );
    assert_eq!(
        res.attributes,
        vec![
            attr("action", "approve_milestone"),
            attr("id", "escrow_1"),
            attr("is_escrow_complete", "true"),
        ]
    );
    assert!(!store.contains("escrow_1"));
}

#[test]
fn no_milestones_no_escrow() {
    let mut store = new_store();
    let res = run(&mut store, now(), SOURCE, ExecuteMsg::Create(create("escrow_1", vec![])));
    assert_eq!(res, Err(ContractError::EmptyMilestones));
    assert_eq!(store.len(), 0);
    assert_eq!(query_list(&store).escrows, Vec::<String>::new());
}

#[test]
fn only_the_arbiter_sets_a_valid_recipient() {
    let mut store = new_store();
    two_milestones(&mut store);
    let set = |recipient: Account| ExecuteMsg::SetRecipient {
        id: "escrow_1".to_string(),
        recipient,
    };
    let res = run(&mut store, now(), OTHER, set(Account::Valid("new".to_string())));
    assert_eq!(res, Err(ContractError::Unauthorized));
    let res = run(&mut store, now(), OTHER, set(Account::Invalid));
    assert_eq!(res, Err(ContractError::Unauthorized));
    let res = run(&mut store, now(), ARBITER, set(Account::Invalid));
    assert_eq!(res, Err(ContractError::InvalidAddress));
    let details = query_escrow_details(&store, "escrow_1".to_string()).unwrap();
    assert_eq!(details.recipient, Some(RECIPIENT.to_string()));

    let res = run(&mut store, now(), ARBITER, set(Account::Valid("new".to_string()))).unwrap();
    assert_eq!(
        res.attributes,
        vec![attr("action", "set_recipient"), attr("id", "escrow_1"), attr("recipient", "new")]
    );
    let res = run(&mut store, now(), ARBITER, set(Account::Valid("x".to_string())));
    assert!(res.is_ok());
    let res = run(&mut store, now(), ARBITER, ExecuteMsg::SetRecipient {
        id: "nothing".to_string(),
        recipient: Account::Valid("new".to_string()),
    });
    assert_eq!(res, Err(ContractError::NotFound));
}

#[test]
fn expired_milestone_cannot_be_extended() {
    let mut store = new_store();
    let msg = create(
        "escrow_1",
        vec![
            milestone_until("escrow_1", native(100, "tokens"), Some(150), None),
            milestone_until("escrow_1", native(50, "tokens"), None, Some(2_000)),
        ],
    );
    execute(
        &mut store,
        now(),
        info_with(SOURCE, vec![Coin::new(150, "tokens")]),
        ExecuteMsg::Create(msg),
        DepositCheck::FirstEntry,
    )
    .unwrap();
    let extend = |milestone_id: &str, end_height: Option<u64>, end_time: Option<u64>| {
        ExecuteMsg::ExtendMilestone {
            id: "escrow_1".to_string(),
            milestone_id: milestone_id.to_string(),
            end_height,
            end_time,
        }
    };
    // at height 150 the first milestone is not expired yet, at 151 it is
    let res = run(&mut store, env_at(151, 1_000), ARBITER, extend("1", Some(1_000_000), None));
    assert_eq!(res, Err(ContractError::MilestoneExpired));
    let res = run(&mut store, env_at(151, 1_000), ARBITER, extend("1", Some(10), None));
    assert_eq!(res, Err(ContractError::MilestoneExpired));
    let details = query_escrow_details(&store, "escrow_1".to_string()).unwrap();
    assert_eq!(details.milestones[0].end_height, Some(150));
    assert_eq!(details.end_height, Some(150));

    let res = run(&mut store, env_at(150, 1_000), ARBITER, extend("1", Some(300), None)).unwrap();
    assert_eq!(
        res.attributes,
        vec![attr("action", "extend_milestone"), attr("id", "escrow_1"), attr("milestone_id", "1")]
    );
    let details = query_escrow_details(&store, "escrow_1".to_string()).unwrap();
    assert_eq!(details.milestones[0].end_height, Some(300));
    assert_eq!(details.milestones[0].end_time, None);
    assert_eq!(details.end_height, Some(300));
    assert_eq!(details.end_time, Some(2_000));

    // the second milestone expires one nanosecond after its time
    let late = Env { height: 100, time: 2_000 * NANOS + 1 };
    let res = run(&mut store, late, ARBITER, extend("2", None, Some(9_000)));
    assert_eq!(res, Err(ContractError::MilestoneExpired));
    let on_time = Env { height: 100, time: 2_000 * NANOS };
    assert!(run(&mut store, on_time, ARBITER, extend("2", None, Some(9_000))).is_ok());

    let res = run(&mut store, now(), OTHER, extend("1", Some(400), None));
    assert_eq!(res, Err(ContractError::Unauthorized));
    let res = run(&mut store, now(), ARBITER, extend("3", Some(400), None));
    assert_eq!(res, Err(ContractError::MilestoneNotFound));
    let res = run(&mut store, now(), ARBITER, ExecuteMsg::ExtendMilestone {
        id: "nothing".to_string(),
        milestone_id: "1".to_string(),
        end_height: None,
        end_time: None,
    });
    assert_eq!(res, Err(ContractError::NotFound));
}

#[test]
fn a_deadline_may_be_shortened() {
    let mut store = new_store();
    let msg = create(
        "escrow_1",
        vec![milestone_until("escrow_1", native(100, "tokens"), Some(500), Some(5_000))],
    );
    execute(
        &mut store,
        now(),
        info_with(SOURCE, vec![Coin::new(100, "tokens")]),
        ExecuteMsg::Create(msg),
        DepositCheck::FirstEntry,
    )
    .unwrap();
    let res = run(&mut store, now(), ARBITER, ExecuteMsg::ExtendMilestone {
        id: "escrow_1".to_string(),
        milestone_id: "1".to_string(),
        end_height: Some(200),
        end_time: None,
    });
    assert!(res.is_ok());
    let details = query_escrow_details(&store, "escrow_1".to_string()).unwrap();
    assert_eq!(details.milestones[0].end_height, Some(200));
    assert_eq!(details.milestones[0].end_time, Some(5_000));
    assert_eq!(details.end_height, Some(200));
    assert_eq!(details.end_time, Some(5_000));
}

#[test]
fn a_completed_milestone_is_not_approved_again() {
    let mut store = new_store();
    two_milestones(&mut store);
    run(&mut store, now(), ARBITER, approve("escrow_1", "1")).unwrap();
    let before = query_escrow_details(&store, "escrow_1".to_string()).unwrap();
    let again = run(&mut store, now(), ARBITER, approve("escrow_1", "1"));
    assert_eq!(again, Err(ContractError::MilestoneCompleted));
    let after = query_escrow_details(&store, "escrow_1".to_string()).unwrap();
    assert_eq!(before, after);
    assert_eq!(after.native_balance, vec![Coin::new(100, "tokens")]);
}

#[test]
fn approval_is_refused_in_order() {
    let mut store = new_store();
    let mut msg = create(
        "escrow_1",
        vec![
            milestone_until("escrow_1", native(100, "tokens"), Some(150), None),
            milestone_until("escrow_1", native(100, "tokens"), Some(200), None),
        ],
    );
    msg.recipient = None;
    execute(
        &mut store,
        now(),
        info_with(SOURCE, vec![Coin::new(200, "tokens")]),
        ExecuteMsg::Create(msg),
        DepositCheck::FirstEntry,
    )
    .unwrap();
    assert_eq!(
        run(&mut store, now(), ARBITER, approve("nothing", "1")),
        Err(ContractError::NotFound)
    );
    assert_eq!(
        run(&mut store, env_at(500, 0), OTHER, approve("escrow_1", "9")),
        Err(ContractError::Unauthorized)
    );
    assert_eq!(
        run(&mut store, env_at(201, 0), ARBITER, approve("escrow_1", "9")),
        Err(ContractError::Expired)
    );
    assert_eq!(
        run(&mut store, env_at(200, 0), ARBITER, approve("escrow_1", "9")),
        Err(ContractError::MilestoneNotFound)
    );
    assert_eq!(
        run(&mut store, env_at(151, 0), ARBITER, approve("escrow_1", "1")),
        Err(ContractError::MilestoneExpired)
    );
    assert_eq!(
        run(&mut store, env_at(150, 0), ARBITER, approve("escrow_1", "1")),
        Err(ContractError::RecipientNotSet)
    );
    let details = query_escrow_details(&store, "escrow_1".to_string()).unwrap();
    assert!(!details.milestones[0].is_completed);
    assert_eq!(details.native_balance, vec![Coin::new(200, "tokens")]);
}

#[test]
fn refund_gives_the_rest_back() {
    let mut store = new_store();
    two_milestones(&mut store);
    run(&mut store, now(), ARBITER, approve("escrow_1", "1")).unwrap();

    assert_eq!(
        run(&mut store, now(), OTHER, ExecuteMsg::Refund { id: "escrow_1".to_string() }),
        Err(ContractError::Unauthorized)
    );
    assert!(store.contains("escrow_1"));
    let res =
        run(&mut store, now(), ARBITER, ExecuteMsg::Refund { id: "escrow_1".to_string() }).unwrap();
    assert_eq!(
        res.messages,
        vec![TransferMsg::Bank {
            to_address: SOURCE.to_string(),
            amount: vec![Coin::new(100, "tokens")],
        }]
    );
    assert_eq!(
        res.attributes,
        vec![attr("action", "refund"), attr("id", "escrow_1"), attr("to", SOURCE)]
    );
    assert_eq!(
        query_escrow_details(&store, "escrow_1".to_string()),
        Err(ContractError::NotFound)
    );
    assert_eq!(
        run(&mut store, now(), ARBITER, ExecuteMsg::Refund { id: "escrow_1".to_string() }),
        Err(ContractError::NotFound)
    );
}

#[test]
fn anyone_refunds_an_expired_escrow() {
    let mut store = new_store();
    let msg = create(
        "escrow_1",
        vec![milestone_until("escrow_1", native(100, "tokens"), Some(150), None)],
    );
    execute(
        &mut store,
        now(),
        info_with(SOURCE, vec![Coin::new(100, "tokens")]),
        ExecuteMsg::Create(msg),
        DepositCheck::FirstEntry,
    )
    .unwrap();
    let refund = || ExecuteMsg::Refund { id: "escrow_1".to_string() };
    assert_eq!(run(&mut store, env_at(150, 0), OTHER, refund()), Err(ContractError::Unauthorized));
    let res = run(&mut store, env_at(151, 0), OTHER, refund()).unwrap();
    assert_eq!(res.messages.len(), 1);
    assert!(!store.contains("escrow_1"));
}

#[test]
fn an_id_is_free_again_after_deletion() {
    let mut store = new_store();
    two_milestones(&mut store);
    let second = create("escrow_1", vec![milestone("escrow_1", native(5, "tokens"))]);
    let res = execute(
        &mut store,
        now(),
        info_with(OTHER, vec![Coin::new(5, "tokens")]),
        ExecuteMsg::Create(second),
        DepositCheck::FirstEntry,
    );
    assert_eq!(res, Err(ContractError::AlreadyInUse));
    let details = query_escrow_details(&store, "escrow_1".to_string()).unwrap();
    assert_eq!(details.source, SOURCE);

    run(&mut store, now(), ARBITER, ExecuteMsg::Refund { id: "escrow_1".to_string() }).unwrap();
    let second = create("escrow_1", vec![milestone("escrow_1", native(5, "tokens"))]);
    let res = execute(
        &mut store,
        now(),
        info_with(OTHER, vec![Coin::new(5, "tokens")]),
        ExecuteMsg::Create(second),
        DepositCheck::FirstEntry,
    );
    assert!(res.is_ok());
    let details = query_escrow_details(&store, "escrow_1".to_string()).unwrap();
    assert_eq!(details.source, OTHER);
    assert_eq!(details.native_balance, vec![Coin::new(5, "tokens")]);
}

#[test]
fn create_is_refused_in_order() {
    let mut store = new_store();
    let empty = GenericBalance { native: vec![], cw20: vec![] };
    let funds = || vec![Coin::new(100, "tokens")];
    let mut msg = create("escrow_1", vec![milestone("escrow_1", empty)]);
    msg.arbiter = Account::Invalid;
    let res = execute(
        &mut store,
        now(),
        info_with(SOURCE, funds()),
        ExecuteMsg::Create(msg),
        DepositCheck::FirstEntry,
    );
    assert_eq!(res, Err(ContractError::EmptyBalance));

    let mut msg = create("escrow_1", vec![milestone("escrow_1", native(99, "tokens"))]);
    msg.arbiter = Account::Invalid;
    let res = execute(
        &mut store,
        now(),
        info_with(SOURCE, funds()),
        ExecuteMsg::Create(msg),
        DepositCheck::FirstEntry,
    );
    assert_eq!(res, Err(ContractError::FundsMismatch));

    let mut msg = create("escrow_1", vec![milestone("escrow_1", native(100, "tokens"))]);
    msg.arbiter = Account::Invalid;
    let res = execute(
        &mut store,
        now(),
        info_with(SOURCE, funds()),
        ExecuteMsg::Create(msg),
        DepositCheck::FirstEntry,
    );
    assert_eq!(res, Err(ContractError::InvalidAddress));

    let mut msg = create("escrow_1", vec![milestone("escrow_1", native(100, "tokens"))]);
    msg.cw20_whitelist = Some(vec![Account::Valid("cash".to_string()), Account::Invalid]);
    let res = execute(
        &mut store,
        now(),
        info_with(SOURCE, funds()),
        ExecuteMsg::Create(msg),
        DepositCheck::FirstEntry,
    );
    assert_eq!(res, Err(ContractError::InvalidAddress));
    assert_eq!(store.len(), 0);

    // a recipient that the validator rejected counts as none
    let mut msg = create("escrow_1", vec![milestone("escrow_1", native(100, "tokens"))]);
    msg.recipient = Some(Account::Invalid);
    let res = execute(
        &mut store,
        now(),
        info_with(SOURCE, funds()),
        ExecuteMsg::Create(msg),
        DepositCheck::FirstEntry,
    );
    assert!(res.is_ok());
    let details = query_escrow_details(&store, "escrow_1".to_string()).unwrap();
    assert_eq!(details.recipient, None);
}

#[test]
fn deposit_checks_differ() {
    // two denominations, of which only the first is handed over in full
    let milestones = || {
        vec![
            milestone("escrow_1", native(100, "atom")),
            milestone("escrow_1", native(7, "eth")),
            milestone("escrow_1", native(50, "atom")),
        ]
    };
    let short = || vec![Coin::new(150, "atom")];
    let full = || vec![Coin::new(7, "eth"), Coin::new(150, "atom")];

    let mut store = new_store();
    let res = execute(
        &mut store,
        now(),
        info_with(SOURCE, short()),
        ExecuteMsg::Create(create("escrow_1", milestones())),
        DepositCheck::WholeBalance,
    );
    assert_eq!(res, Err(ContractError::FundsMismatch));
    let res = execute(
        &mut store,
        now(),
        info_with(SOURCE, short()),
        ExecuteMsg::Create(create("escrow_1", milestones())),
        DepositCheck::FirstEntry,
    );
    assert!(res.is_ok());

    let mut store = new_store();
    let res = execute(
        &mut store,
        now(),
        info_with(SOURCE, full()),
        ExecuteMsg::Create(create("escrow_1", milestones())),
        DepositCheck::FirstEntry,
    );
    // the first coin handed over is 7 "eth", the first entry of the sum is 150 "atom"
    assert_eq!(res, Err(ContractError::FundsMismatch));
    let res = execute(
        &mut store,
        now(),
        info_with(SOURCE, full()),
        ExecuteMsg::Create(create("escrow_1", milestones())),
        DepositCheck::WholeBalance,
    );
    assert!(res.is_ok());
    let details = query_escrow_details(&store, "escrow_1".to_string()).unwrap();
    assert_eq!(details.native_balance, vec![Coin::new(150, "atom"), Coin::new(7, "eth")]);

    // nothing handed over never matches
    let mut store = new_store();
    for check in [DepositCheck::FirstEntry, DepositCheck::WholeBalance] {
        let res = execute(
            &mut store,
            now(),
            info_with(SOURCE, vec![]),
            ExecuteMsg::Create(create("escrow_1", milestones())),
            check,
        );
        assert_eq!(res, Err(ContractError::FundsMismatch));
    }
    // coins handed over for milestones in tokens never match
    let res = execute(
        &mut store,
        now(),
        info_with(SOURCE, vec![Coin::new(5, "atom")]),
        ExecuteMsg::Create(create("escrow_1", vec![milestone("escrow_1", token(5, "cash"))])),
        DepositCheck::FirstEntry,
    );
    assert_eq!(res, Err(ContractError::FundsMismatch));
}

#[test]
fn tokens_come_through_the_token_contract() {
    let mut store = new_store();
    let mut msg = create(
        "demo",
        vec![milestone("demo", token(1000, "cash")), milestone("demo", token(500, "gold"))],
    );
    msg.cw20_whitelist = Some(vec![
        Account::Valid("cash".to_string()),
        Account::Valid("silver".to_string()),
        Account::Valid("cash".to_string()),
    ]);
    let wrapper = Cw20ReceiveMsg {
        sender: Account::Valid("owner".to_string()),
        amount: 1000,
        msg: ReceiveMsg::Create(msg),
    };
    let received = ExecuteMsg::Receive(wrapper);
    let res =
        execute(&mut store, now(), info("cash"), received, DepositCheck::FirstEntry).unwrap();
    assert_eq!(res.attributes, vec![attr("action", "create"), attr("id", "demo")]);
    let details = query_escrow_details(&store, "demo".to_string()).unwrap();
    assert_eq!(details.source, "cash");
    assert_eq!(details.cw20_balance.len(), 2);
    assert_eq!(details.cw20_balance[0].address, "cash");
    assert_eq!(details.cw20_balance[0].amount, 1000);
    assert_eq!(details.cw20_balance[1].address, "gold");
    assert_eq!(details.cw20_balance[1].amount, 500);
    // listed accounts once each, then the sender of the tokens, then the
    // contracts of the milestones
    assert_eq!(details.cw20_whitelist, vec!["cash", "silver", "owner", "gold"]);

    // a rejected sender of tokens
    let wrapper = Cw20ReceiveMsg {
        sender: Account::Invalid,
        amount: 1000,
        msg: ReceiveMsg::CreateMilestone(milestone("demo", token(1, "cash"))),
    };
    let res = execute_receive(&mut store, info("cash"), wrapper, DepositCheck::FirstEntry);
    assert_eq!(res, Err(ContractError::InvalidAddress));

    // the first approval releases the first milestone's tokens
    let res = run(&mut store, now(), ARBITER, approve("demo", "1")).unwrap();
    assert_eq!(
        res.messages,
        vec![TransferMsg::Cw20 {
            contract_addr: "cash".to_string(),
            recipient: RECIPIENT.to_string(),
            amount: 1000,
            msg: br#"{"transfer":{"recipient":"recipient","amount":"1000"}}"#.to_vec(),
        }]
    );
    let details = query_escrow_details(&store, "demo".to_string()).unwrap();
    assert_eq!(details.cw20_balance.len(), 1);
    assert_eq!(details.cw20_balance[0].address, "gold");
}

#[test]
fn milestones_are_added_by_the_arbiter() {
    let mut store = new_store();
    two_milestones(&mut store);
    let add = |store: &mut Registry, sender: &str, msg: CreateMilestoneMsg, deposit: Balance| {
        execute_create_milestone(store, msg, info(sender), deposit)
    };
    let res = add(
        &mut store,
        OTHER,
        milestone("escrow_1", native(1, "tokens")),
        Balance::Native(vec![]),
    );
    assert_eq!(res, Err(ContractError::Unauthorized));
    let res = add(
        &mut store,
        ARBITER,
        milestone("nothing", native(1, "tokens")),
        Balance::Native(vec![]),
    );
    assert_eq!(res, Err(ContractError::NotFound));
    let res = add(
        &mut store,
        ARBITER,
        milestone("escrow_1", GenericBalance::default()),
        Balance::Native(vec![]),
    );
    assert_eq!(res, Err(ContractError::EmptyBalance));

    let mut amount = native(30, "eth");
    amount.cw20.push(Cw20CoinVerified { address: "gold".to_string(), amount: 4 });
    let msg = milestone_until("escrow_1", amount, Some(900), Some(77));
    let deposit = Balance::Cw20(Cw20CoinVerified { address: "cash".to_string(), amount: 4 });
    let res = add(&mut store, ARBITER, msg, deposit).unwrap();
    assert_eq!(
        res.attributes,
        vec![
            attr("action", "create_milestone"),
            attr("escrow_id", "escrow_1"),
            attr("milestone_id", "3"),
        ]
    );
    let details = query_escrow_details(&store, "escrow_1".to_string()).unwrap();
    assert_eq!(details.milestones.len(), 3);
    assert_eq!(details.milestones[2].id, "3");
    assert!(!details.milestones[2].is_completed);
    assert_eq!(details.native_balance, vec![Coin::new(200, "tokens"), Coin::new(30, "eth")]);
    assert_eq!(details.cw20_balance.len(), 1);
    assert_eq!(details.cw20_balance[0].address, "gold");
    assert_eq!(details.cw20_whitelist, vec!["cash", "gold"]);
    assert_eq!(details.end_height, Some(900));
    assert_eq!(details.end_time, Some(77));

    let list = query_list_milestones(&store, "escrow_1".to_string()).unwrap();
    assert_eq!(list.milestones, vec!["1", "2", "3"]);
    assert_eq!(
        query_list_milestones(&store, "nothing".to_string()),
        Err(ContractError::NotFound)
    );
    let third = query_milestone_details(&store, "escrow_1".to_string(), "3".to_string()).unwrap();
    assert_eq!(third, details.milestones[2]);
    assert_eq!(
        query_milestone_details(&store, "escrow_1".to_string(), "4".to_string()),
        Err(ContractError::MilestoneNotFound)
    );
    assert_eq!(
        query_milestone_details(&store, "nothing".to_string(), "1".to_string()),
        Err(ContractError::NotFound)
    );
}

#[test]
fn milestone_ids_count_past_nine() {
    let mut store = new_store();
    let mut milestones = Vec::new();
    for _ in 0..12 {
        milestones.push(milestone("big", native(1, "tokens")));
    }
    execute_create(
        &mut store,
        create("big", milestones),
        info(SOURCE),
        Balance::Native(vec![Coin::new(12, "tokens")]),
        DepositCheck::WholeBalance,
    )
    .unwrap();
    let list = match query(&store, now(), QueryMsg::ListMilestones { id: "big".to_string() }) {
        Ok(QueryResponse::ListMilestones(list)) => list,
        other => panic!("unexpected answer: {:?}", other),
    };
    assert_eq!(
        list.milestones,
        vec!["1", "2", "3", "4", "5", "6", "7", "8", "9", "10", "11", "12"]
    );
    let res = run(&mut store, now(), ARBITER, approve("big", "10")).unwrap();
    assert_eq!(res.messages.len(), 1);
    let details = query_escrow_details(&store, "big".to_string()).unwrap();
    assert!(details.milestones[9].is_completed);
    assert_eq!(details.native_balance, vec![Coin::new(11, "tokens")]);
}

#[test]
fn full_release_by_itself() {
    let mut store = new_store();
    two_milestones(&mut store);
    let res = execute_approve(&mut store, env_at(100, 0), info(OTHER), "escrow_1".to_string());
    assert_eq!(res, Err(ContractError::Unauthorized));
    let res = execute_approve(&mut store, env_at(100, 0), info(ARBITER), "nothing".to_string());
    assert_eq!(res, Err(ContractError::NotFound));
    let messages =
        execute_approve(&mut store, env_at(100, 0), info(ARBITER), "escrow_1".to_string()).unwrap();
    assert_eq!(
        messages,
        vec![TransferMsg::Bank {
            to_address: RECIPIENT.to_string(),
            amount: vec![Coin::new(200, "tokens")],
        }]
    );
    assert!(!store.contains("escrow_1"));
}

#[test]
fn queries_list_in_order() {
    let mut store = new_store();
    for id in ["lazy", "assign", "zen", "Zen", "assignment"] {
        let msg = create(id, vec![milestone(id, native(1, "tokens"))]);
        execute(
            &mut store,
            now(),
            info_with(SOURCE, vec![Coin::new(1, "tokens")]),
            ExecuteMsg::Create(msg),
            DepositCheck::FirstEntry,
        )
        .unwrap();
    }
    let list = match query(&store, now(), QueryMsg::List {}) {
        Ok(QueryResponse::List(list)) => list,
        other => panic!("unexpected answer: {:?}", other),
    };
    assert_eq!(list.escrows, vec!["Zen", "assign", "assignment", "lazy", "zen"]);
    let one = query(
        &store,
        now(),
        QueryMsg::MilestoneDetails { id: "zen".to_string(), milestone_id: "1".to_string() },
    );
    assert!(matches!(one, Ok(QueryResponse::MilestoneDetails(_))));
    let none = query(&store, now(), QueryMsg::EscrowDetails { id: "zeno".to_string() });
    assert_eq!(none, Err(ContractError::NotFound));
}

#[test]
fn escrows_keep_what_they_had() {
    let mut store = new_store();
    let mut msg = create(
        "escrow_1",
        vec![milestone("escrow_1", token(5, "cash")), milestone("escrow_1", native(7, "atom"))],
    );
    msg.cw20_whitelist = Some(vec![Account::Valid("silver".to_string())]);
    execute_create(
        &mut store,
        msg,
        info(SOURCE),
        Balance::Cw20(Cw20CoinVerified { address: "cash".to_string(), amount: 5 }),
        DepositCheck::FirstEntry,
    )
    .unwrap();
    let first = query_escrow_details(&store, "escrow_1".to_string()).unwrap();
    assert_eq!(first.cw20_whitelist, vec!["silver", "cash"]);

    execute_create_milestone(
        &mut store,
        milestone("escrow_1", token(1, "gold")),
        info(ARBITER),
        Balance::Native(vec![]),
    )
    .unwrap();
    run(&mut store, now(), ARBITER, approve("escrow_1", "2")).unwrap();
    run(&mut store, now(), ARBITER, ExecuteMsg::ExtendMilestone {
        id: "escrow_1".to_string(),
        milestone_id: "1".to_string(),
        end_height: Some(1_000),
        end_time: None,
    })
    .unwrap();
    run(&mut store, now(), ARBITER, ExecuteMsg::SetRecipient {
        id: "escrow_1".to_string(),
        recipient: Account::Valid("other".to_string()),
    })
    .unwrap();

    let last = query_escrow_details(&store, "escrow_1".to_string()).unwrap();
    assert_eq!(last.arbiter, first.arbiter);
    assert_eq!(last.source, first.source);
    assert_eq!(last.title, first.title);
    assert_eq!(last.milestones.len(), 3);
    for (before, after) in first.milestones.iter().zip(last.milestones.iter()) {
        assert_eq!(after.id, before.id);
        assert_eq!(after.title, before.title);
        assert_eq!(after.amount, before.amount);
    }
    assert!(last.milestones[1].is_completed);
    assert!(!last.milestones[0].is_completed);
    assert_eq!(last.cw20_whitelist, vec!["silver", "cash", "gold"]);
    // what is held is what the open milestones add up to
    assert_eq!(last.native_balance, Vec::<Coin>::new());
    assert_eq!(last.cw20_balance.len(), 2);
    assert_eq!((last.cw20_balance[0].address.as_str(), last.cw20_balance[0].amount), ("cash", 5));
    assert_eq!((last.cw20_balance[1].address.as_str(), last.cw20_balance[1].amount), ("gold", 1));
    assert_eq!(last.end_height, Some(1_000));
}
