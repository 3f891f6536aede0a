use cw20_milestone_escrow::asset::{Coin, Cw20Coin};
use cw20_milestone_escrow::contract::{execute, instantiate, query, query_escrow_details};
use cw20_milestone_escrow::expiration::Env;
use cw20_milestone_escrow::msg::{
    Account, Attribute, CreateMilestoneMsg, CreateMsg, DepositCheck, EscrowDetailsResponse,
    ExecuteMsg, InstantiateMsg, MessageInfo, QueryMsg, QueryResponse,
};
use cw20_milestone_escrow::state::{GenericBalance, Milestone};
use cw20_milestone_escrow::transfer::TransferMsg;
use cw20_milestone_escrow::ContractError;

const ARBITER: &str = "arbiter";
const RECIPIENT: &str = "recipient";
const RECIPIENT2: &str = "recipient2";

fn mock_env() -> Env {
    Env { height: 12_345, time: 1_571_797_419_879_305_533 }
}

fn mock_info(sender: &str, funds: &[Coin]) -> MessageInfo {
    MessageInfo { sender: sender.to_string(), funds: funds.to_vec() }
}

fn coin(amount: u128, denom: &str) -> Coin {
    Coin::new(amount, denom)
}

fn coins(amount: u128, denom: &str) -> Vec<Coin> {
    vec![coin(amount, denom)]
}

/// A validator that accepts a text of three bytes or more.
fn validate(raw: &str) -> Account {
    if raw.len() >= 3 {
        Account::Valid(raw.to_string())
    } else {
        Account::Invalid
    }
}

fn attr(key: &str, value: &str) -> Attribute {
    Attribute { key: key.to_string(), value: value.to_string() }
}

fn empty_strings() -> Vec<String> {
    vec![]
}

fn empty_cw20_coins() -> Vec<Cw20Coin> {
    vec![]
}

fn milestone_msg(
    title: &str,
    description: &str,
    amount: u128,
    end_height: Option<u64>,
    end_time: Option<u64>,
) -> CreateMilestoneMsg {
    CreateMilestoneMsg {
        escrow_id: "escrow_1".to_string(),
        title: title.to_string(),
        description: description.to_string(),
        amount: GenericBalance { native: vec![coin(amount, "tokens")], cw20: vec![] },
        end_height,
        end_time,
    }
}

fn create_msg(milestones: Vec<CreateMilestoneMsg>) -> CreateMsg {
    CreateMsg {
        id: "escrow_1".to_string(),
        arbiter: validate(ARBITER),
        recipient: Some(validate(RECIPIENT)),
        title: "escrow_1_title".to_string(),
        cw20_whitelist: None,
        description: "escrow_1_description".to_string(),
        milestones,
    }
}

#[test]
fn tests_test_instantiate() {
    let env = mock_env();
    let info = mock_info("creator", &coins(1000, "native"));

    let (store, res) = instantiate(env, info, InstantiateMsg {});
    assert_eq!(0, res.messages.len());
    assert_eq!(0, store.len());
}

#[test]
fn test_create_and_approve() {
    // set up an empty registry
    let info = mock_info(ARBITER, &[]);
    let (mut store, res) = instantiate(mock_env(), info, InstantiateMsg {});
    assert_eq!(0, res.messages.len());

    // create one milestone
    let milestones =
        vec![milestone_msg("milestone_1_title", "milestone_1_description", 100, None, None)];

    // create an escrow
    let balance = coins(100, "tokens");
    let info = mock_info(ARBITER, &balance);
    let msg = ExecuteMsg::Create(create_msg(milestones));
    let res = execute(&mut store, mock_env(), info, msg, DepositCheck::FirstEntry).unwrap();
    assert_eq!(0, res.messages.len());
    assert_eq!(attr("action", "create"), res.attributes[0]);

    // ensure the details is what we expect
    let details = query_escrow_details(&store, "escrow_1".to_string()).unwrap();
    assert_eq!(
        details,
        EscrowDetailsResponse {
            id: "escrow_1".to_string(),
            arbiter: ARBITER.to_string(),
            recipient: Some(RECIPIENT.to_string()),
            source: ARBITER.to_string(),
            title: "escrow_1_title".to_string(),
            description: "escrow_1_description".to_string(),
            end_height: None,
            end_time: None,
            native_balance: balance.clone(),
            cw20_balance: vec![],
            cw20_whitelist: vec![],
            milestones: vec![Milestone {
                id: String::from("1"),
                title: "milestone_1_title".to_string(),
                description: "milestone_1_description".to_string(),
                amount: GenericBalance { native: vec![coin(100, "tokens")], cw20: vec![] },
                end_height: None,
                end_time: None,
                is_completed: false,
            }],
        }
    );

    // approve it
    let info = mock_info(ARBITER, &[]);
    let res = execute(
        &mut store,
        mock_env(),
        info,
        ExecuteMsg::ApproveMilestone {
            id: "escrow_1".to_string(),
            milestone_id: String::from("1"),
        },
        DepositCheck::FirstEntry,
    )
    .unwrap();
    assert_eq!(1, res.messages.len());
    assert_eq!(attr("action", "approve_milestone"), res.attributes[0]);
    assert_eq!(
        res.messages[0],
        TransferMsg::Bank { to_address: RECIPIENT.to_string(), amount: balance }
    );

    // second attempt fails (not found)
    let info = mock_info(ARBITER, &[]);
    let err = execute(
        &mut store,
        mock_env(),
        info,
        ExecuteMsg::ApproveMilestone {
            id: "escrow_1".to_string(),
            milestone_id: String::from("1"),
        },
        DepositCheck::FirstEntry,
    )
    .unwrap_err();
    assert!(matches!(err, ContractError::NotFound));
}

#[test]
fn test_create_empty_milestones() {
    let (mut store, _) = instantiate(mock_env(), mock_info("creator", &[]), InstantiateMsg {});
    let env = mock_env();
    let info = mock_info("creator", &coins(2, "token"));

    let msg = ExecuteMsg::Create(CreateMsg {
        id: "escrow1".to_string(),
        arbiter: validate("arbiter"),
        recipient: Some(validate("recipient")),
        title: "Title".to_string(),
        description: "Description".to_string(),
        cw20_whitelist: None,
        milestones: vec![],
    });

    let res = execute(&mut store, env, info.clone(), msg, DepositCheck::FirstEntry);
    assert!(matches!(res, Err(ContractError::EmptyMilestones)));
    assert_eq!(0, store.len());
}

#[test]
fn test_create_valid_milestones() {
    let (mut store, _) = instantiate(mock_env(), mock_info(ARBITER, &[]), InstantiateMsg {});
    let env = mock_env();
    let info = mock_info(ARBITER, &coins(200, "tokens"));

    let msg = ExecuteMsg::Create(create_msg(vec![
        milestone_msg("milestone_1_title", "milestone_1_description", 100, None, None),
        milestone_msg("milestone_2_title", "milestone_2_description", 100, None, None),
    ]));

    let res = execute(&mut store, env, info.clone(), msg, DepositCheck::FirstEntry).unwrap();
    assert_eq!(0, res.messages.len());
}

#[test]
fn test_set_receipient() {
    let (mut store, _) = instantiate(mock_env(), mock_info(ARBITER, &[]), InstantiateMsg {});
    let env = mock_env();
    let info = mock_info(ARBITER, &coins(100, "tokens"));

    // Create a new escrow
    let msg = ExecuteMsg::Create(create_msg(vec![milestone_msg(
        "milestone_1_title",
        "milestone_1_description",
        100,
        None,
        None,
    )]));
    let res = execute(&mut store, env, info.clone(), msg, DepositCheck::FirstEntry).unwrap();
    assert_eq!(0, res.messages.len());

    // Set recipient
    let info = mock_info(ARBITER, &[]);
    let msg = ExecuteMsg::SetRecipient {
        id: "escrow_1".to_string(),
        recipient: validate(RECIPIENT2),
    };
    let res = execute(&mut store, env, info.clone(), msg, DepositCheck::FirstEntry).unwrap();
    assert_eq!(0, res.messages.len());
    let details = query_escrow_details(&store, "escrow_1".to_string()).unwrap();
    assert_eq!(Some(RECIPIENT2.to_string()), details.recipient);

    // Attempt setting empty recipient and assert failure
    let info = mock_info(ARBITER, &[]);
    let msg = ExecuteMsg::SetRecipient {
        id: "escrow_1".to_string(),
        recipient: validate(&String::new()),
    };
    let err = execute(&mut store, env, info.clone(), msg, DepositCheck::FirstEntry).unwrap_err();
    assert!(matches!(err, ContractError::InvalidAddress));
}

#[test]
fn test_query_escrow() {
    let (mut store, _) = instantiate(mock_env(), mock_info(ARBITER, &[]), InstantiateMsg {});
    let env = mock_env();
    let info = mock_info(ARBITER, &coins(200, "tokens"));

    // Create a new escrow
    let msg = ExecuteMsg::Create(create_msg(vec![
        milestone_msg("milestone_1_title", "milestone_1_description", 100, None, None),
        milestone_msg("milestone_2_title", "milestone_2_description", 100, None, None),
    ]));
    let _res = execute(&mut store, env, info.clone(), msg, DepositCheck::FirstEntry).unwrap();

    // Query the created escrow
    let query_msg = QueryMsg::EscrowDetails { id: "escrow_1".to_string() };
    let escrow = match query(&store, env, query_msg).unwrap() {
        QueryResponse::EscrowDetails(details) => details,
        other => panic!("unexpected answer: {:?}", other),
    };
    assert_eq!("escrow_1", escrow.id);
    assert_eq!("escrow_1_title", escrow.title);
    assert_eq!("escrow_1_description", escrow.description);
    assert_eq!(2, escrow.milestones.len());
    assert_eq!(ARBITER, escrow.arbiter);
    assert_eq!(ARBITER, escrow.source);
    assert_eq!(RECIPIENT, escrow.recipient.unwrap());
    assert_eq!(None, escrow.end_height);
    assert_eq!(None, escrow.end_time);
    assert_eq!(empty_strings(), escrow.cw20_whitelist);
    assert_eq!(vec![Coin::new(200, "tokens")], escrow.native_balance);
    assert_eq!(empty_cw20_coins(), escrow.cw20_balance);
}

#[test]
fn test_extend_escrow_milestone_time() {
    let info = mock_info(ARBITER, &[]);
    let (mut store, res) = instantiate(mock_env(), info, InstantiateMsg {});
    assert_eq!(0, res.messages.len());

    // create one milestone with an end_time
    let timestamp = 1_681_516_799u64;
    let milestones = vec![milestone_msg(
        "milestone_1_title",
        "milestone_1_description",
        100,
        None,
        Some(timestamp),
    )];

    // create an escrow
    let balance = coins(100, "tokens");
    let info = mock_info(ARBITER, &balance);
    let msg = ExecuteMsg::Create(create_msg(milestones));
    let res = execute(&mut store, mock_env(), info, msg, DepositCheck::FirstEntry).unwrap();
    assert_eq!(0, res.messages.len());
    assert_eq!(attr("action", "create"), res.attributes[0]);

    // extend the escrow
    let extended_timestamp = 1_681_603_199u64;
    let info = mock_info(ARBITER, &[]);
    let msg = ExecuteMsg::ExtendMilestone {
        id: "escrow_1".to_string(),
        milestone_id: String::from("1"),
        end_height: None,
        end_time: Some(extended_timestamp),
    };
    let res = execute(&mut store, mock_env(), info, msg, DepositCheck::FirstEntry).unwrap();
    assert_eq!(0, res.messages.len());
    assert_eq!(attr("action", "extend_milestone"), res.attributes[0]);

    // query the extended escrow
    let query_msg = QueryMsg::EscrowDetails { id: "escrow_1".to_string() };
    let escrow = match query(&store, mock_env(), query_msg).unwrap() {
        QueryResponse::EscrowDetails(details) => details,
        other => panic!("unexpected answer: {:?}", other),
    };

    // check the milestone end_time
    assert!(extended_timestamp > timestamp);
    assert_eq!(extended_timestamp, escrow.milestones[0].end_time.unwrap());
    assert_eq!(Some(extended_timestamp), escrow.end_time);
}

#[test]
fn test_extend_escrow_milestone_block() {
    let info = mock_info(ARBITER, &[]);
    let (mut store, res) = instantiate(mock_env(), info, InstantiateMsg {});
    assert_eq!(0, res.messages.len());

    // create one milestone with an end_height
    let height = 7_807_000u64;
    let milestones = vec![milestone_msg(
        "milestone_1_title",
        "milestone_1_description",
        100,
        Some(height),
        None,
    )];

    // create an escrow
    let balance = coins(100, "tokens");
    let info = mock_info(ARBITER, &balance);
    let msg = ExecuteMsg::Create(create_msg(milestones));
    let res = execute(&mut store, mock_env(), info, msg, DepositCheck::FirstEntry).unwrap();
    assert_eq!(0, res.messages.len());
    assert_eq!(attr("action", "create"), res.attributes[0]);

    // extend the escrow
    let extended_height = 7_810_000u64;
    let info = mock_info(ARBITER, &[]);
    let msg = ExecuteMsg::ExtendMilestone {
        id: "escrow_1".to_string(),
        milestone_id: String::from("1"),
        end_height: Some(extended_height),
        end_time: None,
    };
    let res = execute(&mut store, mock_env(), info, msg, DepositCheck::FirstEntry).unwrap();
    assert_eq!(0, res.messages.len());
    assert_eq!(attr("action", "extend_milestone"), res.attributes[0]);

    // query the extended escrow
    let query_msg = QueryMsg::EscrowDetails { id: "escrow_1".to_string() };
    let escrow = match query(&store, mock_env(), query_msg).unwrap() {
        QueryResponse::EscrowDetails(details) => details,
        other => panic!("unexpected answer: {:?}", other),
    };

    // check the milestone end_height
    assert!(extended_height > height);
    assert_eq!(extended_height, escrow.milestones[0].end_height.unwrap());
    assert_eq!(Some(extended_height), escrow.end_height);
}
