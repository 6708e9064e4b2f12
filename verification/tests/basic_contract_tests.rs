use cw_account_management::contract::instantiate;
use cw_account_management::execute::{
    add_signers, change_admin, change_threshold, execute_messages, remove_signers, spend_balances,
};
use cw_account_management::msg::{
    AdminResponse, Attribute, InstantiateMsg, SignerListResponse, ThresholdResponse,
};
use cw_account_management::query::{admin, signer_list, threshold};
use cw_account_management::state::{Account, Coin, Effect};

const ALICE: &str = "alice";
const BOB: &str = "bob";
const CARL: &str = "carl";
const DENOM: &str = "denom";

fn setup_basic(admin: &str, signers: Vec<&str>, threshold: u8, mutable: bool) -> Account {
    instantiate(InstantiateMsg {
        admin: admin.to_string(),
        signers: signers.into_iter().map(|s| s.to_string()).collect(),
        threshold,
        mutable,
        whitelist_enabled: false,
    })
    .unwrap()
}

fn basic_coin(amount: u128, denom: &str) -> Coin {
    Coin { denom: denom.to_string(), amount }
}

fn basic_attr(key: &str, value: &str) -> Attribute {
    Attribute { key: key.to_string(), value: value.to_string() }
}

#[test]
fn contract_tests_query_admin() {
    let acct = setup_basic(ALICE, vec![CARL], 1, false);
    let resp = admin(&acct);
    assert_eq!(resp, AdminResponse { admin: ALICE.to_string() });
}

#[test]
fn contract_tests_query_signer_list() {
    let acct = setup_basic(ALICE, vec![CARL], 1, false);
    let resp = signer_list(&acct);
    assert_eq!(resp, SignerListResponse { signers: vec![CARL.to_string()] });
}

#[test]
fn contract_tests_exec_change_admin() {
    let mut acct = setup_basic(ALICE, vec![CARL], 1, true);
    let resp = admin(&acct);
    assert_eq!(resp, AdminResponse { admin: ALICE.to_string() });

    change_admin(&mut acct, ALICE.to_string(), BOB.to_string()).unwrap();

    let resp = admin(&acct);
    assert_eq!(resp, AdminResponse { admin: BOB.to_string() });
}

#[test]
fn contract_tests_exec_change_threshold() {
    let mut acct = setup_basic(ALICE, vec![ALICE, CARL], 1, true);

    change_threshold(&mut acct, ALICE.to_string(), 2).unwrap();

    let resp = threshold(&acct);
    assert_eq!(resp, ThresholdResponse { threshold: 2 });
}

#[test]
fn contract_tests_exec_add_signers() {
    let mut acct = setup_basic("owner", vec![ALICE], 1, true);
    let resp = signer_list(&acct);
    assert_eq!(resp, SignerListResponse { signers: vec![ALICE.to_string()] });

    add_signers(&mut acct, "owner".to_string(), vec![BOB.to_string()]).unwrap();

    let resp = signer_list(&acct);
    assert_eq!(
        resp,
        SignerListResponse { signers: vec![ALICE.to_string(), BOB.to_string()] }
    );
}

#[test]
fn contract_tests_exec_remove_signers() {
    let mut acct = setup_basic("owner", vec![ALICE, BOB], 1, true);
    let resp = signer_list(&acct);
    assert_eq!(
        resp,
        SignerListResponse { signers: vec![ALICE.to_string(), BOB.to_string()] }
    );

    remove_signers(&mut acct, "owner".to_string(), vec![BOB.to_string()]).unwrap();

    let resp = signer_list(&acct);
    assert_eq!(resp, SignerListResponse { signers: vec![ALICE.to_string()] });
}

#[test]
fn exec_spend_balances() {
    let acct = setup_basic("owner", vec!["owner"], 1, true);

    let res = spend_balances(
        &acct,
        "owner".to_string(),
        CARL.to_string(),
        vec![basic_coin(1000, DENOM)],
    )
    .unwrap();

    assert_eq!(
        res.messages,
        vec![Effect::Send {
            to_address: CARL.to_string(),
            amount: vec![basic_coin(1000, DENOM)],
        }]
    );
    assert_eq!(
        res.attributes,
        vec![basic_attr("action", "spend_balances"), basic_attr("recipient", CARL)]
    );
}

#[test]
fn exec_execute_messages() {
    let acct = setup_basic("owner", vec!["owner"], 1, true);

    let messages = vec![Effect::Send {
        to_address: CARL.to_string(),
        amount: vec![basic_coin(1000, DENOM)],
    }];
    let res = execute_messages(&acct, "owner".to_string(), messages.clone()).unwrap();

    assert_eq!(res.attributes, vec![basic_attr("action", "execute_messages")]);
    assert_eq!(res.messages, messages);
}
