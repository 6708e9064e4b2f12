use cw_account_management::contract::instantiate;
use cw_account_management::execute::{
    add_signers, change_admin, change_threshold, execute_transaction, remove_signers,
    remove_transfer_limits, remove_whitelist_addresses, set_transfer_limits,
    set_whitelist_addresses, sign_transaction,
};
use cw_account_management::msg::{
    AdminResponse, Attribute, InstantiateMsg, SignerListResponse, ThresholdResponse,
    WhitelistAddressesResponse,
};
use cw_account_management::query::{
    admin, signer_list, threshold, transfer_limits, tx_executions, whitelist_addresses,
};
use cw_account_management::state::{Account, Coin, Effect, TxStatus};

const ALICE: &str = "alice";
const BOB: &str = "bob";
const CARL: &str = "carl";
const DENOM: &str = "denom";

fn setup(
    admin: &str,
    signers: Vec<&str>,
    threshold: u8,
    whitelist_enabled: bool,
) -> Account {
    instantiate(InstantiateMsg {
        admin: admin.to_string(),
        signers: signers.into_iter().map(|s| s.to_string()).collect(),
        threshold,
        mutable: true,
        whitelist_enabled,
    })
    .unwrap()
}

fn mk_coin(amount: u128, denom: &str) -> Coin {
    Coin { denom: denom.to_string(), amount }
}

fn mk_attr(key: &str, value: &str) -> Attribute {
    Attribute { key: key.to_string(), value: value.to_string() }
}

#[test]
fn query_admin() {
    let acct = setup(ALICE, vec![CARL], 1, false);
    let resp = admin(&acct);
    assert_eq!(resp, AdminResponse { admin: ALICE.to_string() });
}

#[test]
fn query_signer_list() {
    let acct = setup(ALICE, vec![CARL], 1, false);
    let resp = signer_list(&acct);
    assert_eq!(resp, SignerListResponse { signers: vec![CARL.to_string()] });
}

#[test]
fn exec_change_admin() {
    let mut acct = setup(ALICE, vec![CARL], 1, false);
    let resp = admin(&acct);
    assert_eq!(resp, AdminResponse { admin: ALICE.to_string() });

    change_admin(&mut acct, ALICE.to_string(), BOB.to_string()).unwrap();

    let resp = admin(&acct);
    assert_eq!(resp, AdminResponse { admin: BOB.to_string() });
}

#[test]
fn exec_change_threshold() {
    let mut acct = setup(ALICE, vec![ALICE, CARL], 1, false);

    change_threshold(&mut acct, ALICE.to_string(), 2).unwrap();

    let resp = threshold(&acct);
    assert_eq!(resp, ThresholdResponse { threshold: 2 });
}

#[test]
fn exec_add_signers() {
    let mut acct = setup("owner", vec![ALICE], 1, false);
    let resp = signer_list(&acct);
    assert_eq!(resp, SignerListResponse { signers: vec![ALICE.to_string()] });

    add_signers(&mut acct, "owner".to_string(), vec![BOB.to_string()]).unwrap();

    let resp = signer_list(&acct);
    assert_eq!(
        resp,
        SignerListResponse { signers: vec![ALICE.to_string(), BOB.to_string()] }
    );
}

#[test]
fn exec_remove_signers() {
    let mut acct = setup("owner", vec![ALICE, BOB], 1, false);
    let resp = signer_list(&acct);
    assert_eq!(
        resp,
        SignerListResponse { signers: vec![ALICE.to_string(), BOB.to_string()] }
    );

    remove_signers(&mut acct, "owner".to_string(), vec![BOB.to_string()]).unwrap();

    let resp = signer_list(&acct);
    assert_eq!(resp, SignerListResponse { signers: vec![ALICE.to_string()] });
}

#[test]
fn exec_execute_transaction() {
    let mut acct = setup("owner", vec!["owner"], 1, true);

    set_whitelist_addresses(&mut acct, "owner".to_string(), vec![CARL.to_string()]).unwrap();
    set_transfer_limits(&mut acct, "owner".to_string(), vec![mk_coin(1100, DENOM)]).unwrap();

    let messages = vec![Effect::Send {
        to_address: CARL.to_string(),
        amount: vec![mk_coin(1000, DENOM)],
    }];
    let res = execute_transaction(&mut acct, "owner".to_string(), messages.clone()).unwrap();
    assert_eq!(
        res.attributes,
        vec![mk_attr("action", "execute_transaction"), mk_attr("tx_id", "1")]
    );
    assert_eq!(res.messages, messages);

    let resp = tx_executions(&acct);
    assert_eq!(resp.tx_executions.len(), 1);
}

#[test]
fn exec_sign_transaction() {
    let mut acct = setup("owner", vec!["owner", ALICE], 2, false);

    let messages = vec![Effect::Send {
        to_address: CARL.to_string(),
        amount: vec![mk_coin(1000, DENOM)],
    }];
    let res = execute_transaction(&mut acct, "owner".to_string(), messages.clone()).unwrap();
    assert_eq!(
        res.attributes,
        vec![mk_attr("action", "execute_transaction"), mk_attr("tx_id", "1")]
    );
    assert!(res.messages.is_empty());

    let resp = tx_executions(&acct);
    assert_eq!(resp.tx_executions[0].status, Some(TxStatus::Pending));

    let res = sign_transaction(&mut acct, ALICE.to_string(), 1).unwrap();
    assert_eq!(
        res.attributes,
        vec![mk_attr("action", "sign_transaction"), mk_attr("tx_id", "1")]
    );
    assert_eq!(res.messages, messages);

    let resp = tx_executions(&acct);
    assert_eq!(resp.tx_executions[0].status, Some(TxStatus::Done));
}

#[test]
fn exec_set_whitelist_addresses() {
    let mut acct = setup("owner", vec![ALICE], 1, true);

    let resp = whitelist_addresses(&acct);
    assert_eq!(resp, WhitelistAddressesResponse { whitelist_addresses: vec![] });

    set_whitelist_addresses(
        &mut acct,
        "owner".to_string(),
        vec![ALICE.to_string(), BOB.to_string()],
    )
    .unwrap();

    let mut got = whitelist_addresses(&acct).whitelist_addresses;
    got.sort();
    let mut expected = vec![ALICE.to_string(), BOB.to_string()];
    expected.sort();
    assert_eq!(got, expected);

    set_whitelist_addresses(
        &mut acct,
        "owner".to_string(),
        vec![BOB.to_string(), CARL.to_string()],
    )
    .unwrap();

    let mut got = whitelist_addresses(&acct).whitelist_addresses;
    got.sort();
    let mut expected = vec![ALICE.to_string(), BOB.to_string(), CARL.to_string()];
    expected.sort();
    assert_eq!(got, expected);
}

#[test]
fn exec_remove_whitelist_addresses() {
    let mut acct = setup("owner", vec![ALICE], 1, true);

    let resp = whitelist_addresses(&acct);
    assert_eq!(resp, WhitelistAddressesResponse { whitelist_addresses: vec![] });

    set_whitelist_addresses(
        &mut acct,
        "owner".to_string(),
        vec![ALICE.to_string(), BOB.to_string(), CARL.to_string()],
    )
    .unwrap();

    let mut got = whitelist_addresses(&acct).whitelist_addresses;
    got.sort();
    let mut expected = vec![ALICE.to_string(), BOB.to_string(), CARL.to_string()];
    expected.sort();
    assert_eq!(got, expected);

    remove_whitelist_addresses(
        &mut acct,
        "owner".to_string(),
        vec![BOB.to_string(), CARL.to_string()],
    )
    .unwrap();

    let resp = whitelist_addresses(&acct);
    assert_eq!(resp.whitelist_addresses, vec![ALICE.to_string()]);
}

#[test]
fn exec_set_transfer_limits() {
    let mut acct = setup("owner", vec![ALICE], 1, true);

    let resp = transfer_limits(&acct);
    assert!(resp.transfer_limits.is_empty());

    let coins = vec![mk_coin(100, "token1"), mk_coin(200, "token2")];
    set_transfer_limits(&mut acct, "owner".to_string(), coins.clone()).unwrap();

    let mut got = transfer_limits(&acct).transfer_limits;
    got.sort_by(|a, b| a.denom.cmp(&b.denom));
    assert_eq!(got, coins);

    let new_coins = vec![mk_coin(150, "token1"), mk_coin(300, "token3")];
    set_transfer_limits(&mut acct, "owner".to_string(), new_coins).unwrap();

    let mut expected = vec![
        mk_coin(150, "token1"),
        mk_coin(200, "token2"),
        mk_coin(300, "token3"),
    ];
    expected.sort_by(|a, b| a.denom.cmp(&b.denom));

    let mut got = transfer_limits(&acct).transfer_limits;
    got.sort_by(|a, b| a.denom.cmp(&b.denom));
    assert_eq!(got, expected);
}

#[test]
fn exec_remove_transfer_limits() {
    let mut acct = setup("owner", vec![ALICE], 1, true);

    let coins = vec![
        mk_coin(100, "token1"),
        mk_coin(200, "token2"),
        mk_coin(300, "token3"),
    ];
    set_transfer_limits(&mut acct, "owner".to_string(), coins.clone()).unwrap();

    let mut got = transfer_limits(&acct).transfer_limits;
    got.sort_by(|a, b| a.denom.cmp(&b.denom));
    assert_eq!(got, coins);

    remove_transfer_limits(
        &mut acct,
        "owner".to_string(),
        vec!["token2".to_string(), "token3".to_string()],
    )
    .unwrap();

    let got = transfer_limits(&acct).transfer_limits;
    assert_eq!(got, vec![mk_coin(100, "token1")]);
}
