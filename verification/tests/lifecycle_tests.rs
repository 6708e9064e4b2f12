use cw_account_management::contract::instantiate;
use cw_account_management::error::ContractError;
use cw_account_management::execute::{
    add_signers, change_threshold, execute_transaction, remove_signers, set_transfer_limits,
    set_whitelist_addresses, sign_transaction,
};
use cw_account_management::helpers::{decimal_string, is_sufficient_signers, is_valid_threshold};
use cw_account_management::msg::InstantiateMsg;
use cw_account_management::query::{signer_list, threshold, tx_executions};
use cw_account_management::state::{Account, Coin, Effect, TxStatus};

fn mk(admin: &str, signers: Vec<&str>, threshold: u8, mutable: bool, whitelist: bool) -> Account {
    instantiate(InstantiateMsg {
        admin: admin.to_string(),
        signers: signers.into_iter().map(|s| s.to_string()).collect(),
        threshold,
        mutable,
        whitelist_enabled: whitelist,
    })
    .unwrap()
}

fn transfer(to: &str, amount: u128, denom: &str) -> Effect {
    Effect::Send {
        to_address: to.to_string(),
        amount: vec![Coin { denom: denom.to_string(), amount }],
    }
}

#[test]
fn two_signer_flow_completes_and_locks() {
    // signers {s1, s2}, threshold 2: propose, co-sign to Done, then any
    // further signature is refused.
    let mut acct = mk("adm", vec!["s1", "s2"], 2, true, false);

    let payload = vec![transfer("recv", 50, "denom")];
    let res = execute_transaction(&mut acct, "s1".to_string(), payload.clone()).unwrap();
    assert_eq!(res.attributes[1].value, "1");
    assert!(res.messages.is_empty());
    let ledger = tx_executions(&acct).tx_executions;
    assert_eq!(ledger[0].id, 1);
    assert_eq!(ledger[0].status, Some(TxStatus::Pending));
    assert_eq!(ledger[0].signers, vec!["s1".to_string()]);

    let res = sign_transaction(&mut acct, "s2".to_string(), 1).unwrap();
    assert_eq!(res.messages, payload);
    let ledger = tx_executions(&acct).tx_executions;
    assert_eq!(ledger[0].status, Some(TxStatus::Done));
    assert_eq!(ledger[0].signers, vec!["s1".to_string(), "s2".to_string()]);

    let err = sign_transaction(&mut acct, "s1".to_string(), 1).unwrap_err();
    assert_eq!(err, ContractError::InvalidStatus { tx_id: 1 });
    let err = sign_transaction(&mut acct, "s2".to_string(), 1).unwrap_err();
    assert_eq!(err, ContractError::InvalidStatus { tx_id: 1 });
}

#[test]
fn sign_unknown_id_and_unauthorized() {
    let mut acct = mk("adm", vec!["s1", "s2"], 2, true, false);
    execute_transaction(&mut acct, "s1".to_string(), vec![]).unwrap();

    let err = sign_transaction(&mut acct, "s1".to_string(), 7).unwrap_err();
    assert_eq!(err, ContractError::NotFound { tx_id: 7 });
    let err = sign_transaction(&mut acct, "s1".to_string(), 0).unwrap_err();
    assert_eq!(err, ContractError::NotFound { tx_id: 0 });

    let before = tx_executions(&acct).tx_executions;
    let err = sign_transaction(&mut acct, "outsider".to_string(), 1).unwrap_err();
    assert_eq!(err, ContractError::Unauthorized { sender: "outsider".to_string() });
    assert_eq!(tx_executions(&acct).tx_executions, before);
}

#[test]
fn tx_ids_increase_by_one_and_failures_consume_none() {
    let mut acct = mk("adm", vec!["s1"], 1, true, true);
    set_whitelist_addresses(&mut acct, "adm".to_string(), vec!["ok".to_string()]).unwrap();

    let res = execute_transaction(&mut acct, "s1".to_string(), vec![transfer("ok", 1, "d")])
        .unwrap();
    assert_eq!(res.attributes[1].value, "1");

    // a rejected proposal consumes no id
    let err = execute_transaction(&mut acct, "s1".to_string(), vec![transfer("bad", 1, "d")])
        .unwrap_err();
    assert_eq!(err, ContractError::NotAllowedRecipient { recipient: "bad".to_string() });

    let res = execute_transaction(&mut acct, "s1".to_string(), vec![transfer("ok", 2, "d")])
        .unwrap();
    assert_eq!(res.attributes[1].value, "2");

    let ids: Vec<u16> = tx_executions(&acct).tx_executions.iter().map(|t| t.id).collect();
    assert_eq!(ids, vec![1, 2]);
}

#[test]
fn whitelist_blocks_unlisted_recipient() {
    // whitelist = {a}: a transfer to b is refused with no record created.
    let mut acct = mk("adm", vec!["s1"], 1, true, true);
    set_whitelist_addresses(&mut acct, "adm".to_string(), vec!["a".to_string()]).unwrap();

    let err = execute_transaction(&mut acct, "s1".to_string(), vec![transfer("b", 5, "d")])
        .unwrap_err();
    assert_eq!(err, ContractError::NotAllowedRecipient { recipient: "b".to_string() });
    assert!(tx_executions(&acct).tx_executions.is_empty());

    execute_transaction(&mut acct, "s1".to_string(), vec![transfer("a", 5, "d")]).unwrap();
    assert_eq!(tx_executions(&acct).tx_executions.len(), 1);
}

#[test]
fn ceiling_blocks_excessive_amount() {
    // ceiling(x) = 100: 150 x is refused, 100 x is accepted.
    let mut acct = mk("adm", vec!["s1"], 1, true, false);
    set_transfer_limits(
        &mut acct,
        "adm".to_string(),
        vec![Coin { denom: "x".to_string(), amount: 100 }],
    )
    .unwrap();

    let err = execute_transaction(&mut acct, "s1".to_string(), vec![transfer("r", 150, "x")])
        .unwrap_err();
    assert_eq!(
        err,
        ContractError::NotAllowedAmount { amount: Coin { denom: "x".to_string(), amount: 150 } }
    );
    assert!(tx_executions(&acct).tx_executions.is_empty());

    execute_transaction(&mut acct, "s1".to_string(), vec![transfer("r", 100, "x")]).unwrap();
    assert_eq!(tx_executions(&acct).tx_executions.len(), 1);

    // an unrestricted denomination has no ceiling
    execute_transaction(&mut acct, "s1".to_string(), vec![transfer("r", 100000, "y")]).unwrap();
}

#[test]
fn immutable_configuration_rejects_changes() {
    // admin of an immutable account cannot add a signer; nothing changes.
    let mut acct = mk("adm", vec!["s1"], 1, false, false);

    let err = add_signers(&mut acct, "adm".to_string(), vec!["s2".to_string()]).unwrap_err();
    assert_eq!(err, ContractError::Unauthorized { sender: "adm".to_string() });
    assert_eq!(signer_list(&acct).signers, vec!["s1".to_string()]);
}

#[test]
fn invalid_thresholds_are_rejected() {
    // at instantiation
    let err = instantiate(InstantiateMsg {
        admin: "adm".to_string(),
        signers: vec!["s1".to_string()],
        threshold: 0,
        mutable: true,
        whitelist_enabled: false,
    })
    .unwrap_err();
    assert_eq!(err, ContractError::InvalidThreshold { threshold: 0 });

    let err = instantiate(InstantiateMsg {
        admin: "adm".to_string(),
        signers: vec!["s1".to_string()],
        threshold: 2,
        mutable: true,
        whitelist_enabled: false,
    })
    .unwrap_err();
    assert_eq!(err, ContractError::InvalidThreshold { threshold: 2 });

    // at reconfiguration: the prior threshold stays
    let mut acct = mk("adm", vec!["s1", "s2"], 2, true, false);
    let err = change_threshold(&mut acct, "adm".to_string(), 0).unwrap_err();
    assert_eq!(err, ContractError::InvalidThreshold { threshold: 0 });
    let err = change_threshold(&mut acct, "adm".to_string(), 3).unwrap_err();
    assert_eq!(err, ContractError::InvalidThreshold { threshold: 3 });
    assert_eq!(threshold(&acct).threshold, 2);

    // removing signers below the threshold is rejected with the set intact
    let err = remove_signers(&mut acct, "adm".to_string(), vec!["s2".to_string()]).unwrap_err();
    assert_eq!(err, ContractError::InvalidThreshold { threshold: 2 });
    assert_eq!(signer_list(&acct).signers, vec!["s1".to_string(), "s2".to_string()]);
}

#[test]
fn duplicate_signatures_count_toward_threshold() {
    // signer identities are kept as an ordered multiset: a repeated
    // signature by the proposer reaches a threshold of two.
    let mut acct = mk("adm", vec!["s1", "s2"], 2, true, false);
    execute_transaction(&mut acct, "s1".to_string(), vec![]).unwrap();

    let res = sign_transaction(&mut acct, "s1".to_string(), 1).unwrap();
    assert!(res.messages.is_empty());
    let ledger = tx_executions(&acct).tx_executions;
    assert_eq!(ledger[0].status, Some(TxStatus::Done));
    assert_eq!(ledger[0].signers, vec!["s1".to_string(), "s1".to_string()]);
}

#[test]
fn duplicate_added_signers_accumulate() {
    // add_signers does not filter duplicates
    let mut acct = mk("adm", vec!["s1"], 1, true, false);
    add_signers(&mut acct, "adm".to_string(), vec!["s1".to_string(), "s3".to_string()]).unwrap();
    assert_eq!(
        signer_list(&acct).signers,
        vec!["s1".to_string(), "s1".to_string(), "s3".to_string()]
    );
}

#[test]
fn threshold_is_read_at_signing_time() {
    // lowering the threshold while a proposal is pending applies to it
    let mut acct = mk("adm", vec!["adm", "s2", "s3"], 3, true, false);
    execute_transaction(&mut acct, "s2".to_string(), vec![]).unwrap();
    assert_eq!(tx_executions(&acct).tx_executions[0].status, Some(TxStatus::Pending));

    change_threshold(&mut acct, "adm".to_string(), 2).unwrap();

    let res = sign_transaction(&mut acct, "s3".to_string(), 1).unwrap();
    assert_eq!(res.attributes[0].value, "sign_transaction");
    assert_eq!(tx_executions(&acct).tx_executions[0].status, Some(TxStatus::Done));
}

#[test]
fn unauthorized_proposal_is_rejected() {
    let mut acct = mk("adm", vec!["s1"], 1, true, false);
    let err = execute_transaction(&mut acct, "adm".to_string(), vec![]).unwrap_err();
    assert_eq!(err, ContractError::Unauthorized { sender: "adm".to_string() });
    assert!(tx_executions(&acct).tx_executions.is_empty());
}

#[test]
fn decimal_rendering_is_exact() {
    assert_eq!(decimal_string(0), "0");
    assert_eq!(decimal_string(7), "7");
    assert_eq!(decimal_string(10), "10");
    assert_eq!(decimal_string(305), "305");
    assert_eq!(decimal_string(65535), "65535");
}

#[test]
fn threshold_helpers_match_their_definitions() {
    assert!(!is_valid_threshold(0, 5));
    assert!(is_valid_threshold(1, 1));
    assert!(is_valid_threshold(5, 5));
    assert!(!is_valid_threshold(6, 5));
    assert!(!is_valid_threshold(1, 0));
    assert!(is_sufficient_signers(2, 2));
    assert!(is_sufficient_signers(2, 3));
    assert!(!is_sufficient_signers(3, 2));
}

#[test]
fn empty_history_after_instantiation() {
    let acct = mk("adm", vec!["s1"], 1, true, false);
    assert!(tx_executions(&acct).tx_executions.is_empty());
}

#[test]
fn non_transfer_effects_bypass_policy() {
    // an opaque effect passes the policy check even with an empty whitelist
    let mut acct = mk("adm", vec!["s1"], 1, true, true);
    let payload = vec![Effect::Other { data: vec![1, 2, 3] }];
    let res = execute_transaction(&mut acct, "s1".to_string(), payload.clone()).unwrap();
    assert_eq!(res.messages, payload);
}
