use vstd::prelude::*;

use crate::error::{ContractError, ContractErrorV};
use crate::helpers::{
    bool_string, decimal_string, is_sufficient_signers, is_valid_threshold, spec_bool_chars,
    spec_decimal, spec_sufficient_signers, spec_valid_threshold,
};
use crate::msg::{attr, attr_value, AttributeV, Response, ResponseV};
use crate::state::{
    clone_effects, contains_string, lemma_append_deep_view, lemma_push_deep_view,
    lemma_update_deep_view, Account, AccountV, Coin, CoinV, Effect, EffectV, Policy, PolicyV,
    StateV, TxData, TxDataV, TxStatus, INIT_TX_ID,
};

verus! {

/// The first policy violation among the amounts of one transfer, scanned in
/// order.
pub open spec fn first_amount_error(p: PolicyV, amount: Seq<CoinV>) -> Option<ContractErrorV>
    decreases amount.len(),
{
    if amount.len() == 0 {
        None
    } else if !p.can_transfer(amount[0]) {
        Some(ContractErrorV::NotAllowedAmount { amount: amount[0] })
    } else {
        first_amount_error(p, amount.drop_first())
    }
}

/// The policy violation one effect provokes, if any. Only value transfers
/// are inspected: first the recipient, then each amount in order.
pub open spec fn effect_policy_error(p: PolicyV, e: EffectV) -> Option<ContractErrorV> {
    match e {
        EffectV::Send { to_address, amount } => {
            if !p.can_receive(to_address) {
                Some(ContractErrorV::NotAllowedRecipient { recipient: to_address })
            } else {
                first_amount_error(p, amount)
            }
        },
        EffectV::Other { .. } => None,
    }
}

/// The first policy violation in a whole payload, scanned in order.
pub open spec fn first_policy_error(p: PolicyV, msgs: Seq<EffectV>) -> Option<ContractErrorV>
    decreases msgs.len(),
{
    if msgs.len() == 0 {
        None
    } else if effect_policy_error(p, msgs[0]) is Some {
        effect_policy_error(p, msgs[0])
    } else {
        first_policy_error(p, msgs.drop_first())
    }
}

/// Pairs the outcome of an operation with its view.
pub open spec fn result_view(r: Result<Response, ContractError>) -> Result<
    ResponseV,
    ContractErrorV,
> {
    match r {
        Ok(resp) => Ok(resp@),
        Err(e) => Err(e@),
    }
}

/// The full transition a proposal makes: the account afterwards and the
/// outcome handed back. Meaningful while the id counter has room, which
/// [`execute_transaction`] requires.
pub open spec fn execute_transaction_spec(
    a: AccountV,
    sender: Seq<char>,
    mv: Seq<EffectV>,
) -> (AccountV, Result<ResponseV, ContractErrorV>) {
    if !a.state.can_execute(sender) {
        (a, Err(ContractErrorV::Unauthorized { sender }))
    } else if first_policy_error(a.policy, mv) is Some {
        (a, Err(first_policy_error(a.policy, mv)->Some_0))
    } else if a.state.threshold == 0 {
        (a, Err(ContractErrorV::InvalidThreshold { threshold: 0 }))
    } else {
        let done = a.state.threshold == 1;
        let tx = TxDataV {
            id: a.tx_next_id,
            msgs: mv,
            signers: seq![sender],
            status: Some(if done { TxStatus::Done } else { TxStatus::Pending }),
        };
        let a1 = AccountV {
            tx_next_id: (a.tx_next_id + 1) as u16,
            tx_executions: a.tx_executions.push(tx),
            ..a
        };
        let resp = ResponseV {
            messages: if done { mv } else { Seq::<EffectV>::empty() },
            attributes: seq![
                AttributeV { key: "action"@, value: "execute_transaction"@ },
                AttributeV { key: "tx_id"@, value: spec_decimal(a.tx_next_id as int) },
            ],
        };
        (a1, Ok(resp))
    }
}

/// The full transition one co-signature makes: the account afterwards and
/// the outcome handed back.
pub open spec fn sign_transaction_spec(a: AccountV, sender: Seq<char>, tx_id: u16) -> (
    AccountV,
    Result<ResponseV, ContractErrorV>,
) {
    let idx = tx_id - INIT_TX_ID;
    if !a.state.can_execute(sender) {
        (a, Err(ContractErrorV::Unauthorized { sender }))
    } else if tx_id < INIT_TX_ID || idx >= a.tx_executions.len() {
        (a, Err(ContractErrorV::NotFound { tx_id }))
    } else if a.tx_executions[idx].status != Some(TxStatus::Pending) {
        (a, Err(ContractErrorV::InvalidStatus { tx_id }))
    } else {
        let tx0 = a.tx_executions[idx];
        let signers1 = tx0.signers.push(sender);
        let done = spec_sufficient_signers(a.state.threshold, signers1.len() as int);
        let tx1 = TxDataV {
            signers: signers1,
            status: Some(if done { TxStatus::Done } else { TxStatus::Pending }),
            ..tx0
        };
        let a1 = AccountV { tx_executions: a.tx_executions.update(idx, tx1), ..a };
        let resp = ResponseV {
            messages: if done { tx0.msgs } else { Seq::<EffectV>::empty() },
            attributes: seq![
                AttributeV { key: "action"@, value: "sign_transaction"@ },
                AttributeV { key: "tx_id"@, value: spec_decimal(tx_id as int) },
            ],
        };
        (a1, Ok(resp))
    }
}

proof fn lemma_amount_skip(p: PolicyV, amount: Seq<CoinV>, i: int)
    requires
        0 <= i < amount.len(),
        p.can_transfer(amount[i]),
    ensures
        first_amount_error(p, amount.skip(i)) == first_amount_error(p, amount.skip(i + 1)),
{
    assert(amount.skip(i)[0] == amount[i]);
    assert(amount.skip(i).drop_first() =~= amount.skip(i + 1));
}

proof fn lemma_policy_skip(p: PolicyV, msgs: Seq<EffectV>, i: int)
    requires
        0 <= i < msgs.len(),
        effect_policy_error(p, msgs[i]) is None,
    ensures
        first_policy_error(p, msgs.skip(i)) == first_policy_error(p, msgs.skip(i + 1)),
{
    assert(msgs.skip(i)[0] == msgs[i]);
    assert(msgs.skip(i).drop_first() =~= msgs.skip(i + 1));
}

/// Scans a payload against the policy and returns the first violation.
#[verifier::loop_isolation(false)]
fn check_policy(policy: &Policy, msgs: &Vec<Effect>) -> (r: Option<ContractError>)
    requires
        policy@.wf(),
    ensures
        match r {
            Some(e) => first_policy_error(policy@, msgs.deep_view()) == Some(e@),
            None => first_policy_error(policy@, msgs.deep_view()) is None,
        },
{
    let ghost mv = msgs.deep_view();
    let n = msgs.len();
    proof {
        assert(mv.skip(0) =~= mv);
    }
    for i in 0..n
        invariant
            policy@.wf(),
            n == msgs.len(),
            mv == msgs.deep_view(),
            first_policy_error(policy@, mv) == first_policy_error(policy@, mv.skip(i as int)),
    {
        proof {
            assert(mv[i as int] == msgs@[i as int].deep_view());
        }
        match &msgs[i] {
            Effect::Send { to_address, amount } => {
                proof {
                    assert(mv[i as int] == (EffectV::Send {
                        to_address: to_address@,
                        amount: amount.deep_view(),
                    }));
                }
                if !policy.can_receive(to_address) {
                    proof {
                        assert(mv.skip(i as int)[0] == mv[i as int]);
                    }
                    return Some(ContractError::NotAllowedRecipient {
                        recipient: to_address.clone(),
                    });
                }
                let ghost av = amount.deep_view();
                let m = amount.len();
                proof {
                    assert(av.skip(0) =~= av);
                }
                for k in 0..m
                    invariant
                        policy@.wf(),
                        m == amount.len(),
                        av == amount.deep_view(),
                        first_amount_error(policy@, av) == first_amount_error(
                            policy@,
                            av.skip(k as int),
                        ),
                {
                    proof {
                        assert(av[k as int] == amount@[k as int].deep_view());
                    }
                    if !policy.can_transfer(&amount[k]) {
                        proof {
                            assert(av.skip(k as int)[0] == av[k as int]);
                            assert(mv.skip(i as int)[0] == mv[i as int]);
                        }
                        return Some(ContractError::NotAllowedAmount {
                            amount: amount[k].clone(),
                        });
                    }
                    proof {
                        lemma_amount_skip(policy@, av, k as int);
                    }
                }
                proof {
                    assert(av.skip(m as int) =~= Seq::<CoinV>::empty());
                    assert(effect_policy_error(policy@, mv[i as int]) is None);
                    lemma_policy_skip(policy@, mv, i as int);
                }
            },
            Effect::Other { data: _ } => {
                proof {
                    assert(effect_policy_error(policy@, mv[i as int]) is None);
                    lemma_policy_skip(policy@, mv, i as int);
                }
            },
        }
    }
    proof {
        assert(mv.skip(n as int) =~= Seq::<EffectV>::empty());
    }
    None
}

/// Proposes a transaction. The caller must be a signer and every transfer in
/// the payload must pass the policy. A fresh id is allocated; with a
/// threshold of one the record is created directly in `Done` and the payload
/// is released at once, otherwise the record waits in `Pending` and nothing
/// is dispatched.
pub fn execute_transaction(acct: &mut Account, sender: String, msgs: Vec<Effect>) -> (r: Result<
    Response,
    ContractError,
>)
    requires
        old(acct)@.wf(),
        old(acct)@.tx_next_id < u16::MAX,
    ensures
        final(acct)@.wf(),
        final(acct)@ == execute_transaction_spec(old(acct)@, sender@, msgs.deep_view()).0,
        result_view(r) == execute_transaction_spec(old(acct)@, sender@, msgs.deep_view()).1,
{
    let ghost a0 = acct@;
    let ghost mv = msgs.deep_view();
    if !acct.state.can_execute(&sender) {
        return Err(ContractError::Unauthorized { sender });
    }
    match check_policy(&acct.policy, &msgs) {
        Some(e) => {
            return Err(e);
        },
        None => {},
    }
    if acct.state.threshold == 0 {
        return Err(ContractError::InvalidThreshold { threshold: 0 });
    }
    let curr_id = acct.tx_next_id;
    let done = acct.state.threshold == 1;
    let response_msgs: Vec<Effect> = if done {
        clone_effects(&msgs)
    } else {
        Vec::new()
    };
    let status = if done {
        TxStatus::Done
    } else {
        TxStatus::Pending
    };
    let tx = TxData::new(curr_id, msgs, sender, status);
    let ghost txg = tx@;
    let ghost pre = acct.tx_executions;
    acct.tx_executions.push(tx);
    acct.tx_next_id = curr_id + 1;
    proof {
        lemma_push_deep_view(pre, acct.tx_executions, acct.tx_executions@[pre@.len() as int]);
        assert(acct@.tx_executions =~= a0.tx_executions.push(txg));
        assert(acct@ =~= (AccountV {
            tx_next_id: (a0.tx_next_id + 1) as u16,
            tx_executions: a0.tx_executions.push(txg),
            ..a0
        }));
    }
    let attributes = vec![
        attr("action", "execute_transaction"),
        attr_value("tx_id", decimal_string(curr_id as u64)),
    ];
    let resp = Response { messages: response_msgs, attributes };
    proof {
        assert(resp@.attributes =~= seq![
            (AttributeV { key: "action"@, value: "execute_transaction"@ }),
            (AttributeV { key: "tx_id"@, value: spec_decimal(a0.tx_next_id as int) }),
        ]);
        if !done {
            assert(resp@.messages =~= Seq::<EffectV>::empty());
        }
    }
    Ok(resp)
}

/// Co-signs a pending transaction. The caller must be a signer and the
/// record must still be `Pending`. The caller is appended to the record's
/// signer list; if the list then meets the current threshold the record
/// moves to `Done` and its payload is released, otherwise it stays
/// `Pending` with nothing dispatched.
pub fn sign_transaction(acct: &mut Account, sender: String, tx_id: u16) -> (r: Result<
    Response,
    ContractError,
>)
    requires
        old(acct)@.wf(),
    ensures
        final(acct)@.wf(),
        final(acct)@ == sign_transaction_spec(old(acct)@, sender@, tx_id).0,
        result_view(r) == sign_transaction_spec(old(acct)@, sender@, tx_id).1,
{
    let ghost a0 = acct@;
    if !acct.state.can_execute(&sender) {
        return Err(ContractError::Unauthorized { sender });
    }
    if tx_id < INIT_TX_ID || (tx_id - INIT_TX_ID) as usize >= acct.tx_executions.len() {
        return Err(ContractError::NotFound { tx_id });
    }
    let idx = (tx_id - INIT_TX_ID) as usize;
    let pending = match acct.tx_executions[idx].status {
        Some(TxStatus::Pending) => true,
        _ => false,
    };
    if !pending {
        proof {
            assert(a0.tx_executions[idx as int].status != Some(TxStatus::Pending));
        }
        return Err(ContractError::InvalidStatus { tx_id });
    }
    let threshold = acct.state.threshold;
    let ghost pre = acct.tx_executions;
    let ghost tx0 = acct.tx_executions@[idx as int]@;
    let (sufficient, response_msgs) = {
        let tx = &mut acct.tx_executions[idx];
        tx.signers.push(sender);
        let sufficient = is_sufficient_signers(threshold, tx.signers.len());
        let response_msgs: Vec<Effect> = if sufficient {
            tx.status = Some(TxStatus::Done);
            clone_effects(&tx.msgs)
        } else {
            Vec::new()
        };
        (sufficient, response_msgs)
    };
    proof {
        lemma_push_deep_view(
            pre@[idx as int].signers,
            acct.tx_executions@[idx as int].signers,
            acct.tx_executions@[idx as int].signers@[tx0.signers.len() as int],
        );
        lemma_update_deep_view(
            pre,
            acct.tx_executions,
            idx as int,
            acct.tx_executions@[idx as int],
        );
        let signers1 = tx0.signers.push(sender@);
        let done = spec_sufficient_signers(a0.state.threshold, signers1.len() as int);
        assert(sufficient == done);
        assert(acct.tx_executions@[idx as int]@ =~= (TxDataV {
            signers: signers1,
            status: Some(if done { TxStatus::Done } else { TxStatus::Pending }),
            ..tx0
        }));
        assert(acct@ =~= (AccountV {
            tx_executions: a0.tx_executions.update(
                idx as int,
                acct.tx_executions@[idx as int]@,
            ),
            ..a0
        }));
    }
    let attributes = vec![
        attr("action", "sign_transaction"),
        attr_value("tx_id", decimal_string(tx_id as u64)),
    ];
    let resp = Response { messages: response_msgs, attributes };
    proof {
        assert(resp@.attributes =~= seq![
            (AttributeV { key: "action"@, value: "sign_transaction"@ }),
            (AttributeV { key: "tx_id"@, value: spec_decimal(tx_id as int) }),
        ]);
        if !sufficient {
            assert(resp@.messages =~= Seq::<EffectV>::empty());
        }
    }
    Ok(resp)
}

/// Replaces the admin identity. Only the admin may do this, and only while
/// the configuration is mutable.
pub fn change_admin(acct: &mut Account, sender: String, new_admin: String) -> (r: Result<
    Response,
    ContractError,
>)
    requires
        old(acct)@.wf(),
    ensures
        final(acct)@.wf(),
        ({
            let a0 = old(acct)@;
            if !a0.state.can_modify(sender@) {
                final(acct)@ == a0 && (r matches Err(e) && e@ == (ContractErrorV::Unauthorized {
                    sender: sender@,
                }))
            } else {
                final(acct)@ == (AccountV {
                    state: (StateV { admin: new_admin@, ..a0.state }),
                    ..a0
                }) && (r matches Ok(resp) && resp@ == (ResponseV {
                    messages: Seq::<EffectV>::empty(),
                    attributes: seq![
                        (AttributeV { key: "action"@, value: "change_admin"@ }),
                        (AttributeV { key: "new_admin"@, value: new_admin@ }),
                    ],
                }))
            }
        }),
{
    let ghost a0 = acct@;
    if !acct.state.can_modify(&sender) {
        return Err(ContractError::Unauthorized { sender });
    }
    let attributes = vec![
        attr("action", "change_admin"),
        attr_value("new_admin", new_admin.clone()),
    ];
    acct.state.admin = new_admin;
    let resp = Response { messages: Vec::new(), attributes };
    proof {
        assert(acct@ =~= (AccountV {
            state: (StateV { admin: acct.state.admin@, ..a0.state }),
            ..a0
        }));
        assert(resp@ =~= (ResponseV {
            messages: Seq::<EffectV>::empty(),
            attributes: seq![
                (AttributeV { key: "action"@, value: "change_admin"@ }),
                (AttributeV { key: "new_admin"@, value: acct.state.admin@ }),
            ],
        }));
    }
    Ok(resp)
}

/// Replaces the approval threshold. Only the admin may do this while the
/// configuration is mutable, and the new threshold must fit the current
/// signer set; a change that would leave the threshold zero or above the
/// signer count is rejected with nothing touched.
pub fn change_threshold(acct: &mut Account, sender: String, new_threshold: u8) -> (r: Result<
    Response,
    ContractError,
>)
    requires
        old(acct)@.wf(),
    ensures
        final(acct)@.wf(),
        ({
            let a0 = old(acct)@;
            if !a0.state.can_modify(sender@) {
                final(acct)@ == a0 && (r matches Err(e) && e@ == (ContractErrorV::Unauthorized {
                    sender: sender@,
                }))
            } else if !spec_valid_threshold(new_threshold, a0.state.signers.len() as int) {
                final(acct)@ == a0 && (r matches Err(e) && e@ == (ContractErrorV::InvalidThreshold {
                    threshold: new_threshold,
                }))
            } else {
                final(acct)@ == (AccountV {
                    state: (StateV { threshold: new_threshold, ..a0.state }),
                    ..a0
                }) && (r matches Ok(resp) && resp@ == (ResponseV {
                    messages: Seq::<EffectV>::empty(),
                    attributes: seq![
                        (AttributeV { key: "action"@, value: "change_threshold"@ }),
                        (AttributeV {
                            key: "new_threshold"@,
                            value: spec_decimal(new_threshold as int),
                        }),
                    ],
                }))
            }
        }),
{
    let ghost a0 = acct@;
    if !acct.state.can_modify(&sender) {
        return Err(ContractError::Unauthorized { sender });
    }
    if !is_valid_threshold(new_threshold, acct.state.signers.len()) {
        return Err(ContractError::InvalidThreshold { threshold: new_threshold });
    }
    let attributes = vec![
        attr("action", "change_threshold"),
        attr_value("new_threshold", decimal_string(new_threshold as u64)),
    ];
    acct.state.threshold = new_threshold;
    let resp = Response { messages: Vec::new(), attributes };
    proof {
        assert(acct@ =~= (AccountV {
            state: (StateV { threshold: new_threshold, ..a0.state }),
            ..a0
        }));
        assert(resp@ =~= (ResponseV {
            messages: Seq::<EffectV>::empty(),
            attributes: seq![
                (AttributeV { key: "action"@, value: "change_threshold"@ }),
                (AttributeV { key: "new_threshold"@, value: spec_decimal(new_threshold as int) }),
            ],
        }));
    }
    Ok(resp)
}

/// Switches the recipient whitelist on or off. Only the admin may do this
/// while the configuration is mutable.
pub fn change_whitelist_enabled(acct: &mut Account, sender: String, enabled: bool) -> (r: Result<
    Response,
    ContractError,
>)
    requires
        old(acct)@.wf(),
    ensures
        final(acct)@.wf(),
        ({
            let a0 = old(acct)@;
            if !a0.state.can_modify(sender@) {
                final(acct)@ == a0 && (r matches Err(e) && e@ == (ContractErrorV::Unauthorized {
                    sender: sender@,
                }))
            } else {
                final(acct)@ == (AccountV {
                    policy: (PolicyV { whitelist_enabled: enabled, ..a0.policy }),
                    ..a0
                }) && (r matches Ok(resp) && resp@ == (ResponseV {
                    messages: Seq::<EffectV>::empty(),
                    attributes: seq![
                        (AttributeV { key: "action"@, value: "change_whitelist_enabled"@ }),
                        (AttributeV {
                            key: "new_whitelist_enabled"@,
                            value: spec_bool_chars(enabled),
                        }),
                    ],
                }))
            }
        }),
{
    let ghost a0 = acct@;
    if !acct.state.can_modify(&sender) {
        return Err(ContractError::Unauthorized { sender });
    }
    let attributes = vec![
        attr("action", "change_whitelist_enabled"),
        attr_value("new_whitelist_enabled", bool_string(enabled)),
    ];
    acct.policy.whitelist_enabled = enabled;
    let resp = Response { messages: Vec::new(), attributes };
    proof {
        assert(acct@ =~= (AccountV {
            policy: (PolicyV { whitelist_enabled: enabled, ..a0.policy }),
            ..a0
        }));
        assert(resp@ =~= (ResponseV {
            messages: Seq::<EffectV>::empty(),
            attributes: seq![
                (AttributeV { key: "action"@, value: "change_whitelist_enabled"@ }),
                (AttributeV { key: "new_whitelist_enabled"@, value: spec_bool_chars(enabled) }),
            ],
        }));
    }
    Ok(resp)
}

/// Appends identities to the signer set. Only the admin may do this while
/// the configuration is mutable. Entries are appended as given; duplicates
/// are not filtered at this layer.
pub fn add_signers(acct: &mut Account, sender: String, signers: Vec<String>) -> (r: Result<
    Response,
    ContractError,
>)
    requires
        old(acct)@.wf(),
    ensures
        final(acct)@.wf(),
        ({
            let a0 = old(acct)@;
            if !a0.state.can_modify(sender@) {
                final(acct)@ == a0 && (r matches Err(e) && e@ == (ContractErrorV::Unauthorized {
                    sender: sender@,
                }))
            } else {
                final(acct)@ == (AccountV {
                    state: (StateV {
                        signers: a0.state.signers + signers.deep_view(),
                        ..a0.state
                    }),
                    ..a0
                }) && (r matches Ok(resp) && resp@ == (ResponseV {
                    messages: Seq::<EffectV>::empty(),
                    attributes: seq![(AttributeV { key: "action"@, value: "add_signers"@ })],
                }))
            }
        }),
{
    let ghost a0 = acct@;
    if !acct.state.can_modify(&sender) {
        return Err(ContractError::Unauthorized { sender });
    }
    let mut signers = signers;
    let ghost pre = acct.state.signers;
    let ghost added = signers;
    acct.state.signers.append(&mut signers);
    let resp = Response { messages: Vec::new(), attributes: vec![attr("action", "add_signers")] };
    proof {
        lemma_append_deep_view(pre, added, acct.state.signers);
        assert(acct@ =~= (AccountV {
            state: (StateV { signers: a0.state.signers + added.deep_view(), ..a0.state }),
            ..a0
        }));
        assert(resp@ =~= (ResponseV {
            messages: Seq::<EffectV>::empty(),
            attributes: seq![(AttributeV { key: "action"@, value: "add_signers"@ })],
        }));
    }
    Ok(resp)
}

/// Releases a direct spend of the account's balance: one transfer effect to
/// the given recipient. Only a signer may do this. Nothing is recorded in
/// the ledger; the transfer is handed out at once.
pub fn spend_balances(acct: &Account, sender: String, recipient: String, amount: Vec<Coin>) -> (r:
    Result<Response, ContractError>)
    ensures
        ({
            let a0 = acct@;
            if !a0.state.can_spend(sender@) {
                r matches Err(e) && e@ == (ContractErrorV::Unauthorized { sender: sender@ })
            } else {
                r matches Ok(resp) && resp@ == (ResponseV {
                    messages: seq![
                        (EffectV::Send { to_address: recipient@, amount: amount.deep_view() }),
                    ],
                    attributes: seq![
                        (AttributeV { key: "action"@, value: "spend_balances"@ }),
                        (AttributeV { key: "recipient"@, value: recipient@ }),
                    ],
                })
            }
        }),
{
    if !acct.state.can_spend(&sender) {
        return Err(ContractError::Unauthorized { sender });
    }
    let attributes = vec![
        attr("action", "spend_balances"),
        attr_value("recipient", recipient.clone()),
    ];
    let ghost rv = recipient@;
    let ghost av = amount.deep_view();
    let messages = vec![Effect::Send { to_address: recipient, amount }];
    let resp = Response { messages, attributes };
    proof {
        assert(resp@ =~= (ResponseV {
            messages: seq![(EffectV::Send { to_address: rv, amount: av })],
            attributes: seq![
                (AttributeV { key: "action"@, value: "spend_balances"@ }),
                (AttributeV { key: "recipient"@, value: rv }),
            ],
        }));
    }
    Ok(resp)
}

/// Releases a batch of effects verbatim. Only a signer may do this.
/// Nothing is recorded in the ledger and no policy check is applied; the
/// whole payload is handed out at once.
pub fn execute_messages(acct: &Account, sender: String, msgs: Vec<Effect>) -> (r: Result<
    Response,
    ContractError,
>)
    ensures
        ({
            let a0 = acct@;
            if !a0.state.can_execute(sender@) {
                r matches Err(e) && e@ == (ContractErrorV::Unauthorized { sender: sender@ })
            } else {
                r matches Ok(resp) && resp@ == (ResponseV {
                    messages: msgs.deep_view(),
                    attributes: seq![
                        (AttributeV { key: "action"@, value: "execute_messages"@ }),
                    ],
                })
            }
        }),
{
    if !acct.state.can_execute(&sender) {
        return Err(ContractError::Unauthorized { sender });
    }
    let ghost mv = msgs.deep_view();
    let resp = Response {
        messages: msgs,
        attributes: vec![attr("action", "execute_messages")],
    };
    proof {
        assert(resp@ =~= (ResponseV {
            messages: mv,
            attributes: seq![(AttributeV { key: "action"@, value: "execute_messages"@ })],
        }));
    }
    Ok(resp)
}

/// The identities kept after deleting every one named for removal, in
/// their original order.
pub open spec fn remove_listed(cur: Seq<Seq<char>>, rm: Seq<Seq<char>>) -> Seq<Seq<char>>
    decreases cur.len(),
{
    if cur.len() == 0 {
        Seq::empty()
    } else {
        let rest = remove_listed(cur.drop_last(), rm);
        if rm.contains(cur.last()) {
            rest
        } else {
            rest.push(cur.last())
        }
    }
}

/// The ceilings kept after deleting the named denominations, in their
/// original order.
pub open spec fn remove_limits_listed(cur: Seq<CoinV>, denoms: Seq<Seq<char>>) -> Seq<CoinV>
    decreases cur.len(),
{
    if cur.len() == 0 {
        Seq::empty()
    } else {
        let rest = remove_limits_listed(cur.drop_last(), denoms);
        if denoms.contains(cur.last().denom) {
            rest
        } else {
            rest.push(cur.last())
        }
    }
}

/// The whitelist extended by each new address not yet present, in the
/// order the additions are given.
pub open spec fn whitelist_union(cur: Seq<Seq<char>>, add: Seq<Seq<char>>) -> Seq<Seq<char>>
    decreases add.len(),
{
    if add.len() == 0 {
        cur
    } else {
        let cur1 = if cur.contains(add[0]) {
            cur
        } else {
            cur.push(add[0])
        };
        whitelist_union(cur1, add.drop_first())
    }
}

/// One ceiling upserted: overwritten where its denomination already has
/// one, appended otherwise.
pub open spec fn upsert_limit(cur: Seq<CoinV>, c: CoinV) -> Seq<CoinV> {
    if exists|i: int| 0 <= i < cur.len() && cur[i].denom == c.denom {
        let i = choose|i: int| 0 <= i < cur.len() && cur[i].denom == c.denom;
        cur.update(i, c)
    } else {
        cur.push(c)
    }
}

/// Every given ceiling upserted, left to right.
pub open spec fn upsert_limits(cur: Seq<CoinV>, coins: Seq<CoinV>) -> Seq<CoinV>
    decreases coins.len(),
{
    if coins.len() == 0 {
        cur
    } else {
        upsert_limits(upsert_limit(cur, coins[0]), coins.drop_first())
    }
}

/// Deletes identities from the signer set. Only the admin may do this
/// while the configuration is mutable, and the shrunken set must still
/// carry the current threshold; otherwise nothing is touched.
#[verifier::loop_isolation(false)]
pub fn remove_signers(acct: &mut Account, sender: String, signers: Vec<String>) -> (r: Result<
    Response,
    ContractError,
>)
    requires
        old(acct)@.wf(),
    ensures
        final(acct)@.wf(),
        ({
            let a0 = old(acct)@;
            let rm = signers.deep_view();
            if !a0.state.can_modify(sender@) {
                final(acct)@ == a0 && (r matches Err(e) && e@ == (ContractErrorV::Unauthorized {
                    sender: sender@,
                }))
            } else {
                let kept = remove_listed(a0.state.signers, rm);
                if !spec_valid_threshold(a0.state.threshold, kept.len() as int) {
                    final(acct)@ == a0 && (r matches Err(e) && e@
                        == (ContractErrorV::InvalidThreshold { threshold: a0.state.threshold }))
                } else {
                    final(acct)@ == (AccountV { state: (StateV { signers: kept, ..a0.state }), ..a0 })
                        && (r matches Ok(resp) && resp@ == (ResponseV {
                        messages: Seq::<EffectV>::empty(),
                        attributes: seq![(AttributeV { key: "action"@, value: "remove_signers"@ })],
                    }))
                }
            }
        }),
{
    let ghost a0 = acct@;
    if !acct.state.can_modify(&sender) {
        return Err(ContractError::Unauthorized { sender });
    }
    let ghost rm = signers.deep_view();
    let ghost cur = acct.state.signers.deep_view();
    let mut kept: Vec<String> = Vec::new();
    let n = acct.state.signers.len();
    proof {
        assert(cur.take(0) =~= Seq::<Seq<char>>::empty());
    }
    for i in 0..n
        invariant
            kept.deep_view() == remove_listed(cur.take(i as int), rm),
    {
        let ghost pre = kept;
        proof {
            assert(cur.take(i + 1).drop_last() =~= cur.take(i as int));
            assert(cur[i as int] == acct.state.signers@[i as int]@);
        }
        if !contains_string(&signers, &acct.state.signers[i]) {
            kept.push(acct.state.signers[i].clone());
            proof {
                lemma_push_deep_view(pre, kept, kept@[pre@.len() as int]);
            }
        }
    }
    proof {
        assert(cur.take(n as int) =~= cur);
    }
    if !is_valid_threshold(acct.state.threshold, kept.len()) {
        return Err(ContractError::InvalidThreshold { threshold: acct.state.threshold });
    }
    acct.state.signers = kept;
    let resp = Response {
        messages: Vec::new(),
        attributes: vec![attr("action", "remove_signers")],
    };
    proof {
        assert(acct@ =~= (AccountV {
            state: (StateV { signers: remove_listed(cur, rm), ..a0.state }),
            ..a0
        }));
        assert(resp@ =~= (ResponseV {
            messages: Seq::<EffectV>::empty(),
            attributes: seq![(AttributeV { key: "action"@, value: "remove_signers"@ })],
        }));
    }
    Ok(resp)
}

/// Adds recipients to the whitelist, skipping those already present. Only
/// the admin may do this while the configuration is mutable.
#[verifier::loop_isolation(false)]
pub fn set_whitelist_addresses(acct: &mut Account, sender: String, addresses: Vec<String>) -> (r:
    Result<Response, ContractError>)
    requires
        old(acct)@.wf(),
    ensures
        final(acct)@.wf(),
        ({
            let a0 = old(acct)@;
            if !a0.state.can_modify(sender@) {
                final(acct)@ == a0 && (r matches Err(e) && e@ == (ContractErrorV::Unauthorized {
                    sender: sender@,
                }))
            } else {
                final(acct)@ == (AccountV {
                    policy: (PolicyV {
                        whitelist_addresses: whitelist_union(
                            a0.policy.whitelist_addresses,
                            addresses.deep_view(),
                        ),
                        ..a0.policy
                    }),
                    ..a0
                }) && (r matches Ok(resp) && resp@ == (ResponseV {
                    messages: Seq::<EffectV>::empty(),
                    attributes: seq![
                        (AttributeV { key: "action"@, value: "add_whitelist_addresses"@ }),
                    ],
                }))
            }
        }),
{
    let ghost a0 = acct@;
    if !acct.state.can_modify(&sender) {
        return Err(ContractError::Unauthorized { sender });
    }
    let ghost add_dv = addresses.deep_view();
    proof {
        assert(add_dv.skip(0) =~= add_dv);
    }
    let n = addresses.len();
    for i in 0..n
        invariant
            whitelist_union(a0.policy.whitelist_addresses, add_dv) == whitelist_union(
                acct.policy.whitelist_addresses.deep_view(),
                add_dv.skip(i as int),
            ),
            forall|j: int, k: int|
                0 <= j < k < acct.policy.whitelist_addresses.deep_view().len()
                    ==> acct.policy.whitelist_addresses.deep_view()[j]
                    != acct.policy.whitelist_addresses.deep_view()[k],
            acct@.state == a0.state,
            acct@.tx_next_id == a0.tx_next_id,
            acct@.tx_executions == a0.tx_executions,
            acct@.policy.whitelist_enabled == a0.policy.whitelist_enabled,
            acct@.policy.transfer_limits == a0.policy.transfer_limits,
    {
        proof {
            assert(add_dv[i as int] == addresses@[i as int]@);
            assert(add_dv.skip(i as int)[0] == add_dv[i as int]);
            assert(add_dv.skip(i as int).drop_first() =~= add_dv.skip(i + 1));
        }
        let present = contains_string(&acct.policy.whitelist_addresses, &addresses[i]);
        if !present {
            let ghost pre = acct.policy.whitelist_addresses;
            acct.policy.whitelist_addresses.push(addresses[i].clone());
            proof {
                lemma_push_deep_view(
                    pre,
                    acct.policy.whitelist_addresses,
                    acct.policy.whitelist_addresses@[pre@.len() as int],
                );
                assert forall|j: int, k: int|
                    0 <= j < k < acct.policy.whitelist_addresses.deep_view().len()
                        implies acct.policy.whitelist_addresses.deep_view()[j]
                        != acct.policy.whitelist_addresses.deep_view()[k] by {
                    if k == pre.deep_view().len() {
                        assert(!pre.deep_view().contains(add_dv[i as int]));
                        assert(pre.deep_view()[j] != add_dv[i as int]);
                    }
                }
            }
        }
    }
    proof {
        assert(add_dv.skip(n as int) =~= Seq::<Seq<char>>::empty());
    }
    let resp = Response {
        messages: Vec::new(),
        attributes: vec![attr("action", "add_whitelist_addresses")],
    };
    proof {
        assert(acct@ =~= (AccountV {
            policy: (PolicyV {
                whitelist_addresses: whitelist_union(a0.policy.whitelist_addresses, add_dv),
                ..a0.policy
            }),
            ..a0
        }));
        assert(resp@ =~= (ResponseV {
            messages: Seq::<EffectV>::empty(),
            attributes: seq![(AttributeV { key: "action"@, value: "add_whitelist_addresses"@ })],
        }));
    }
    Ok(resp)
}

/// Deletes recipients from the whitelist. Only the admin may do this while
/// the configuration is mutable.
#[verifier::loop_isolation(false)]
pub fn remove_whitelist_addresses(acct: &mut Account, sender: String, addresses: Vec<String>) -> (r:
    Result<Response, ContractError>)
    requires
        old(acct)@.wf(),
    ensures
        final(acct)@.wf(),
        ({
            let a0 = old(acct)@;
            if !a0.state.can_modify(sender@) {
                final(acct)@ == a0 && (r matches Err(e) && e@ == (ContractErrorV::Unauthorized {
                    sender: sender@,
                }))
            } else {
                final(acct)@ == (AccountV {
                    policy: (PolicyV {
                        whitelist_addresses: remove_listed(
                            a0.policy.whitelist_addresses,
                            addresses.deep_view(),
                        ),
                        ..a0.policy
                    }),
                    ..a0
                }) && (r matches Ok(resp) && resp@ == (ResponseV {
                    messages: Seq::<EffectV>::empty(),
                    attributes: seq![
                        (AttributeV { key: "action"@, value: "remove_whitelist_addresses"@ }),
                    ],
                }))
            }
        }),
{
    let ghost a0 = acct@;
    if !acct.state.can_modify(&sender) {
        return Err(ContractError::Unauthorized { sender });
    }
    let ghost rm = addresses.deep_view();
    let ghost cur = acct.policy.whitelist_addresses.deep_view();
    let mut kept: Vec<String> = Vec::new();
    let n = acct.policy.whitelist_addresses.len();
    proof {
        assert(cur.take(0) =~= Seq::<Seq<char>>::empty());
    }
    for i in 0..n
        invariant
            kept.deep_view() == remove_listed(cur.take(i as int), rm),
            forall|p: int|
                0 <= p < kept.deep_view().len() ==> cur.take(i as int).contains(
                    #[trigger] kept.deep_view()[p],
                ),
    {
        let ghost pre = kept;
        proof {
            assert(cur.take(i + 1).drop_last() =~= cur.take(i as int));
            assert(cur[i as int] == acct.policy.whitelist_addresses@[i as int]@);
        }
        if !contains_string(&addresses, &acct.policy.whitelist_addresses[i]) {
            kept.push(acct.policy.whitelist_addresses[i].clone());
            proof {
                lemma_push_deep_view(pre, kept, kept@[pre@.len() as int]);
                assert forall|p: int|
                    0 <= p < kept.deep_view().len() implies cur.take(i + 1).contains(
                    #[trigger] kept.deep_view()[p],
                ) by {
                    if p < pre.deep_view().len() {
                        let q = choose|q: int|
                            0 <= q < cur.take(i as int).len() && cur.take(i as int)[q]
                                == pre.deep_view()[p];
                        assert(cur.take(i + 1)[q] == kept.deep_view()[p]);
                    } else {
                        assert(cur.take(i + 1)[i as int] == kept.deep_view()[p]);
                    }
                }
            }
        } else {
            proof {
                assert forall|p: int|
                    0 <= p < kept.deep_view().len() implies cur.take(i + 1).contains(
                    #[trigger] kept.deep_view()[p],
                ) by {
                    let q = choose|q: int|
                        0 <= q < cur.take(i as int).len() && cur.take(i as int)[q]
                            == kept.deep_view()[p];
                    assert(cur.take(i + 1)[q] == kept.deep_view()[p]);
                }
            }
        }
    }
    proof {
        assert(cur.take(n as int) =~= cur);
    }
    let ghost keptv = kept.deep_view();
    acct.policy.whitelist_addresses = kept;
    let resp = Response {
        messages: Vec::new(),
        attributes: vec![attr("action", "remove_whitelist_addresses")],
    };
    proof {
        assert forall|j: int, k: int| 0 <= j < k < keptv.len() implies keptv[j] != keptv[k] by {
            lemma_remove_listed_distinct_positions(cur, rm, j, k);
        }
        assert(acct@ =~= (AccountV {
            policy: (PolicyV { whitelist_addresses: remove_listed(cur, rm), ..a0.policy }),
            ..a0
        }));
        assert(resp@ =~= (ResponseV {
            messages: Seq::<EffectV>::empty(),
            attributes: seq![
                (AttributeV { key: "action"@, value: "remove_whitelist_addresses"@ }),
            ],
        }));
    }
    Ok(resp)
}

/// Two distinct positions of a filtered distinct list stay distinct.
proof fn lemma_remove_listed_distinct_positions(
    cur: Seq<Seq<char>>,
    rm: Seq<Seq<char>>,
    j: int,
    k: int,
)
    requires
        forall|p: int, q: int| 0 <= p < q < cur.len() ==> cur[p] != cur[q],
        0 <= j < k < remove_listed(cur, rm).len(),
    ensures
        remove_listed(cur, rm)[j] != remove_listed(cur, rm)[k],
    decreases cur.len(),
{
    let res = remove_listed(cur, rm);
    let rest = remove_listed(cur.drop_last(), rm);
    lemma_remove_listed_subset(cur.drop_last(), rm);
    if rm.contains(cur.last()) {
        lemma_remove_listed_distinct_positions(cur.drop_last(), rm, j, k);
    } else {
        if k < rest.len() {
            lemma_remove_listed_distinct_positions(cur.drop_last(), rm, j, k);
        } else {
            assert(res[k] == cur.last());
            assert(rest.contains(rest[j]));
            let q = choose|q: int| 0 <= q < cur.drop_last().len() && cur.drop_last()[q] == rest[j];
            assert(cur[q] == rest[j]);
            assert(cur[q] != cur.last());
        }
    }
}

/// Everything a removal keeps was already in the list.
proof fn lemma_remove_listed_subset(cur: Seq<Seq<char>>, rm: Seq<Seq<char>>)
    ensures
        forall|p: int|
            0 <= p < remove_listed(cur, rm).len() ==> cur.contains(
                #[trigger] remove_listed(cur, rm)[p],
            ),
    decreases cur.len(),
{
    let res = remove_listed(cur, rm);
    if cur.len() > 0 {
        lemma_remove_listed_subset(cur.drop_last(), rm);
        let rest = remove_listed(cur.drop_last(), rm);
        assert forall|p: int| 0 <= p < res.len() implies cur.contains(#[trigger] res[p]) by {
            if p < rest.len() {
                let q = choose|q: int|
                    0 <= q < cur.drop_last().len() && cur.drop_last()[q] == rest[p];
                assert(cur[q] == res[p]);
            } else {
                assert(res[p] == cur.last());
                assert(cur[cur.len() - 1] == res[p]);
            }
        }
    }
}

/// Finds the position of the ceiling configured for a denomination.
fn find_limit(limits: &Vec<Coin>, denom: &String) -> (r: Option<usize>)
    ensures
        match r {
            Some(j) => j < limits@.len() && limits.deep_view()[j as int].denom == denom@,
            None => forall|k: int|
                0 <= k < limits@.len() ==> limits.deep_view()[k].denom != denom@,
        },
{
    let n = limits.len();
    for j in 0..n
        invariant
            n == limits.len(),
            forall|k: int| 0 <= k < j ==> limits.deep_view()[k].denom != denom@,
    {
        if limits[j].denom == *denom {
            proof {
                assert(limits.deep_view()[j as int].denom == denom@);
            }
            return Some(j);
        }
    }
    None
}

/// Upserts per-denomination ceilings: each given ceiling overwrites the one
/// of its denomination, or is added where none was configured. Ceilings not
/// named are untouched. Only the admin may do this while the configuration
/// is mutable.
#[verifier::loop_isolation(false)]
pub fn set_transfer_limits(acct: &mut Account, sender: String, coins: Vec<Coin>) -> (r: Result<
    Response,
    ContractError,
>)
    requires
        old(acct)@.wf(),
    ensures
        final(acct)@.wf(),
        ({
            let a0 = old(acct)@;
            if !a0.state.can_modify(sender@) {
                final(acct)@ == a0 && (r matches Err(e) && e@ == (ContractErrorV::Unauthorized {
                    sender: sender@,
                }))
            } else {
                final(acct)@ == (AccountV {
                    policy: (PolicyV {
                        transfer_limits: upsert_limits(
                            a0.policy.transfer_limits,
                            coins.deep_view(),
                        ),
                        ..a0.policy
                    }),
                    ..a0
                }) && (r matches Ok(resp) && resp@ == (ResponseV {
                    messages: Seq::<EffectV>::empty(),
                    attributes: seq![
                        (AttributeV { key: "action"@, value: "set_transfer_limits"@ }),
                    ],
                }))
            }
        }),
{
    let ghost a0 = acct@;
    if !acct.state.can_modify(&sender) {
        return Err(ContractError::Unauthorized { sender });
    }
    let ghost cv = coins.deep_view();
    proof {
        assert(cv.skip(0) =~= cv);
    }
    let n = coins.len();
    for i in 0..n
        invariant
            upsert_limits(a0.policy.transfer_limits, cv) == upsert_limits(
                acct.policy.transfer_limits.deep_view(),
                cv.skip(i as int),
            ),
            forall|j: int, k: int|
                0 <= j < k < acct.policy.transfer_limits.deep_view().len()
                    ==> acct.policy.transfer_limits.deep_view()[j].denom
                    != acct.policy.transfer_limits.deep_view()[k].denom,
            acct@.state == a0.state,
            acct@.tx_next_id == a0.tx_next_id,
            acct@.tx_executions == a0.tx_executions,
            acct@.policy.whitelist_enabled == a0.policy.whitelist_enabled,
            acct@.policy.whitelist_addresses == a0.policy.whitelist_addresses,
    {
        let ghost lim = acct.policy.transfer_limits.deep_view();
        proof {
            assert(cv[i as int] == coins@[i as int]@);
            assert(cv.skip(i as int)[0] == cv[i as int]);
            assert(cv.skip(i as int).drop_first() =~= cv.skip(i + 1));
        }
        let new_coin = Coin { denom: coins[i].denom.clone(), amount: coins[i].amount };
        proof {
            assert(new_coin@ =~= cv[i as int]);
        }
        match find_limit(&acct.policy.transfer_limits, &coins[i].denom) {
            Some(j) => {
                let ghost pre = acct.policy.transfer_limits;
                let slot = &mut acct.policy.transfer_limits[j];
                *slot = new_coin;
                proof {
                    lemma_update_deep_view(
                        pre,
                        acct.policy.transfer_limits,
                        j as int,
                        acct.policy.transfer_limits@[j as int],
                    );
                    let picked = choose|p: int|
                        0 <= p < lim.len() && lim[p].denom == cv[i as int].denom;
                    assert(lim[j as int].denom == cv[i as int].denom);
                    assert(picked == j as int);
                    assert(upsert_limit(lim, cv[i as int]) == lim.update(
                        j as int,
                        cv[i as int],
                    ));
                }
            },
            None => {
                let ghost pre = acct.policy.transfer_limits;
                acct.policy.transfer_limits.push(new_coin);
                proof {
                    lemma_push_deep_view(
                        pre,
                        acct.policy.transfer_limits,
                        acct.policy.transfer_limits@[pre@.len() as int],
                    );
                    assert(!(exists|p: int|
                        0 <= p < lim.len() && lim[p].denom == cv[i as int].denom));
                    assert(upsert_limit(lim, cv[i as int]) == lim.push(cv[i as int]));
                }
            },
        }
    }
    proof {
        assert(cv.skip(n as int) =~= Seq::<CoinV>::empty());
    }
    let resp = Response {
        messages: Vec::new(),
        attributes: vec![attr("action", "set_transfer_limits")],
    };
    proof {
        assert(acct@ =~= (AccountV {
            policy: (PolicyV {
                transfer_limits: upsert_limits(a0.policy.transfer_limits, cv),
                ..a0.policy
            }),
            ..a0
        }));
        assert(resp@ =~= (ResponseV {
            messages: Seq::<EffectV>::empty(),
            attributes: seq![(AttributeV { key: "action"@, value: "set_transfer_limits"@ })],
        }));
    }
    Ok(resp)
}

/// Deletes the ceilings of the named denominations; others stay. Only the
/// admin may do this while the configuration is mutable.
#[verifier::loop_isolation(false)]
pub fn remove_transfer_limits(acct: &mut Account, sender: String, denoms: Vec<String>) -> (r:
    Result<Response, ContractError>)
    requires
        old(acct)@.wf(),
    ensures
        final(acct)@.wf(),
        ({
            let a0 = old(acct)@;
            if !a0.state.can_modify(sender@) {
                final(acct)@ == a0 && (r matches Err(e) && e@ == (ContractErrorV::Unauthorized {
                    sender: sender@,
                }))
            } else {
                final(acct)@ == (AccountV {
                    policy: (PolicyV {
                        transfer_limits: remove_limits_listed(
                            a0.policy.transfer_limits,
                            denoms.deep_view(),
                        ),
                        ..a0.policy
                    }),
                    ..a0
                }) && (r matches Ok(resp) && resp@ == (ResponseV {
                    messages: Seq::<EffectV>::empty(),
                    attributes: seq![
                        (AttributeV { key: "action"@, value: "remove_transfer_limits"@ }),
                    ],
                }))
            }
        }),
{
    let ghost a0 = acct@;
    if !acct.state.can_modify(&sender) {
        return Err(ContractError::Unauthorized { sender });
    }
    let ghost rm = denoms.deep_view();
    let ghost cur = acct.policy.transfer_limits.deep_view();
    let mut kept: Vec<Coin> = Vec::new();
    let n = acct.policy.transfer_limits.len();
    proof {
        assert(cur.take(0) =~= Seq::<CoinV>::empty());
    }
    for i in 0..n
        invariant
            kept.deep_view() == remove_limits_listed(cur.take(i as int), rm),
            forall|p: int|
                0 <= p < kept.deep_view().len() ==> cur.take(i as int).contains(
                    #[trigger] kept.deep_view()[p],
                ),
    {
        let ghost pre = kept;
        proof {
            assert(cur.take(i + 1).drop_last() =~= cur.take(i as int));
            assert(cur[i as int] == acct.policy.transfer_limits@[i as int]@);
        }
        if !contains_string(&denoms, &acct.policy.transfer_limits[i].denom) {
            kept.push(acct.policy.transfer_limits[i].clone());
            proof {
                lemma_push_deep_view(pre, kept, kept@[pre@.len() as int]);
                assert forall|p: int|
                    0 <= p < kept.deep_view().len() implies cur.take(i + 1).contains(
                    #[trigger] kept.deep_view()[p],
                ) by {
                    if p < pre.deep_view().len() {
                        let q = choose|q: int|
                            0 <= q < cur.take(i as int).len() && cur.take(i as int)[q]
                                == pre.deep_view()[p];
                        assert(cur.take(i + 1)[q] == kept.deep_view()[p]);
                    } else {
                        assert(cur.take(i + 1)[i as int] == kept.deep_view()[p]);
                    }
                }
            }
        } else {
            proof {
                assert forall|p: int|
                    0 <= p < kept.deep_view().len() implies cur.take(i + 1).contains(
                    #[trigger] kept.deep_view()[p],
                ) by {
                    let q = choose|q: int|
                        0 <= q < cur.take(i as int).len() && cur.take(i as int)[q]
                            == kept.deep_view()[p];
                    assert(cur.take(i + 1)[q] == kept.deep_view()[p]);
                }
            }
        }
    }
    proof {
        assert(cur.take(n as int) =~= cur);
    }
    let ghost keptv = kept.deep_view();
    acct.policy.transfer_limits = kept;
    let resp = Response {
        messages: Vec::new(),
        attributes: vec![attr("action", "remove_transfer_limits")],
    };
    proof {
        assert forall|j: int, k: int|
            0 <= j < k < keptv.len() implies keptv[j].denom != keptv[k].denom by {
            lemma_remove_limits_listed_distinct_positions(cur, rm, j, k);
        }
        assert(acct@ =~= (AccountV {
            policy: (PolicyV { transfer_limits: remove_limits_listed(cur, rm), ..a0.policy }),
            ..a0
        }));
        assert(resp@ =~= (ResponseV {
            messages: Seq::<EffectV>::empty(),
            attributes: seq![(AttributeV { key: "action"@, value: "remove_transfer_limits"@ })],
        }));
    }
    Ok(resp)
}

/// Two distinct positions of a filtered ceiling list keep distinct
/// denominations.
proof fn lemma_remove_limits_listed_distinct_positions(
    cur: Seq<CoinV>,
    rm: Seq<Seq<char>>,
    j: int,
    k: int,
)
    requires
        forall|p: int, q: int| 0 <= p < q < cur.len() ==> cur[p].denom != cur[q].denom,
        0 <= j < k < remove_limits_listed(cur, rm).len(),
    ensures
        remove_limits_listed(cur, rm)[j].denom != remove_limits_listed(cur, rm)[k].denom,
    decreases cur.len(),
{
    let res = remove_limits_listed(cur, rm);
    let rest = remove_limits_listed(cur.drop_last(), rm);
    lemma_remove_limits_listed_subset(cur.drop_last(), rm);
    if rm.contains(cur.last().denom) {
        lemma_remove_limits_listed_distinct_positions(cur.drop_last(), rm, j, k);
    } else {
        if k < rest.len() {
            lemma_remove_limits_listed_distinct_positions(cur.drop_last(), rm, j, k);
        } else {
            assert(res[k] == cur.last());
            assert(rest.contains(rest[j]));
            let q = choose|q: int| 0 <= q < cur.drop_last().len() && cur.drop_last()[q] == rest[j];
            assert(cur[q] == rest[j]);
            assert(cur[q].denom != cur.last().denom);
        }
    }
}

/// Every ceiling a removal keeps was already configured.
proof fn lemma_remove_limits_listed_subset(cur: Seq<CoinV>, rm: Seq<Seq<char>>)
    ensures
        forall|p: int|
            0 <= p < remove_limits_listed(cur, rm).len() ==> cur.contains(
                #[trigger] remove_limits_listed(cur, rm)[p],
            ),
    decreases cur.len(),
{
    let res = remove_limits_listed(cur, rm);
    if cur.len() > 0 {
        lemma_remove_limits_listed_subset(cur.drop_last(), rm);
        let rest = remove_limits_listed(cur.drop_last(), rm);
        assert forall|p: int| 0 <= p < res.len() implies cur.contains(#[trigger] res[p]) by {
            if p < rest.len() {
                let q = choose|q: int|
                    0 <= q < cur.drop_last().len() && cur.drop_last()[q] == rest[p];
                assert(cur[q] == res[p]);
            } else {
                assert(res[p] == cur.last());
                assert(cur[cur.len() - 1] == res[p]);
            }
        }
    }
}

/// A proposal under a threshold of one creates the record directly in
/// `Done`, with the proposer as its only signer, and releases the payload
/// exactly once.
pub proof fn lemma_propose_done_when_threshold_one(a: AccountV, sender: Seq<char>, mv: Seq<EffectV>)
    requires
        a.wf(),
        a.state.can_execute(sender),
        first_policy_error(a.policy, mv) is None,
        a.state.threshold == 1,
        a.tx_next_id < u16::MAX,
    ensures
        ({
            let (a1, r) = execute_transaction_spec(a, sender, mv);
            &&& r matches Ok(resp) && resp.messages == mv
            &&& a1.tx_executions.len() == a.tx_executions.len() + 1
            &&& a1.tx_executions.last().status == Some(TxStatus::Done)
            &&& a1.tx_executions.last().signers == seq![sender]
            &&& a1.tx_executions.last().msgs == mv
        }),
{
}

/// A proposal under a threshold above one creates the record in `Pending`
/// and releases nothing.
pub proof fn lemma_propose_pending_when_threshold_above_one(
    a: AccountV,
    sender: Seq<char>,
    mv: Seq<EffectV>,
)
    requires
        a.wf(),
        a.state.can_execute(sender),
        first_policy_error(a.policy, mv) is None,
        a.state.threshold > 1,
        a.tx_next_id < u16::MAX,
    ensures
        ({
            let (a1, r) = execute_transaction_spec(a, sender, mv);
            &&& r matches Ok(resp) && resp.messages == Seq::<EffectV>::empty()
            &&& a1.tx_executions.len() == a.tx_executions.len() + 1
            &&& a1.tx_executions.last().status == Some(TxStatus::Pending)
            &&& a1.tx_executions.last().signers == seq![sender]
        }),
{
}

/// A signature that lifts a pending record's signer count to the current
/// threshold completes it: the record moves to `Done` and its payload is
/// released exactly once. Any further signature on the same record is then
/// rejected as `InvalidStatus` and changes nothing, so the payload can
/// never be released twice.
pub proof fn lemma_sign_completion_locks_record(
    a: AccountV,
    first: Seq<char>,
    second: Seq<char>,
    tx_id: u16,
)
    requires
        a.wf(),
        a.state.can_execute(first),
        a.state.can_execute(second),
        INIT_TX_ID <= tx_id,
        tx_id - INIT_TX_ID < a.tx_executions.len(),
        a.tx_executions[tx_id - INIT_TX_ID].status == Some(TxStatus::Pending),
        spec_sufficient_signers(
            a.state.threshold,
            a.tx_executions[tx_id - INIT_TX_ID].signers.len() as int + 1,
        ),
    ensures
        ({
            let (a1, r1) = sign_transaction_spec(a, first, tx_id);
            let (a2, r2) = sign_transaction_spec(a1, second, tx_id);
            &&& r1 matches Ok(resp) && resp.messages == a.tx_executions[tx_id - INIT_TX_ID].msgs
            &&& a1.tx_executions[tx_id - INIT_TX_ID].status == Some(TxStatus::Done)
            &&& a2 == a1
            &&& r2 == Err::<ResponseV, ContractErrorV>(ContractErrorV::InvalidStatus { tx_id })
        }),
{
}

/// A signature from outside the signer set is rejected as `Unauthorized`,
/// and one naming an id never handed out is rejected as `NotFound`; in
/// both cases nothing changes.
pub proof fn lemma_sign_rejections(a: AccountV, sender: Seq<char>, tx_id: u16)
    requires
        a.wf(),
    ensures
        !a.state.can_execute(sender) ==> sign_transaction_spec(a, sender, tx_id) == (
            a,
            Err::<ResponseV, ContractErrorV>(ContractErrorV::Unauthorized { sender }),
        ),
        a.state.can_execute(sender) && (tx_id < INIT_TX_ID || tx_id - INIT_TX_ID
            >= a.tx_executions.len()) ==> sign_transaction_spec(a, sender, tx_id) == (
            a,
            Err::<ResponseV, ContractErrorV>(ContractErrorV::NotFound { tx_id }),
        ),
{
}

/// A failed proposal leaves the account untouched; a successful one
/// advances the id counter by exactly one and appends a record carrying
/// the id the counter held, after the unchanged earlier records. Together
/// with the account invariant this keeps the ledger's ids strictly
/// ascending by one, so no id is ever reused.
pub proof fn lemma_proposal_ids(a: AccountV, sender: Seq<char>, mv: Seq<EffectV>)
    requires
        a.wf(),
        a.tx_next_id < u16::MAX,
    ensures
        ({
            let (a1, r) = execute_transaction_spec(a, sender, mv);
            &&& (r is Err ==> a1 == a)
            &&& (r is Ok ==> {
                &&& a1.tx_next_id == a.tx_next_id + 1
                &&& a1.tx_executions.len() == a.tx_executions.len() + 1
                &&& a1.tx_executions.last().id == a.tx_next_id
                &&& a1.tx_executions.take(a.tx_executions.len() as int) == a.tx_executions
            })
        }),
        forall|i: int, j: int|
            #![trigger a.tx_executions[i].id, a.tx_executions[j].id]
            0 <= i < j < a.tx_executions.len() ==> a.tx_executions[i].id < a.tx_executions[j].id,
{
    let (a1, r) = execute_transaction_spec(a, sender, mv);
    if r is Ok {
        assert(a1.tx_executions.take(a.tx_executions.len() as int) =~= a.tx_executions);
    }
}

/// A payload holding any effect the policy refuses cannot be proposed: the
/// first violation is reported and neither a record nor an id is consumed.
pub proof fn lemma_policy_blocks_proposal(
    a: AccountV,
    sender: Seq<char>,
    mv: Seq<EffectV>,
    i: int,
)
    requires
        a.wf(),
        0 <= i < mv.len(),
        effect_policy_error(a.policy, mv[i]) is Some,
    ensures
        execute_transaction_spec(a, sender, mv).0 == a,
        execute_transaction_spec(a, sender, mv).1 is Err,
{
    lemma_first_policy_error_some(a.policy, mv, i);
}

/// Whenever some effect of a payload violates the policy, the scan of the
/// whole payload reports a violation.
pub proof fn lemma_first_policy_error_some(p: PolicyV, msgs: Seq<EffectV>, i: int)
    requires
        0 <= i < msgs.len(),
        effect_policy_error(p, msgs[i]) is Some,
    ensures
        first_policy_error(p, msgs) is Some,
    decreases msgs.len(),
{
    if effect_policy_error(p, msgs[0]) is None {
        assert(msgs.drop_first()[i - 1] == msgs[i]);
        lemma_first_policy_error_some(p, msgs.drop_first(), i - 1);
    }
}

/// Whenever some amount of a transfer exceeds its denomination's ceiling,
/// the scan of the transfer's amounts reports a violation.
pub proof fn lemma_first_amount_error_some(p: PolicyV, amount: Seq<CoinV>, k: int)
    requires
        0 <= k < amount.len(),
        !p.can_transfer(amount[k]),
    ensures
        first_amount_error(p, amount) is Some,
    decreases amount.len(),
{
    if p.can_transfer(amount[0]) {
        assert(amount.drop_first()[k - 1] == amount[k]);
        lemma_first_amount_error_some(p, amount.drop_first(), k - 1);
    }
}

/// A transfer whose amount exceeds the ceiling of its denomination is an
/// effect the policy refuses, whatever its recipient.
pub proof fn lemma_ceiling_blocks_transfer(
    p: PolicyV,
    to_address: Seq<char>,
    amount: Seq<CoinV>,
    k: int,
)
    requires
        0 <= k < amount.len(),
        !p.can_transfer(amount[k]),
    ensures
        effect_policy_error(p, EffectV::Send { to_address, amount }) is Some,
{
    if p.can_receive(to_address) {
        lemma_first_amount_error_some(p, amount, k);
    }
}

} // verus!
