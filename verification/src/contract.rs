use vstd::prelude::*;

use crate::error::{ContractError, ContractErrorV};
use crate::helpers::{is_valid_threshold, spec_valid_threshold};
use crate::msg::InstantiateMsg;
use crate::state::{Account, AccountV, Policy, PolicyV, State, StateV, TxDataV, INIT_TX_ID};

verus! {

/// Creates a fresh account instance from its configuration. The threshold
/// must fit the initial signer set; the policy starts with an empty
/// whitelist and no ceilings, and no transaction has been proposed yet.
pub fn instantiate(msg: InstantiateMsg) -> (r: Result<Account, ContractError>)
    ensures
        ({
            if !spec_valid_threshold(msg.threshold, msg.signers.deep_view().len() as int) {
                r matches Err(e) && e@ == (ContractErrorV::InvalidThreshold {
                    threshold: msg.threshold,
                })
            } else {
                r matches Ok(acct) && acct@ == (AccountV {
                    state: (StateV {
                        admin: msg.admin@,
                        signers: msg.signers.deep_view(),
                        threshold: msg.threshold,
                        mutable: msg.mutable,
                    }),
                    policy: (PolicyV {
                        whitelist_enabled: msg.whitelist_enabled,
                        whitelist_addresses: Seq::<Seq<char>>::empty(),
                        transfer_limits: Seq::<crate::state::CoinV>::empty(),
                    }),
                    tx_next_id: INIT_TX_ID,
                    tx_executions: Seq::<TxDataV>::empty(),
                }) && acct@.wf()
            }
        }),
{
    if !is_valid_threshold(msg.threshold, msg.signers.len()) {
        return Err(ContractError::InvalidThreshold { threshold: msg.threshold });
    }
    let acct = Account {
        state: State {
            admin: msg.admin,
            signers: msg.signers,
            threshold: msg.threshold,
            mutable: msg.mutable,
        },
        policy: Policy {
            whitelist_enabled: msg.whitelist_enabled,
            whitelist_addresses: Vec::new(),
            transfer_limits: Vec::new(),
        },
        tx_next_id: INIT_TX_ID,
        tx_executions: Vec::new(),
    };
    proof {
        assert(acct.policy.whitelist_addresses.deep_view() =~= Seq::<Seq<char>>::empty());
        assert(acct.policy.transfer_limits.deep_view() =~= Seq::<crate::state::CoinV>::empty());
        assert(acct.tx_executions.deep_view() =~= Seq::<TxDataV>::empty());
    }
    Ok(acct)
}

} // verus!
