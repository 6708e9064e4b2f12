use vstd::prelude::*;

use crate::msg::{
    AdminResponse, SignerListResponse, ThresholdResponse, TransferLimitsResponse,
    TxExecutionsResponse, WhitelistAddressesResponse,
};
use crate::state::{clone_coins, clone_strings, clone_txs, Account, INIT_TX_ID};

verus! {

/// The current admin identity.
pub fn admin(acct: &Account) -> (r: AdminResponse)
    ensures
        r.admin@ == acct@.state.admin,
{
    AdminResponse { admin: acct.state.admin.clone() }
}

/// The current signer list, in registration order.
pub fn signer_list(acct: &Account) -> (r: SignerListResponse)
    ensures
        r.signers.deep_view() == acct@.state.signers,
{
    SignerListResponse { signers: clone_strings(&acct.state.signers) }
}

/// The current approval threshold.
pub fn threshold(acct: &Account) -> (r: ThresholdResponse)
    ensures
        r.threshold == acct@.state.threshold,
{
    ThresholdResponse { threshold: acct.state.threshold }
}

/// The whole transaction history, ascending by id.
pub fn tx_executions(acct: &Account) -> (r: TxExecutionsResponse)
    requires
        acct@.wf(),
    ensures
        r.tx_executions.deep_view() == acct@.tx_executions,
{
    if acct.tx_next_id <= INIT_TX_ID {
        let empty: Vec<crate::state::TxData> = Vec::new();
        proof {
            assert(empty.deep_view() =~= acct@.tx_executions);
        }
        TxExecutionsResponse { tx_executions: empty }
    } else {
        TxExecutionsResponse { tx_executions: clone_txs(&acct.tx_executions) }
    }
}

/// The current whitelist, in insertion order.
pub fn whitelist_addresses(acct: &Account) -> (r: WhitelistAddressesResponse)
    ensures
        r.whitelist_addresses.deep_view() == acct@.policy.whitelist_addresses,
{
    WhitelistAddressesResponse {
        whitelist_addresses: clone_strings(&acct.policy.whitelist_addresses),
    }
}

/// The ceilings currently configured, one per denomination.
pub fn transfer_limits(acct: &Account) -> (r: TransferLimitsResponse)
    ensures
        r.transfer_limits.deep_view() == acct@.policy.transfer_limits,
{
    TransferLimitsResponse { transfer_limits: clone_coins(&acct.policy.transfer_limits) }
}

} // verus!
