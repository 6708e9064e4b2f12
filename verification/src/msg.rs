use vstd::prelude::*;
use crate::state::{Coin, Effect, EffectV, TxData};

verus! {

/// The values an account instance is created from.
#[derive(Debug, PartialEq)]
pub struct InstantiateMsg {
    pub admin: String,
    pub signers: Vec<String>,
    pub threshold: u8,
    pub mutable: bool,
    pub whitelist_enabled: bool,
}

/// The read-only queries an account instance answers.
#[derive(Debug, PartialEq)]
pub enum QueryMsg {
    Admin {},
    Signerlist {},
    Threshold {},
    TxExecutions {},
    WhitelistAddresses {},
    TransferLimits {},
}

/// One audit attribute of a successful operation.
#[derive(Debug, PartialEq)]
pub struct Attribute {
    pub key: String,
    pub value: String,
}

/// Spec-level image of an [`Attribute`].
#[verifier::ext_equal]
pub ghost struct AttributeV {
    pub key: Seq<char>,
    pub value: Seq<char>,
}

impl View for Attribute {
    type V = AttributeV;

    open spec fn view(&self) -> AttributeV {
        AttributeV { key: self.key@, value: self.value@ }
    }
}

impl DeepView for Attribute {
    type V = AttributeV;

    open spec fn deep_view(&self) -> AttributeV {
        self@
    }
}

/// What a successful operation hands back to the host: the effects released
/// for immediate dispatch and the audit attributes of the operation.
#[derive(Debug, PartialEq)]
pub struct Response {
    pub messages: Vec<Effect>,
    pub attributes: Vec<Attribute>,
}

/// Spec-level image of a [`Response`].
#[verifier::ext_equal]
pub ghost struct ResponseV {
    pub messages: Seq<EffectV>,
    pub attributes: Seq<AttributeV>,
}

impl View for Response {
    type V = ResponseV;

    open spec fn view(&self) -> ResponseV {
        ResponseV {
            messages: self.messages.deep_view(),
            attributes: self.attributes.deep_view(),
        }
    }
}

/// Builds an audit attribute from two borrowed strings.
pub fn attr(key: &str, value: &str) -> (r: Attribute)
    ensures
        r@ == (AttributeV { key: key@, value: value@ }),
{
    Attribute { key: key.to_owned(), value: value.to_owned() }
}

/// Builds an audit attribute whose value is already owned.
pub fn attr_value(key: &str, value: String) -> (r: Attribute)
    ensures
        r@ == (AttributeV { key: key@, value: value@ }),
{
    Attribute { key: key.to_owned(), value }
}

#[derive(Debug, PartialEq)]
pub struct AdminResponse {
    pub admin: String,
}

#[derive(Debug, PartialEq)]
pub struct SignerListResponse {
    pub signers: Vec<String>,
}

#[derive(Debug, PartialEq)]
pub struct ThresholdResponse {
    pub threshold: u8,
}

#[derive(Debug, PartialEq)]
pub struct TxExecutionsResponse {
    pub tx_executions: Vec<TxData>,
}

#[derive(Debug, PartialEq)]
pub struct WhitelistAddressesResponse {
    pub whitelist_addresses: Vec<String>,
}

#[derive(Debug, PartialEq)]
pub struct TransferLimitsResponse {
    pub transfer_limits: Vec<Coin>,
}

} // verus!
