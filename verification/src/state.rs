use vstd::prelude::*;

verus! {

/// An amount of one asset denomination.
#[derive(Debug, PartialEq)]
pub struct Coin {
    pub denom: String,
    pub amount: u128,
}

/// Spec-level image of a [`Coin`].
#[verifier::ext_equal]
pub ghost struct CoinV {
    pub denom: Seq<char>,
    pub amount: u128,
}

impl View for Coin {
    type V = CoinV;

    open spec fn view(&self) -> CoinV {
        CoinV { denom: self.denom@, amount: self.amount }
    }
}

impl DeepView for Coin {
    type V = CoinV;

    open spec fn deep_view(&self) -> CoinV {
        self@
    }
}

impl Clone for Coin {
    fn clone(&self) -> (r: Self)
        ensures
            r@ == self@,
    {
        Coin { denom: self.denom.clone(), amount: self.amount }
    }
}

/// One externally dispatchable instruction carried in a transaction payload.
/// A value transfer is the only kind the policy inspects; every other
/// instruction is carried opaquely and released verbatim.
#[derive(Debug, PartialEq)]
pub enum Effect {
    Send { to_address: String, amount: Vec<Coin> },
    Other { data: Vec<u8> },
}

/// Spec-level image of an [`Effect`].
#[verifier::ext_equal]
pub ghost enum EffectV {
    Send { to_address: Seq<char>, amount: Seq<CoinV> },
    Other { data: Seq<u8> },
}

impl View for Effect {
    type V = EffectV;

    open spec fn view(&self) -> EffectV {
        match self {
            Effect::Send { to_address, amount } => EffectV::Send {
                to_address: to_address@,
                amount: amount.deep_view(),
            },
            Effect::Other { data } => EffectV::Other { data: data@ },
        }
    }
}

impl DeepView for Effect {
    type V = EffectV;

    open spec fn deep_view(&self) -> EffectV {
        self@
    }
}

/// Copies a coin list, element by element.
pub fn clone_coins(v: &Vec<Coin>) -> (r: Vec<Coin>)
    ensures
        r.deep_view() == v.deep_view(),
{
    let mut r: Vec<Coin> = Vec::new();
    let n = v.len();
    for i in 0..n
        invariant
            n == v.len(),
            r.len() == i,
            forall|j: int| #![trigger r.deep_view()[j]]
                0 <= j < i ==> r.deep_view()[j] == v.deep_view()[j],
    {
        let ghost prev = r.deep_view();
        r.push(v[i].clone());
        proof {
            assert forall|j: int| #![trigger r.deep_view()[j]]
                0 <= j < i + 1 implies r.deep_view()[j] == v.deep_view()[j] by {
                assert(r.deep_view()[j] == r@[j].deep_view());
                if j < i {
                    assert(prev[j] == v.deep_view()[j]);
                } else {
                    assert(v.deep_view()[j] == v@[j].deep_view());
                }
            }
        }
    }
    proof {
        assert(r.deep_view() =~= v.deep_view());
    }
    r
}

/// Copies a list of identities, element by element.
pub fn clone_strings(v: &Vec<String>) -> (r: Vec<String>)
    ensures
        r.deep_view() == v.deep_view(),
{
    let mut r: Vec<String> = Vec::new();
    let n = v.len();
    for i in 0..n
        invariant
            n == v.len(),
            r.len() == i,
            forall|j: int| #![trigger r.deep_view()[j]]
                0 <= j < i ==> r.deep_view()[j] == v.deep_view()[j],
    {
        let ghost prev = r.deep_view();
        r.push(v[i].clone());
        proof {
            assert forall|j: int| #![trigger r.deep_view()[j]]
                0 <= j < i + 1 implies r.deep_view()[j] == v.deep_view()[j] by {
                assert(r.deep_view()[j] == r@[j].deep_view());
                if j < i {
                    assert(prev[j] == v.deep_view()[j]);
                } else {
                    assert(v.deep_view()[j] == v@[j].deep_view());
                }
            }
        }
    }
    proof {
        assert(r.deep_view() =~= v.deep_view());
    }
    r
}

impl Clone for Effect {
    fn clone(&self) -> (r: Self)
        ensures
            r@ == self@,
    {
        match self {
            Effect::Send { to_address, amount } => Effect::Send {
                to_address: to_address.clone(),
                amount: clone_coins(amount),
            },
            Effect::Other { data } => {
                let mut copy: Vec<u8> = Vec::new();
                let n = data.len();
                for i in 0..n
                    invariant
                        n == data.len(),
                        copy@ =~= data@.take(i as int),
                {
                    copy.push(data[i]);
                    proof {
                        assert(copy@ =~= data@.take(i + 1));
                    }
                }
                proof {
                    assert(data@.take(n as int) =~= data@);
                }
                Effect::Other { data: copy }
            },
        }
    }
}

/// Copies a payload, element by element.
pub fn clone_effects(v: &Vec<Effect>) -> (r: Vec<Effect>)
    ensures
        r.deep_view() == v.deep_view(),
{
    let mut r: Vec<Effect> = Vec::new();
    let n = v.len();
    for i in 0..n
        invariant
            n == v.len(),
            r.len() == i,
            forall|j: int| #![trigger r.deep_view()[j]]
                0 <= j < i ==> r.deep_view()[j] == v.deep_view()[j],
    {
        let ghost prev = r.deep_view();
        r.push(v[i].clone());
        proof {
            assert forall|j: int| #![trigger r.deep_view()[j]]
                0 <= j < i + 1 implies r.deep_view()[j] == v.deep_view()[j] by {
                assert(r.deep_view()[j] == r@[j].deep_view());
                if j < i {
                    assert(prev[j] == v.deep_view()[j]);
                } else {
                    assert(v.deep_view()[j] == v@[j].deep_view());
                }
            }
        }
    }
    proof {
        assert(r.deep_view() =~= v.deep_view());
    }
    r
}

/// The lifecycle state of a proposed transaction.
#[derive(Clone, Copy, Debug, PartialEq, Eq, Structural)]
pub enum TxStatus {
    Pending,
    Done,
    Failed,
}

/// One proposed transaction and its signing progress.
#[derive(Debug, PartialEq)]
pub struct TxData {
    pub id: u16,
    pub msgs: Vec<Effect>,
    pub signers: Vec<String>,
    pub status: Option<TxStatus>,
}

/// Spec-level image of a [`TxData`].
#[verifier::ext_equal]
pub ghost struct TxDataV {
    pub id: u16,
    pub msgs: Seq<EffectV>,
    pub signers: Seq<Seq<char>>,
    pub status: Option<TxStatus>,
}

impl View for TxData {
    type V = TxDataV;

    open spec fn view(&self) -> TxDataV {
        TxDataV {
            id: self.id,
            msgs: self.msgs.deep_view(),
            signers: self.signers.deep_view(),
            status: self.status,
        }
    }
}

impl DeepView for TxData {
    type V = TxDataV;

    open spec fn deep_view(&self) -> TxDataV {
        self@
    }
}

impl Clone for TxData {
    fn clone(&self) -> (r: Self)
        ensures
            r@ == self@,
    {
        let r = TxData {
            id: self.id,
            msgs: clone_effects(&self.msgs),
            signers: clone_strings(&self.signers),
            status: self.status,
        };
        proof {
            assert(r@ =~= self@);
        }
        r
    }
}

/// Copies the transaction ledger, element by element.
pub fn clone_txs(v: &Vec<TxData>) -> (r: Vec<TxData>)
    ensures
        r.deep_view() == v.deep_view(),
{
    let mut r: Vec<TxData> = Vec::new();
    let n = v.len();
    for i in 0..n
        invariant
            n == v.len(),
            r.len() == i,
            forall|j: int| #![trigger r.deep_view()[j]]
                0 <= j < i ==> r.deep_view()[j] == v.deep_view()[j],
    {
        let ghost prev = r.deep_view();
        r.push(v[i].clone());
        proof {
            assert forall|j: int| #![trigger r.deep_view()[j]]
                0 <= j < i + 1 implies r.deep_view()[j] == v.deep_view()[j] by {
                assert(r.deep_view()[j] == r@[j].deep_view());
                if j < i {
                    assert(prev[j] == v.deep_view()[j]);
                } else {
                    assert(v.deep_view()[j] == v@[j].deep_view());
                }
            }
        }
    }
    proof {
        assert(r.deep_view() =~= v.deep_view());
    }
    r
}

impl TxData {
    pub fn new(id: u16, msgs: Vec<Effect>, signer: String, status: TxStatus) -> (r: Self)
        ensures
            r@ == (TxDataV {
                id,
                msgs: msgs.deep_view(),
                signers: seq![signer@],
                status: Some(status),
            }),
    {
        let signers = vec![signer];
        proof {
            assert(signers.deep_view() =~= seq![signer@]);
        }
        TxData { id, msgs, signers, status: Some(status) }
    }
}

/// The account registry: admin identity, signer set, approval threshold and
/// the one-way mutability flag.
#[derive(Debug)]
pub struct State {
    pub admin: String,
    pub signers: Vec<String>,
    pub threshold: u8,
    pub mutable: bool,
}

/// Spec-level image of the registry.
#[verifier::ext_equal]
pub ghost struct StateV {
    pub admin: Seq<char>,
    pub signers: Seq<Seq<char>>,
    pub threshold: u8,
    pub mutable: bool,
}

impl View for State {
    type V = StateV;

    open spec fn view(&self) -> StateV {
        StateV {
            admin: self.admin@,
            signers: self.signers.deep_view(),
            threshold: self.threshold,
            mutable: self.mutable,
        }
    }
}

impl StateV {
    /// The identity is the registered admin.
    pub open spec fn is_admin(self, addr: Seq<char>) -> bool {
        self.admin == addr
    }

    /// The identity is a member of the signer set.
    pub open spec fn is_signer(self, addr: Seq<char>) -> bool {
        self.signers.contains(addr)
    }

    /// The identity may change the configuration: it is the admin and the
    /// configuration is still mutable.
    pub open spec fn can_modify(self, addr: Seq<char>) -> bool {
        self.mutable && self.is_admin(addr)
    }

    /// The identity may spend from the account: it is a signer.
    pub open spec fn can_spend(self, addr: Seq<char>) -> bool {
        self.is_signer(addr)
    }

    /// The identity may propose and co-sign transactions: it is a signer.
    pub open spec fn can_execute(self, addr: Seq<char>) -> bool {
        self.is_signer(addr)
    }
}

impl State {
    pub fn is_admin(&self, addr: &String) -> (r: bool)
        ensures
            r == self@.is_admin(addr@),
    {
        self.admin == *addr
    }

    pub fn is_signer(&self, addr: &String) -> (r: bool)
        ensures
            r == self@.is_signer(addr@),
    {
        let n = self.signers.len();
        for i in 0..n
            invariant
                n == self.signers.len(),
                forall|j: int| 0 <= j < i ==> self@.signers[j] != addr@,
        {
            if self.signers[i] == *addr {
                proof {
                    assert(self@.signers[i as int] == addr@);
                }
                return true;
            }
        }
        false
    }

    pub fn can_modify(&self, addr: &String) -> (r: bool)
        ensures
            r == self@.can_modify(addr@),
    {
        self.mutable && self.is_admin(addr)
    }

    pub fn can_spend(&self, addr: &String) -> (r: bool)
        ensures
            r == self@.can_spend(addr@),
    {
        self.is_signer(addr)
    }

    pub fn can_execute(&self, addr: &String) -> (r: bool)
        ensures
            r == self@.can_execute(addr@),
    {
        self.is_signer(addr)
    }
}

/// The transfer policy: an optional recipient whitelist and per-denomination
/// transfer ceilings.
#[derive(Debug)]
pub struct Policy {
    pub whitelist_enabled: bool,
    pub whitelist_addresses: Vec<String>,
    pub transfer_limits: Vec<Coin>,
}

/// Spec-level image of the policy.
#[verifier::ext_equal]
pub ghost struct PolicyV {
    pub whitelist_enabled: bool,
    pub whitelist_addresses: Seq<Seq<char>>,
    pub transfer_limits: Seq<CoinV>,
}

impl View for Policy {
    type V = PolicyV;

    open spec fn view(&self) -> PolicyV {
        PolicyV {
            whitelist_enabled: self.whitelist_enabled,
            whitelist_addresses: self.whitelist_addresses.deep_view(),
            transfer_limits: self.transfer_limits.deep_view(),
        }
    }
}

impl PolicyV {
    /// The whitelist holds no duplicate and the ceilings form a mapping:
    /// each denomination occurs at most once.
    pub open spec fn wf(self) -> bool {
        &&& forall|i: int, j: int|
            0 <= i < j < self.whitelist_addresses.len()
                ==> self.whitelist_addresses[i] != self.whitelist_addresses[j]
        &&& forall|i: int, j: int|
            0 <= i < j < self.transfer_limits.len()
                ==> self.transfer_limits[i].denom != self.transfer_limits[j].denom
    }

    /// The ceiling configured for a denomination, if any.
    pub open spec fn limit_for(self, denom: Seq<char>) -> Option<u128> {
        if exists|i: int| 0 <= i < self.transfer_limits.len()
            && self.transfer_limits[i].denom == denom {
            let i = choose|i: int| 0 <= i < self.transfer_limits.len()
                && self.transfer_limits[i].denom == denom;
            Some(self.transfer_limits[i].amount)
        } else {
            None
        }
    }

    /// A recipient is admissible when whitelisting is off or it is listed.
    pub open spec fn can_receive(self, recipient: Seq<char>) -> bool {
        !self.whitelist_enabled || self.whitelist_addresses.contains(recipient)
    }

    /// An amount is admissible when its denomination has no ceiling or the
    /// amount does not exceed it.
    pub open spec fn can_transfer(self, amount: CoinV) -> bool {
        match self.limit_for(amount.denom) {
            None => true,
            Some(limit) => amount.amount <= limit,
        }
    }
}

impl Policy {
    pub fn can_receive(&self, recipient: &String) -> (r: bool)
        ensures
            r == self@.can_receive(recipient@),
    {
        if !self.whitelist_enabled {
            return true;
        }
        let n = self.whitelist_addresses.len();
        for i in 0..n
            invariant
                n == self.whitelist_addresses.len(),
                forall|j: int| 0 <= j < i ==> self@.whitelist_addresses[j] != recipient@,
        {
            if self.whitelist_addresses[i] == *recipient {
                proof {
                    assert(self@.whitelist_addresses[i as int] == recipient@);
                }
                return true;
            }
        }
        false
    }

    pub fn can_transfer(&self, amount: &Coin) -> (r: bool)
        requires
            self@.wf(),
        ensures
            r == self@.can_transfer(amount@),
    {
        let n = self.transfer_limits.len();
        for i in 0..n
            invariant
                self@.wf(),
                n == self.transfer_limits.len(),
                forall|j: int| 0 <= j < i ==> self@.transfer_limits[j].denom != amount@.denom,
        {
            if self.transfer_limits[i].denom == amount.denom {
                proof {
                    assert(self@.transfer_limits[i as int].denom == amount@.denom);
                }
                return amount.amount <= self.transfer_limits[i].amount;
            }
        }
        true
    }
}

/// Pushing onto a list pushes the element's image onto the list's image.
pub proof fn lemma_push_deep_view<T: DeepView>(pre: Vec<T>, post: Vec<T>, x: T)
    requires
        post@ == pre@.push(x),
    ensures
        post.deep_view() == pre.deep_view().push(x.deep_view()),
{
    assert forall|j: int| #![trigger post.deep_view()[j]]
        0 <= j < post@.len() implies post.deep_view()[j] == pre.deep_view().push(
        x.deep_view(),
    )[j] by {
        assert(post.deep_view()[j] == post@[j].deep_view());
        if j < pre@.len() {
            assert(pre.deep_view()[j] == pre@[j].deep_view());
        }
    }
    assert(post.deep_view() =~= pre.deep_view().push(x.deep_view()));
}

/// Concatenating two lists concatenates their images.
pub proof fn lemma_append_deep_view<T: DeepView>(pre: Vec<T>, other: Vec<T>, post: Vec<T>)
    requires
        post@ == pre@ + other@,
    ensures
        post.deep_view() == pre.deep_view() + other.deep_view(),
{
    assert forall|j: int| #![trigger post.deep_view()[j]]
        0 <= j < post@.len() implies post.deep_view()[j] == (pre.deep_view()
        + other.deep_view())[j] by {
        assert(post.deep_view()[j] == post@[j].deep_view());
        if j < pre@.len() {
            assert(pre.deep_view()[j] == pre@[j].deep_view());
        } else {
            assert(other.deep_view()[j - pre@.len()] == other@[j - pre@.len()].deep_view());
        }
    }
    assert(post.deep_view() =~= pre.deep_view() + other.deep_view());
}

/// Whether a list of identities holds a given one.
pub fn contains_string(v: &Vec<String>, x: &String) -> (r: bool)
    ensures
        r == v.deep_view().contains(x@),
{
    let n = v.len();
    for i in 0..n
        invariant
            n == v.len(),
            forall|j: int| 0 <= j < i ==> v.deep_view()[j] != x@,
    {
        if v[i] == *x {
            proof {
                assert(v.deep_view()[i as int] == x@);
            }
            return true;
        }
    }
    false
}

/// Updating one element of a list updates one element of its image.
pub proof fn lemma_update_deep_view<T: DeepView>(pre: Vec<T>, post: Vec<T>, i: int, x: T)
    requires
        0 <= i < pre@.len(),
        post@ == pre@.update(i, x),
    ensures
        post.deep_view() == pre.deep_view().update(i, x.deep_view()),
{
    assert forall|j: int| #![trigger post.deep_view()[j]]
        0 <= j < post@.len() implies post.deep_view()[j] == pre.deep_view().update(
        i,
        x.deep_view(),
    )[j] by {
        assert(post.deep_view()[j] == post@[j].deep_view());
        if j != i {
            assert(pre.deep_view()[j] == pre@[j].deep_view());
        }
    }
    assert(post.deep_view() =~= pre.deep_view().update(i, x.deep_view()));
}

/// The first transaction id an account instance hands out.
pub const INIT_TX_ID: u16 = 1;

/// The whole state of one account instance: registry, policy, the
/// append-only transaction ledger and the id counter.
#[derive(Debug)]
pub struct Account {
    pub state: State,
    pub policy: Policy,
    pub tx_next_id: u16,
    pub tx_executions: Vec<TxData>,
}

/// Spec-level image of an [`Account`].
#[verifier::ext_equal]
pub ghost struct AccountV {
    pub state: StateV,
    pub policy: PolicyV,
    pub tx_next_id: u16,
    pub tx_executions: Seq<TxDataV>,
}

impl View for Account {
    type V = AccountV;

    open spec fn view(&self) -> AccountV {
        AccountV {
            state: self.state@,
            policy: self.policy@,
            tx_next_id: self.tx_next_id,
            tx_executions: self.tx_executions.deep_view(),
        }
    }
}

impl AccountV {
    /// Structural invariant of an account instance: transaction ids start at
    /// [`INIT_TX_ID`], ascend by exactly one in ledger order, the counter
    /// holds the next id to hand out, and the policy is a well-formed
    /// mapping.
    pub open spec fn wf(self) -> bool {
        &&& self.tx_next_id as int == self.tx_executions.len() + INIT_TX_ID
        &&& forall|i: int|
            0 <= i < self.tx_executions.len()
                ==> #[trigger] self.tx_executions[i].id as int == i + INIT_TX_ID
        &&& self.policy.wf()
    }
}

} // verus!
