//! The accounting ledger: the aggregator's counters and pause flag, the
//! registry of protocols, and the positions of users. Every operation checks
//! everything before it changes anything, so a rejected operation leaves the
//! ledger as it was.
use vstd::prelude::*;
use vstd::utf8::encode_utf8;
use crate::errors::{LedgerError, MyOAppError, YieldAggregatorError};
use crate::msg_codec::MAX_APY_BPS;
use crate::pubkey::Pubkey;

verus! {

/// Longest protocol name, in UTF-8 bytes.
pub const MAX_PROTOCOL_NAME_LEN: usize = 32;
/// Bounds of a protocol's risk score.
pub const MIN_RISK_SCORE: u8 = 1;
pub const MAX_RISK_SCORE: u8 = 10;

/// The aggregator's global record.
#[derive(Clone, Copy, Debug)]
pub struct YieldAggregator {
    pub admin: Pubkey,
    /// How many protocols were ever registered.
    pub total_protocols: u64,
    pub total_value_locked: u64,
    /// Fee rate in basis points.
    pub fee_rate: u64,
    pub emergency_paused: bool,
    pub created_at: i64,
}

/// A registered yield source.
#[derive(Debug)]
pub struct ProtocolInfo {
    pub name: String,
    pub chain_id: u32,
    /// APY in basis points.
    pub current_apy: u64,
    pub tvl: u64,
    pub max_capacity: u64,
    /// Risk on a scale of 1 to 10.
    pub risk_score: u8,
    pub is_active: bool,
    pub last_update: i64,
}

/// A protocol as the contracts see it.
pub struct ProtocolModel {
    pub name: Seq<char>,
    pub chain_id: u32,
    pub current_apy: u64,
    pub tvl: u64,
    pub max_capacity: u64,
    pub risk_score: u8,
    pub is_active: bool,
    pub last_update: i64,
}

impl View for ProtocolInfo {
    type V = ProtocolModel;

    open spec fn view(&self) -> ProtocolModel {
        ProtocolModel {
            name: self.name@,
            chain_id: self.chain_id,
            current_apy: self.current_apy,
            tvl: self.tvl,
            max_capacity: self.max_capacity,
            risk_score: self.risk_score,
            is_active: self.is_active,
            last_update: self.last_update,
        }
    }
}

/// A user's accumulated deposits and unclaimed yield.
#[derive(Clone, Copy, Debug)]
pub struct UserPosition {
    pub user: Pubkey,
    pub total_deposits: u64,
    pub total_yield_earned: u64,
    pub position_count: u32,
    pub last_activity: i64,
}

/// The whole ledger: the aggregator, the protocols in order of
/// registration, and the positions in order of creation.
#[derive(Debug)]
pub struct YieldLedger {
    pub aggregator: YieldAggregator,
    pub protocols: Vec<ProtocolInfo>,
    pub positions: Vec<UserPosition>,
}

pub struct LedgerModel {
    pub aggregator: YieldAggregator,
    pub protocols: Seq<ProtocolModel>,
    pub positions: Seq<UserPosition>,
}

impl View for YieldLedger {
    type V = LedgerModel;

    open spec fn view(&self) -> LedgerModel {
        LedgerModel {
            aggregator: self.aggregator,
            protocols: self.protocols@.map_values(|p: ProtocolInfo| p@),
            positions: self.positions@,
        }
    }
}

/// The sum of the deposits of `ps`.
pub open spec fn total_deposits(ps: Seq<UserPosition>) -> nat
    decreases ps.len(),
{
    if ps.len() == 0 {
        0
    } else {
        total_deposits(ps.drop_last()) + ps.last().total_deposits as nat
    }
}

pub proof fn lemma_total_deposits_push(ps: Seq<UserPosition>, q: UserPosition)
    ensures
        total_deposits(ps.push(q)) == total_deposits(ps) + q.total_deposits,
{
    assert(ps.push(q).drop_last() =~= ps);
}

pub proof fn lemma_total_deposits_update(ps: Seq<UserPosition>, j: int, q: UserPosition)
    requires
        0 <= j < ps.len(),
    ensures
        total_deposits(ps.update(j, q)) == total_deposits(ps) - ps[j].total_deposits
            + q.total_deposits,
    decreases ps.len(),
{
    let u = ps.update(j, q);
    if j == ps.len() - 1 {
        assert(u.drop_last() =~= ps.drop_last());
    } else {
        lemma_total_deposits_update(ps.drop_last(), j, q);
        assert(u.drop_last() =~= ps.drop_last().update(j, q));
    }
}

pub proof fn lemma_position_within_total(ps: Seq<UserPosition>, j: int)
    requires
        0 <= j < ps.len(),
    ensures
        ps[j].total_deposits <= total_deposits(ps),
    decreases ps.len(),
{
    if j < ps.len() - 1 {
        lemma_position_within_total(ps.drop_last(), j);
    }
}

/// The ledger's invariant: the protocol counter counts the registry, the
/// aggregator's total value locked is the sum of the positions' deposits,
/// names and owners are unique, every protocol holds no more than its
/// capacity and has a valid name and risk score.
pub open spec fn ledger_wf(l: LedgerModel) -> bool {
    &&& l.aggregator.total_protocols == l.protocols.len()
    &&& l.aggregator.total_value_locked == total_deposits(l.positions)
    &&& forall|i: int, j: int|
        0 <= i < l.protocols.len() && 0 <= j < l.protocols.len() && i != j ==> (
        #[trigger] l.protocols[i]).name != (#[trigger] l.protocols[j]).name
    &&& forall|i: int| 0 <= i < l.protocols.len() ==> #[trigger] protocol_wf(l.protocols[i])
    &&& forall|i: int, j: int|
        0 <= i < l.positions.len() && 0 <= j < l.positions.len() && i != j ==> (
        #[trigger] l.positions[i]).user != (#[trigger] l.positions[j]).user
}

pub open spec fn protocol_wf(p: ProtocolModel) -> bool {
    &&& p.tvl <= p.max_capacity
    &&& MIN_RISK_SCORE <= p.risk_score <= MAX_RISK_SCORE
    &&& encode_utf8(p.name).len() <= MAX_PROTOCOL_NAME_LEN
}

/// Where the protocol named `name` stands in the registry.
pub open spec fn protocol_index(ps: Seq<ProtocolModel>, name: Seq<char>) -> Option<int> {
    if exists|i: int| 0 <= i < ps.len() && #[trigger] ps[i].name == name {
        Some(choose|i: int| 0 <= i < ps.len() && #[trigger] ps[i].name == name)
    } else {
        None
    }
}

/// Where the position of `user` stands.
pub open spec fn position_index(ps: Seq<UserPosition>, user: Pubkey) -> Option<int> {
    if exists|i: int| 0 <= i < ps.len() && #[trigger] ps[i].user == user {
        Some(choose|i: int| 0 <= i < ps.len() && #[trigger] ps[i].user == user)
    } else {
        None
    }
}

/// The deposits of `user`; none where the user has no position.
pub open spec fn deposits_of(l: LedgerModel, user: Pubkey) -> nat {
    match position_index(l.positions, user) {
        Some(j) => l.positions[j].total_deposits as nat,
        None => 0,
    }
}

pub open spec fn agg_err(e: YieldAggregatorError) -> LedgerError {
    LedgerError::Aggregator(e)
}

pub open spec fn app_err(e: MyOAppError) -> LedgerError {
    LedgerError::App(e)
}

/// A fresh ledger: no protocols, no positions, zero counters, not paused.
pub open spec fn initial_ledger(admin: Pubkey, now: i64) -> LedgerModel {
    LedgerModel {
        aggregator: YieldAggregator {
            admin,
            total_protocols: 0,
            total_value_locked: 0,
            fee_rate: 0,
            emergency_paused: false,
            created_at: now,
        },
        protocols: Seq::empty(),
        positions: Seq::empty(),
    }
}

/// Registering a protocol.
pub open spec fn add_protocol_spec(
    l: LedgerModel,
    signer: Pubkey,
    name: Seq<char>,
    chain_id: u32,
    initial_apy: u64,
    max_capacity: u64,
    risk_score: u8,
    now: i64,
) -> Result<LedgerModel, LedgerError> {
    if signer != l.aggregator.admin {
        Err(agg_err(YieldAggregatorError::Unauthorized))
    } else if risk_score < MIN_RISK_SCORE || risk_score > MAX_RISK_SCORE {
        Err(agg_err(YieldAggregatorError::InvalidRiskScore))
    } else if encode_utf8(name).len() > MAX_PROTOCOL_NAME_LEN {
        Err(agg_err(YieldAggregatorError::InvalidProtocolName))
    } else if protocol_index(l.protocols, name) is Some || l.aggregator.total_protocols == u64::MAX {
        Err(app_err(MyOAppError::InvalidProtocol))
    } else {
        Ok(
            LedgerModel {
                aggregator: YieldAggregator {
                    total_protocols: (l.aggregator.total_protocols + 1) as u64,
                    ..l.aggregator
                },
                protocols: l.protocols.push(
                    ProtocolModel {
                        name,
                        chain_id,
                        current_apy: initial_apy,
                        tvl: 0,
                        max_capacity,
                        risk_score,
                        is_active: true,
                        last_update: now,
                    },
                ),
                ..l
            },
        )
    }
}

/// Depositing `amount` from `user` into the protocol named `target`. Every
/// protocol tracks its capacity: the deposit counts toward its value locked.
pub open spec fn deposit_spec(
    l: LedgerModel,
    user: Pubkey,
    amount: u64,
    target: Seq<char>,
    min_apy: u64,
    now: i64,
) -> Result<LedgerModel, LedgerError> {
    if l.aggregator.emergency_paused {
        Err(agg_err(YieldAggregatorError::EmergencyPaused))
    } else if amount == 0 {
        Err(agg_err(YieldAggregatorError::InvalidAmount))
    } else {
        match protocol_index(l.protocols, target) {
            None => Err(app_err(MyOAppError::InvalidProtocol)),
            Some(i) => {
                let p = l.protocols[i];
                if !p.is_active {
                    Err(agg_err(YieldAggregatorError::ProtocolInactive))
                } else if p.current_apy < min_apy {
                    Err(agg_err(YieldAggregatorError::ApyTooLow))
                } else if p.tvl + amount > p.max_capacity {
                    Err(agg_err(YieldAggregatorError::ProtocolCapacityExceeded))
                } else if l.aggregator.total_value_locked + amount > u64::MAX {
                    Err(agg_err(YieldAggregatorError::InvalidAmount))
                } else {
                    let protocols = l.protocols.update(
                        i,
                        ProtocolModel { tvl: (p.tvl + amount) as u64, ..p },
                    );
                    let aggregator = YieldAggregator {
                        total_value_locked: (l.aggregator.total_value_locked + amount) as u64,
                        ..l.aggregator
                    };
                    match position_index(l.positions, user) {
                        None => Ok(
                            LedgerModel {
                                aggregator,
                                protocols,
                                positions: l.positions.push(
                                    UserPosition {
                                        user,
                                        total_deposits: amount,
                                        total_yield_earned: 0,
                                        position_count: 1,
                                        last_activity: now,
                                    },
                                ),
                            },
                        ),
                        Some(j) => {
                            let q = l.positions[j];
                            if q.position_count == u32::MAX {
                                Err(agg_err(YieldAggregatorError::InvalidAmount))
                            } else {
                                Ok(
                                    LedgerModel {
                                        aggregator,
                                        protocols,
                                        positions: l.positions.update(
                                            j,
                                            UserPosition {
                                                total_deposits: (q.total_deposits + amount) as u64,
                                                position_count: (q.position_count + 1) as u32,
                                                last_activity: now,
                                                ..q
                                            },
                                        ),
                                    },
                                )
                            }
                        },
                    }
                }
            },
        }
    }
}

/// `signer` withdrawing `amount` from the position of `owner`.
pub open spec fn withdraw_spec(
    l: LedgerModel,
    signer: Pubkey,
    owner: Pubkey,
    amount: u64,
    now: i64,
) -> Result<LedgerModel, LedgerError> {
    if l.aggregator.emergency_paused {
        Err(agg_err(YieldAggregatorError::EmergencyPaused))
    } else if signer != owner {
        Err(agg_err(YieldAggregatorError::Unauthorized))
    } else if amount == 0 {
        Err(agg_err(YieldAggregatorError::InvalidAmount))
    } else {
        match position_index(l.positions, owner) {
            None => Err(app_err(MyOAppError::PositionNotFound)),
            Some(j) => {
                let q = l.positions[j];
                if q.total_deposits < amount {
                    Err(app_err(MyOAppError::WithdrawalExceedsBalance))
                } else {
                    Ok(
                        LedgerModel {
                            aggregator: YieldAggregator {
                                total_value_locked: (l.aggregator.total_value_locked
                                    - amount) as u64,
                                ..l.aggregator
                            },
                            positions: l.positions.update(
                                j,
                                UserPosition {
                                    total_deposits: (q.total_deposits - amount) as u64,
                                    last_activity: now,
                                    ..q
                                },
                            ),
                            ..l
                        },
                    )
                }
            },
        }
    }
}

/// `signer` folding the earned yield of `owner`'s position into its
/// principal, through the protocol named `name`.
pub open spec fn compound_spec(
    l: LedgerModel,
    signer: Pubkey,
    owner: Pubkey,
    name: Seq<char>,
    now: i64,
) -> Result<LedgerModel, LedgerError> {
    if l.aggregator.emergency_paused {
        Err(agg_err(YieldAggregatorError::EmergencyPaused))
    } else if signer != owner {
        Err(agg_err(YieldAggregatorError::Unauthorized))
    } else {
        match position_index(l.positions, owner) {
            None => Err(app_err(MyOAppError::PositionNotFound)),
            Some(j) => match protocol_index(l.protocols, name) {
                None => Err(app_err(MyOAppError::InvalidProtocol)),
                Some(i) => {
                    let q = l.positions[j];
                    let y = q.total_yield_earned;
                    if !l.protocols[i].is_active {
                        Err(agg_err(YieldAggregatorError::ProtocolInactive))
                    } else if y == 0 {
                        Err(agg_err(YieldAggregatorError::NoYieldToCompound))
                    } else if l.aggregator.total_value_locked + y > u64::MAX {
                        Err(agg_err(YieldAggregatorError::InvalidAmount))
                    } else {
                        Ok(
                            LedgerModel {
                                aggregator: YieldAggregator {
                                    total_value_locked: (l.aggregator.total_value_locked
                                        + y) as u64,
                                    ..l.aggregator
                                },
                                positions: l.positions.update(
                                    j,
                                    UserPosition {
                                        total_deposits: (q.total_deposits + y) as u64,
                                        total_yield_earned: 0,
                                        last_activity: now,
                                        ..q
                                    },
                                ),
                                ..l
                            },
                        )
                    }
                },
            },
        }
    }
}

/// The administrator crediting `amount` of earned yield to the position of
/// `owner`, as reported for it by a distribution or a sync.
pub open spec fn credit_yield_spec(
    l: LedgerModel,
    signer: Pubkey,
    owner: Pubkey,
    amount: u64,
) -> Result<LedgerModel, LedgerError> {
    if signer != l.aggregator.admin {
        Err(agg_err(YieldAggregatorError::Unauthorized))
    } else if amount == 0 {
        Err(agg_err(YieldAggregatorError::InvalidAmount))
    } else {
        match position_index(l.positions, owner) {
            None => Err(app_err(MyOAppError::PositionNotFound)),
            Some(j) => {
                let q = l.positions[j];
                if q.total_yield_earned + amount > u64::MAX {
                    Err(agg_err(YieldAggregatorError::InvalidAmount))
                } else {
                    Ok(
                        LedgerModel {
                            positions: l.positions.update(
                                j,
                                UserPosition {
                                    total_yield_earned: (q.total_yield_earned + amount) as u64,
                                    ..q
                                },
                            ),
                            ..l
                        },
                    )
                }
            },
        }
    }
}

/// `signer` asking to move `amount` of `owner`'s position from the protocol
/// `from` to the protocol `to`. The destination's APY must exceed the
/// source's plus `min_apy_improvement`. Only the intent is recorded, always:
/// the position's balance changes once the other leg is confirmed.
pub open spec fn rebalance_spec(
    l: LedgerModel,
    signer: Pubkey,
    owner: Pubkey,
    from: Seq<char>,
    to: Seq<char>,
    amount: u64,
    min_apy_improvement: u64,
    now: i64,
) -> Result<LedgerModel, LedgerError> {
    if l.aggregator.emergency_paused {
        Err(agg_err(YieldAggregatorError::EmergencyPaused))
    } else if signer != owner {
        Err(agg_err(YieldAggregatorError::Unauthorized))
    } else if amount == 0 {
        Err(agg_err(YieldAggregatorError::InvalidAmount))
    } else {
        match (
            position_index(l.positions, owner),
            protocol_index(l.protocols, from),
            protocol_index(l.protocols, to),
        ) {
            (None, _, _) => Err(app_err(MyOAppError::PositionNotFound)),
            (_, None, _) => Err(app_err(MyOAppError::InvalidProtocol)),
            (_, _, None) => Err(app_err(MyOAppError::InvalidProtocol)),
            (Some(j), Some(a), Some(b)) => {
                let src = l.protocols[a];
                let dst = l.protocols[b];
                if !src.is_active || !dst.is_active {
                    Err(agg_err(YieldAggregatorError::ProtocolInactive))
                } else if dst.current_apy <= src.current_apy + min_apy_improvement {
                    Err(app_err(MyOAppError::RebalanceNotNeeded))
                } else if l.positions[j].total_deposits < amount {
                    Err(app_err(MyOAppError::WithdrawalExceedsBalance))
                } else {
                    Ok(
                        LedgerModel {
                            positions: l.positions.update(
                                j,
                                UserPosition { last_activity: now, ..l.positions[j] },
                            ),
                            ..l
                        },
                    )
                }
            },
        }
    }
}

/// The administrator setting the APY of the protocol named `name`; the
/// ceiling is 100% (10 000 basis points).
pub open spec fn update_rates_spec(
    l: LedgerModel,
    signer: Pubkey,
    name: Seq<char>,
    new_apy: u64,
    now: i64,
) -> Result<LedgerModel, LedgerError> {
    if signer != l.aggregator.admin {
        Err(agg_err(YieldAggregatorError::Unauthorized))
    } else {
        match protocol_index(l.protocols, name) {
            None => Err(app_err(MyOAppError::InvalidProtocol)),
            Some(i) => {
                if new_apy == 0 || new_apy > MAX_APY_BPS {
                    Err(app_err(MyOAppError::InvalidYieldRate))
                } else {
                    Ok(
                        LedgerModel {
                            protocols: l.protocols.update(
                                i,
                                ProtocolModel {
                                    current_apy: new_apy,
                                    last_update: now,
                                    ..l.protocols[i]
                                },
                            ),
                            ..l
                        },
                    )
                }
            },
        }
    }
}

/// The administrator setting the pause flag.
pub open spec fn pause_spec(l: LedgerModel, signer: Pubkey, pause: bool) -> Result<
    LedgerModel,
    LedgerError,
> {
    if signer != l.aggregator.admin {
        Err(agg_err(YieldAggregatorError::Unauthorized))
    } else {
        Ok(
            LedgerModel {
                aggregator: YieldAggregator { emergency_paused: pause, ..l.aggregator },
                ..l
            },
        )
    }
}

pub struct InitializeYieldAggregatorParams {
    pub admin: Pubkey,
}

pub struct AddProtocolParams {
    pub name: String,
    pub chain_id: u32,
    pub initial_apy: u64,
    pub max_capacity: u64,
    pub risk_score: u8,
}

pub struct DepositForYieldParams {
    pub amount: u64,
    pub target_protocol: String,
    pub target_chain_id: u32,
    pub min_apy: u64,
}

pub struct WithdrawYieldParams {
    pub amount: u64,
    pub target_chain_id: u32,
}

pub struct RebalancePositionParams {
    pub from_protocol: String,
    pub to_protocol: String,
    pub amount: u64,
    pub min_apy_improvement: u64,
}

pub struct UpdateYieldRatesParams {
    pub protocol_name: String,
    pub new_apy: u64,
}

pub struct CompoundYieldParams {
    pub protocol_name: String,
}

pub struct EmergencyPauseParams {
    pub pause: bool,
}

/// The notice of a deposit, for the transport and for indexers.
#[derive(Debug)]
pub struct CrossChainDepositRequested {
    pub user: Pubkey,
    pub amount: u64,
    pub target_chain: u32,
    pub target_protocol: String,
    pub timestamp: i64,
}

/// The notice of a withdrawal, for the transport and for indexers.
#[derive(Debug)]
pub struct CrossChainWithdrawRequested {
    pub user: Pubkey,
    pub amount: u64,
    pub target_chain: u32,
    pub timestamp: i64,
}

/// The intent that a rebalance records, for the transport to carry out.
#[derive(Debug)]
pub struct RebalanceRequested {
    pub user: Pubkey,
    pub from_protocol: String,
    pub to_protocol: String,
    pub amount: u64,
    pub target_chain: u32,
    pub timestamp: i64,
}

pub struct GetOptimalStrategyParams {
    pub amount: u64,
    pub risk_tolerance: u8,
    pub min_apy: u64,
}

/// The protocol recommended for a deposit.
#[derive(Debug)]
pub struct OptimalStrategyResponse {
    pub recommended_protocol: String,
    pub expected_apy: u64,
    pub risk_score: u8,
    pub chain_id: u32,
}

/// A protocol that a deposit may go to: active, paying at least `min_apy`,
/// no riskier than `risk_tolerance`.
pub open spec fn eligible(p: ProtocolModel, risk_tolerance: u8, min_apy: u64) -> bool {
    &&& p.is_active
    &&& p.current_apy >= min_apy
    &&& p.risk_score <= risk_tolerance
}

/// Protocol `i` is preferred to protocol `j`, or is `j`: higher APY first,
/// then lower risk, then earlier registration.
pub open spec fn ranks_before(ps: Seq<ProtocolModel>, i: int, j: int) -> bool {
    ||| ps[i].current_apy > ps[j].current_apy
    ||| ps[i].current_apy == ps[j].current_apy && ps[i].risk_score < ps[j].risk_score
    ||| ps[i].current_apy == ps[j].current_apy && ps[i].risk_score == ps[j].risk_score && i <= j
}

/// Protocol `i` is the recommendation: eligible, and preferred to every
/// other eligible protocol.
pub open spec fn is_best(ps: Seq<ProtocolModel>, i: int, risk_tolerance: u8, min_apy: u64) -> bool {
    &&& 0 <= i < ps.len()
    &&& eligible(ps[i], risk_tolerance, min_apy)
    &&& forall|j: int|
        0 <= j < ps.len() && eligible(#[trigger] ps[j], risk_tolerance, min_apy) ==> ranks_before(
            ps,
            i,
            j,
        )
}

/// The outcome of `exec` on the ledger: where the model transition `spec`
/// succeeds the ledger becomes its result, else it is left as it was.
pub open spec fn applied(spec: Result<LedgerModel, LedgerError>, before: LedgerModel, after: LedgerModel, ok: bool, err: Option<LedgerError>) -> bool {
    match spec {
        Ok(m) => ok && err is None && after == m,
        Err(e) => !ok && err == Some(e) && after == before,
    }
}

pub open spec fn err_of<T>(r: Result<T, LedgerError>) -> Option<LedgerError> {
    match r {
        Ok(_) => None,
        Err(e) => Some(e),
    }
}

impl YieldLedger {
    /// A fresh ledger administered by `params.admin`.
    pub fn initialize_yield_aggregator(params: InitializeYieldAggregatorParams, now: i64) -> (r:
        YieldLedger)
        ensures
            r@ == initial_ledger(params.admin, now),
            ledger_wf(r@),
    {
        let r = YieldLedger {
            aggregator: YieldAggregator {
                admin: params.admin,
                total_protocols: 0,
                total_value_locked: 0,
                fee_rate: 0,
                emergency_paused: false,
                created_at: now,
            },
            protocols: Vec::new(),
            positions: Vec::new(),
        };
        assert(r@.protocols =~= Seq::<ProtocolModel>::empty());
        r
    }

    fn find_protocol(&self, name: &String) -> (r: Option<usize>)
        requires
            ledger_wf(self@),
        ensures
            r matches Some(k) ==> protocol_index(self@.protocols, name@) == Some(k as int) && k
                < self.protocols@.len() && self@.protocols[k as int] == self.protocols@[k as int]@,
            r is None ==> protocol_index(self@.protocols, name@) is None,
    {
        let mut i: usize = 0;
        while i < self.protocols.len()
            invariant
                ledger_wf(self@),
                0 <= i <= self.protocols@.len(),
                forall|k: int| 0 <= k < i ==> #[trigger] self@.protocols[k].name != name@,
            decreases self.protocols@.len() - i,
        {
            if self.protocols[i].name == *name {
                assert(self@.protocols[i as int].name == name@);
                let ghost c = choose|k: int| 0 <= k < self@.protocols.len() && #[trigger] self@.protocols[k].name == name@;
                assert(c == i);
                return Some(i);
            }
            i += 1;
        }
        None
    }

    fn find_position(&self, user: &Pubkey) -> (r: Option<usize>)
        requires
            ledger_wf(self@),
        ensures
            r matches Some(k) ==> position_index(self@.positions, *user) == Some(k as int) && k
                < self.positions@.len(),
            r is None ==> position_index(self@.positions, *user) is None,
    {
        let mut i: usize = 0;
        while i < self.positions.len()
            invariant
                ledger_wf(self@),
                0 <= i <= self.positions@.len(),
                forall|k: int| 0 <= k < i ==> #[trigger] self@.positions[k].user != *user,
            decreases self.positions@.len() - i,
        {
            if self.positions[i].user.same(user) {
                let ghost c = choose|k: int| 0 <= k < self@.positions.len() && #[trigger] self@.positions[k].user == *user;
                assert(c == i);
                return Some(i);
            }
            i += 1;
        }
        None
    }

    /// Registers a protocol under a new name, active, holding nothing.
    pub fn add_protocol(&mut self, signer: &Pubkey, params: AddProtocolParams, now: i64) -> (r:
        Result<(), LedgerError>)
        requires
            ledger_wf(old(self)@),
        ensures
            ledger_wf(final(self)@),
            applied(
                add_protocol_spec(
                    old(self)@,
                    *signer,
                    params.name@,
                    params.chain_id,
                    params.initial_apy,
                    params.max_capacity,
                    params.risk_score,
                    now,
                ),
                old(self)@,
                final(self)@,
                r is Ok,
                err_of(r),
            ),
    {
        if !signer.same(&self.aggregator.admin) {
            return Err(LedgerError::Aggregator(YieldAggregatorError::Unauthorized));
        }
        if params.risk_score < MIN_RISK_SCORE || params.risk_score > MAX_RISK_SCORE {
            return Err(LedgerError::Aggregator(YieldAggregatorError::InvalidRiskScore));
        }
        if params.name.as_str().as_bytes().len() > MAX_PROTOCOL_NAME_LEN {
            return Err(LedgerError::Aggregator(YieldAggregatorError::InvalidProtocolName));
        }
        if self.find_protocol(&params.name).is_some() || self.aggregator.total_protocols == u64::MAX {
            return Err(LedgerError::App(MyOAppError::InvalidProtocol));
        }
        let ghost before = self@;
        let info = ProtocolInfo {
            name: params.name,
            chain_id: params.chain_id,
            current_apy: params.initial_apy,
            tvl: 0,
            max_capacity: params.max_capacity,
            risk_score: params.risk_score,
            is_active: true,
            last_update: now,
        };
        self.protocols.push(info);
        self.aggregator.total_protocols = self.aggregator.total_protocols + 1;
        proof {
            let spec = add_protocol_spec(before, *signer, params.name@, params.chain_id, params.initial_apy, params.max_capacity, params.risk_score, now);
            assert(self@.protocols =~= spec.unwrap().protocols);
            assert(forall|k: int| 0 <= k < before.protocols.len() ==> #[trigger] before.protocols[k].name != params.name@);
        }
        Ok(())
    }

    /// Deposits `params.amount` from `user` into the protocol
    /// `params.target_protocol`, opening the user's position on first use;
    /// returns the notice of the deposit.
    pub fn deposit_for_yield(&mut self, user: &Pubkey, params: DepositForYieldParams, now: i64) -> (r:
        Result<CrossChainDepositRequested, LedgerError>)
        requires
            ledger_wf(old(self)@),
        ensures
            ledger_wf(final(self)@),
            applied(
                deposit_spec(
                    old(self)@,
                    *user,
                    params.amount,
                    params.target_protocol@,
                    params.min_apy,
                    now,
                ),
                old(self)@,
                final(self)@,
                r is Ok,
                err_of(r),
            ),
            r matches Ok(ev) ==> ev.user == *user && ev.amount == params.amount && ev.target_chain
                == params.target_chain_id && ev.target_protocol@ == params.target_protocol@
                && ev.timestamp == now,
    {
        if self.aggregator.emergency_paused {
            return Err(LedgerError::Aggregator(YieldAggregatorError::EmergencyPaused));
        }
        let amount = params.amount;
        if amount == 0 {
            return Err(LedgerError::Aggregator(YieldAggregatorError::InvalidAmount));
        }
        let i = match self.find_protocol(&params.target_protocol) {
            None => return Err(LedgerError::App(MyOAppError::InvalidProtocol)),
            Some(i) => i,
        };
        assert(protocol_wf(self@.protocols[i as int]));
        if !self.protocols[i].is_active {
            return Err(LedgerError::Aggregator(YieldAggregatorError::ProtocolInactive));
        }
        if self.protocols[i].current_apy < params.min_apy {
            return Err(LedgerError::Aggregator(YieldAggregatorError::ApyTooLow));
        }
        let tvl = self.protocols[i].tvl;
        if amount > self.protocols[i].max_capacity - tvl {
            return Err(LedgerError::Aggregator(YieldAggregatorError::ProtocolCapacityExceeded));
        }
        if amount > u64::MAX - self.aggregator.total_value_locked {
            return Err(LedgerError::Aggregator(YieldAggregatorError::InvalidAmount));
        }
        let ghost before = self@;
        match self.find_position(user) {
            None => {
                let q = UserPosition {
                    user: *user,
                    total_deposits: amount,
                    total_yield_earned: 0,
                    position_count: 1,
                    last_activity: now,
                };
                self.positions.push(q);
                proof {
                    lemma_total_deposits_push(before.positions, q);
                }
            },
            Some(j) => {
                let q = self.positions[j];
                proof {
                    lemma_position_within_total(self@.positions, j as int);
                }
                if q.position_count == u32::MAX {
                    return Err(LedgerError::Aggregator(YieldAggregatorError::InvalidAmount));
                }
                self.positions[j] = UserPosition {
                    total_deposits: q.total_deposits + amount,
                    position_count: q.position_count + 1,
                    last_activity: now,
                    ..q
                };
                proof {
                    lemma_total_deposits_update(before.positions, j as int, self.positions@[j as int]);
                }
            },
        }
        self.protocols[i].tvl = tvl + amount;
        self.aggregator.total_value_locked = self.aggregator.total_value_locked + amount;
        proof {
            let m = deposit_spec(before, *user, amount, params.target_protocol@, params.min_apy, now).unwrap();
            assert(self@.protocols =~= m.protocols);
            assert(self@.positions =~= m.positions);
        }
        Ok(
            CrossChainDepositRequested {
                user: *user,
                amount,
                target_chain: params.target_chain_id,
                target_protocol: params.target_protocol,
                timestamp: now,
            },
        )
    }

    /// `signer` withdraws `params.amount` from the position of `owner`;
    /// returns the notice of the withdrawal.
    pub fn withdraw_yield(
        &mut self,
        signer: &Pubkey,
        owner: &Pubkey,
        params: WithdrawYieldParams,
        now: i64,
    ) -> (r: Result<CrossChainWithdrawRequested, LedgerError>)
        requires
            ledger_wf(old(self)@),
        ensures
            ledger_wf(final(self)@),
            applied(
                withdraw_spec(old(self)@, *signer, *owner, params.amount, now),
                old(self)@,
                final(self)@,
                r is Ok,
                err_of(r),
            ),
            r matches Ok(ev) ==> ev.user == *owner && ev.amount == params.amount && ev.target_chain
                == params.target_chain_id && ev.timestamp == now,
    {
        if self.aggregator.emergency_paused {
            return Err(LedgerError::Aggregator(YieldAggregatorError::EmergencyPaused));
        }
        if !signer.same(owner) {
            return Err(LedgerError::Aggregator(YieldAggregatorError::Unauthorized));
        }
        let amount = params.amount;
        if amount == 0 {
            return Err(LedgerError::Aggregator(YieldAggregatorError::InvalidAmount));
        }
        let j = match self.find_position(owner) {
            None => return Err(LedgerError::App(MyOAppError::PositionNotFound)),
            Some(j) => j,
        };
        let q = self.positions[j];
        if q.total_deposits < amount {
            return Err(LedgerError::App(MyOAppError::WithdrawalExceedsBalance));
        }
        proof {
            lemma_position_within_total(self@.positions, j as int);
        }
        let ghost before = self@;
        self.positions[j] = UserPosition {
            total_deposits: q.total_deposits - amount,
            last_activity: now,
            ..q
        };
        self.aggregator.total_value_locked = self.aggregator.total_value_locked - amount;
        proof {
            lemma_total_deposits_update(before.positions, j as int, self.positions@[j as int]);
            let m = withdraw_spec(before, *signer, *owner, amount, now).unwrap();
            assert(self@.positions =~= m.positions);
            assert(self@.protocols =~= m.protocols);
        }
        Ok(
            CrossChainWithdrawRequested {
                user: *owner,
                amount,
                target_chain: params.target_chain_id,
                timestamp: now,
            },
        )
    }

    /// `signer` folds the earned yield of `owner`'s position into its principal.
    pub fn compound_yield(
        &mut self,
        signer: &Pubkey,
        owner: &Pubkey,
        params: CompoundYieldParams,
        now: i64,
    ) -> (r: Result<(), LedgerError>)
        requires
            ledger_wf(old(self)@),
        ensures
            ledger_wf(final(self)@),
            applied(
                compound_spec(old(self)@, *signer, *owner, params.protocol_name@, now),
                old(self)@,
                final(self)@,
                r is Ok,
                err_of(r),
            ),
    {
        if self.aggregator.emergency_paused {
            return Err(LedgerError::Aggregator(YieldAggregatorError::EmergencyPaused));
        }
        if !signer.same(owner) {
            return Err(LedgerError::Aggregator(YieldAggregatorError::Unauthorized));
        }
        let j = match self.find_position(owner) {
            None => return Err(LedgerError::App(MyOAppError::PositionNotFound)),
            Some(j) => j,
        };
        let i = match self.find_protocol(&params.protocol_name) {
            None => return Err(LedgerError::App(MyOAppError::InvalidProtocol)),
            Some(i) => i,
        };
        if !self.protocols[i].is_active {
            return Err(LedgerError::Aggregator(YieldAggregatorError::ProtocolInactive));
        }
        let q = self.positions[j];
        let y = q.total_yield_earned;
        if y == 0 {
            return Err(LedgerError::Aggregator(YieldAggregatorError::NoYieldToCompound));
        }
        proof {
            lemma_position_within_total(self@.positions, j as int);
        }
        if self.aggregator.total_value_locked > u64::MAX - y {
            return Err(LedgerError::Aggregator(YieldAggregatorError::InvalidAmount));
        }
        let ghost before = self@;
        self.positions[j] = UserPosition {
            total_deposits: q.total_deposits + y,
            total_yield_earned: 0,
            last_activity: now,
            ..q
        };
        self.aggregator.total_value_locked = self.aggregator.total_value_locked + y;
        proof {
            lemma_total_deposits_update(before.positions, j as int, self.positions@[j as int]);
            let m = compound_spec(before, *signer, *owner, params.protocol_name@, now).unwrap();
            assert(self@.positions =~= m.positions);
            assert(self@.protocols =~= m.protocols);
        }
        Ok(())
    }

    /// The administrator credits `amount` of earned yield to `owner`'s position.
    pub fn credit_yield(&mut self, signer: &Pubkey, owner: &Pubkey, amount: u64) -> (r: Result<
        (),
        LedgerError,
    >)
        requires
            ledger_wf(old(self)@),
        ensures
            ledger_wf(final(self)@),
            applied(
                credit_yield_spec(old(self)@, *signer, *owner, amount),
                old(self)@,
                final(self)@,
                r is Ok,
                err_of(r),
            ),
    {
        if !signer.same(&self.aggregator.admin) {
            return Err(LedgerError::Aggregator(YieldAggregatorError::Unauthorized));
        }
        if amount == 0 {
            return Err(LedgerError::Aggregator(YieldAggregatorError::InvalidAmount));
        }
        let j = match self.find_position(owner) {
            None => return Err(LedgerError::App(MyOAppError::PositionNotFound)),
            Some(j) => j,
        };
        let q = self.positions[j];
        if q.total_yield_earned > u64::MAX - amount {
            return Err(LedgerError::Aggregator(YieldAggregatorError::InvalidAmount));
        }
        let ghost before = self@;
        self.positions[j] = UserPosition { total_yield_earned: q.total_yield_earned + amount, ..q };
        proof {
            lemma_total_deposits_update(before.positions, j as int, self.positions@[j as int]);
            let m = credit_yield_spec(before, *signer, *owner, amount).unwrap();
            assert(self@.positions =~= m.positions);
            assert(self@.protocols =~= m.protocols);
        }
        Ok(())
    }

    /// `signer` asks to move `params.amount` of `owner`'s position to a
    /// protocol whose APY beats the source's by more than
    /// `params.min_apy_improvement`; returns the intent to be carried out.
    pub fn rebalance_position(
        &mut self,
        signer: &Pubkey,
        owner: &Pubkey,
        params: RebalancePositionParams,
        now: i64,
    ) -> (r: Result<RebalanceRequested, LedgerError>)
        requires
            ledger_wf(old(self)@),
        ensures
            ledger_wf(final(self)@),
            applied(
                rebalance_spec(
                    old(self)@,
                    *signer,
                    *owner,
                    params.from_protocol@,
                    params.to_protocol@,
                    params.amount,
                    params.min_apy_improvement,
                    now,
                ),
                old(self)@,
                final(self)@,
                r is Ok,
                err_of(r),
            ),
            r matches Ok(ev) ==> ev.user == *owner && ev.from_protocol@ == params.from_protocol@
                && ev.to_protocol@ == params.to_protocol@ && ev.amount == params.amount
                && ev.target_chain == old(self)@.protocols[protocol_index(
                old(self)@.protocols,
                params.from_protocol@,
            ).unwrap()].chain_id && ev.timestamp == now,
    {
        if self.aggregator.emergency_paused {
            return Err(LedgerError::Aggregator(YieldAggregatorError::EmergencyPaused));
        }
        if !signer.same(owner) {
            return Err(LedgerError::Aggregator(YieldAggregatorError::Unauthorized));
        }
        if params.amount == 0 {
            return Err(LedgerError::Aggregator(YieldAggregatorError::InvalidAmount));
        }
        let j = match self.find_position(owner) {
            None => return Err(LedgerError::App(MyOAppError::PositionNotFound)),
            Some(j) => j,
        };
        let a = match self.find_protocol(&params.from_protocol) {
            None => return Err(LedgerError::App(MyOAppError::InvalidProtocol)),
            Some(a) => a,
        };
        let b = match self.find_protocol(&params.to_protocol) {
            None => return Err(LedgerError::App(MyOAppError::InvalidProtocol)),
            Some(b) => b,
        };
        if !self.protocols[a].is_active || !self.protocols[b].is_active {
            return Err(LedgerError::Aggregator(YieldAggregatorError::ProtocolInactive));
        }
        let src_apy = self.protocols[a].current_apy as u128;
        let dst_apy = self.protocols[b].current_apy as u128;
        if dst_apy <= src_apy + params.min_apy_improvement as u128 {
            return Err(LedgerError::App(MyOAppError::RebalanceNotNeeded));
        }
        let q = self.positions[j];
        if q.total_deposits < params.amount {
            return Err(LedgerError::App(MyOAppError::WithdrawalExceedsBalance));
        }
        let ghost before = self@;
        self.positions[j] = UserPosition { last_activity: now, ..q };
        proof {
            lemma_total_deposits_update(before.positions, j as int, self.positions@[j as int]);
            let m = rebalance_spec(before, *signer, *owner, params.from_protocol@, params.to_protocol@, params.amount, params.min_apy_improvement, now).unwrap();
            assert(self@.positions =~= m.positions);
            assert(self@.protocols =~= m.protocols);
        }
        Ok(
            RebalanceRequested {
                user: *owner,
                from_protocol: params.from_protocol,
                to_protocol: params.to_protocol,
                amount: params.amount,
                target_chain: self.protocols[a].chain_id,
                timestamp: now,
            },
        )
    }

    /// The administrator sets the APY of the protocol `params.protocol_name`.
    pub fn update_yield_rates(&mut self, signer: &Pubkey, params: UpdateYieldRatesParams, now: i64) -> (r:
        Result<(), LedgerError>)
        requires
            ledger_wf(old(self)@),
        ensures
            ledger_wf(final(self)@),
            applied(
                update_rates_spec(old(self)@, *signer, params.protocol_name@, params.new_apy, now),
                old(self)@,
                final(self)@,
                r is Ok,
                err_of(r),
            ),
    {
        if !signer.same(&self.aggregator.admin) {
            return Err(LedgerError::Aggregator(YieldAggregatorError::Unauthorized));
        }
        let i = match self.find_protocol(&params.protocol_name) {
            None => return Err(LedgerError::App(MyOAppError::InvalidProtocol)),
            Some(i) => i,
        };
        if params.new_apy == 0 || params.new_apy > MAX_APY_BPS {
            return Err(LedgerError::App(MyOAppError::InvalidYieldRate));
        }
        let ghost before = self@;
        self.protocols[i].current_apy = params.new_apy;
        self.protocols[i].last_update = now;
        proof {
            let m = update_rates_spec(before, *signer, params.protocol_name@, params.new_apy, now).unwrap();
            assert(self@.protocols =~= m.protocols);
            assert forall|k: int| 0 <= k < self@.protocols.len() implies #[trigger] protocol_wf(
                self@.protocols[k],
            ) by {
                assert(protocol_wf(before.protocols[k]));
            }
            assert forall|a: int, b: int|
                0 <= a < self@.protocols.len() && 0 <= b < self@.protocols.len() && a != b implies (
                #[trigger] self@.protocols[a]).name != (#[trigger] self@.protocols[b]).name by {
                assert(before.protocols[a].name != before.protocols[b].name);
            }

        }
        Ok(())
    }

    /// The administrator sets the pause flag.
    pub fn emergency_pause(&mut self, signer: &Pubkey, params: EmergencyPauseParams) -> (r: Result<
        (),
        LedgerError,
    >)
        requires
            ledger_wf(old(self)@),
        ensures
            ledger_wf(final(self)@),
            applied(
                pause_spec(old(self)@, *signer, params.pause),
                old(self)@,
                final(self)@,
                r is Ok,
                err_of(r),
            ),
    {
        if !signer.same(&self.aggregator.admin) {
            return Err(LedgerError::Aggregator(YieldAggregatorError::Unauthorized));
        }
        self.aggregator.emergency_paused = params.pause;
        Ok(())
    }

    /// The recommended protocol for a deposit: among the eligible ones, the
    /// highest APY, then the lowest risk, then the earliest registered;
    /// `None` where no protocol is eligible.
    pub fn get_optimal_strategy(&self, params: GetOptimalStrategyParams) -> (r: Option<
        OptimalStrategyResponse,
    >)
        ensures
            r is None <==> forall|i: int|
                0 <= i < self@.protocols.len() ==> !eligible(
                    #[trigger] self@.protocols[i],
                    params.risk_tolerance,
                    params.min_apy,
                ),
            r matches Some(resp) ==> exists|i: int|
                is_best(self@.protocols, i, params.risk_tolerance, params.min_apy)
                    && resp.recommended_protocol@ == #[trigger] self@.protocols[i].name
                    && resp.expected_apy == self@.protocols[i].current_apy && resp.risk_score
                    == self@.protocols[i].risk_score && resp.chain_id
                    == self@.protocols[i].chain_id,
    {
        let ghost ps = self@.protocols;
        let rt = params.risk_tolerance;
        let min_apy = params.min_apy;
        let mut best: Option<usize> = None;
        let mut i: usize = 0;
        while i < self.protocols.len()
            invariant
                0 <= i <= self.protocols@.len(),
                ps == self@.protocols,
                best is None ==> forall|k: int| 0 <= k < i ==> !eligible(#[trigger] ps[k], rt, min_apy),
                best matches Some(b) ==> b < i && eligible(ps[b as int], rt, min_apy) && forall|k: int|
                    0 <= k < i && eligible(#[trigger] ps[k], rt, min_apy) ==> ranks_before(
                        ps,
                        b as int,
                        k,
                    ),
            decreases self.protocols@.len() - i,
        {
            let p = &self.protocols[i];
            assert(ps[i as int] == p@);
            if p.is_active && p.current_apy >= min_apy && p.risk_score <= rt {
                match best {
                    None => {
                        best = Some(i);
                    },
                    Some(b) => {
                        let q = &self.protocols[b];
                        assert(ps[b as int] == q@);
                        if p.current_apy > q.current_apy || (p.current_apy == q.current_apy
                            && p.risk_score < q.risk_score) {
                            best = Some(i);
                        }
                    },
                }
            }
            i += 1;
        }
        match best {
            None => None,
            Some(b) => {
                let p = &self.protocols[b];
                assert(ps[b as int] == p@);
                let resp = OptimalStrategyResponse {
                    recommended_protocol: p.name.clone(),
                    expected_apy: p.current_apy,
                    risk_score: p.risk_score,
                    chain_id: p.chain_id,
                };
                assert(is_best(ps, b as int, rt, min_apy));
                assert(resp.recommended_protocol@ == self@.protocols[b as int].name);
                Some(resp)
            },
        }
    }

    /// The protocol registered under `name`.
    pub fn protocol(&self, name: &String) -> (r: Option<&ProtocolInfo>)
        requires
            ledger_wf(self@),
        ensures
            r is None <==> protocol_index(self@.protocols, name@) is None,
            r matches Some(p) ==> p@ == self@.protocols[protocol_index(
                self@.protocols,
                name@,
            ).unwrap()],
    {
        match self.find_protocol(name) {
            None => None,
            Some(i) => Some(&self.protocols[i]),
        }
    }

    /// The position of `user`.
    pub fn position(&self, user: &Pubkey) -> (r: Option<UserPosition>)
        requires
            ledger_wf(self@),
        ensures
            r is None <==> position_index(self@.positions, *user) is None,
            r matches Some(q) ==> q == self@.positions[position_index(
                self@.positions,
                *user,
            ).unwrap()],
    {
        match self.find_position(user) {
            None => None,
            Some(j) => Some(self.positions[j]),
        }
    }
}

/// Depositing an amount and then withdrawing the same amount from the same
/// position brings the user's deposits and the aggregator's total value
/// locked back to what they were.
pub proof fn lemma_deposit_then_withdraw(
    l: LedgerModel,
    user: Pubkey,
    amount: u64,
    target: Seq<char>,
    min_apy: u64,
    t1: i64,
    t2: i64,
)
    requires
        ledger_wf(l),
        deposit_spec(l, user, amount, target, min_apy, t1) is Ok,
    ensures
        withdraw_spec(deposit_spec(l, user, amount, target, min_apy, t1).unwrap(), user, user, amount, t2) is Ok,
        deposits_of(
            withdraw_spec(deposit_spec(l, user, amount, target, min_apy, t1).unwrap(), user, user, amount, t2).unwrap(),
            user,
        ) == deposits_of(l, user),
        withdraw_spec(
            deposit_spec(l, user, amount, target, min_apy, t1).unwrap(),
            user,
            user,
            amount,
            t2,
        ).unwrap().aggregator.total_value_locked == l.aggregator.total_value_locked,
{
    let l1 = deposit_spec(l, user, amount, target, min_apy, t1).unwrap();
    match position_index(l.positions, user) {
        None => {
            let n = l.positions.len() as int;
            assert(l1.positions[n].user == user);
            let c = choose|k: int| 0 <= k < l1.positions.len() && #[trigger] l1.positions[k].user == user;
            assert(c == n);
            assert(position_index(l1.positions, user) == Some(n));
            let l2 = withdraw_spec(l1, user, user, amount, t2).unwrap();
            assert(l2.positions[n].user == user);
            let c2 = choose|k: int| 0 <= k < l2.positions.len() && #[trigger] l2.positions[k].user == user;
            assert(c2 == n);
        },
        Some(j) => {
            lemma_position_within_total(l.positions, j);
            assert(l1.positions[j].user == user);
            let c = choose|k: int| 0 <= k < l1.positions.len() && #[trigger] l1.positions[k].user == user;
            assert(l.positions[c].user == user);
            assert(c == j);
            let l2 = withdraw_spec(l1, user, user, amount, t2).unwrap();
            assert(l2.positions[j].user == user);
            let c2 = choose|k: int| 0 <= k < l2.positions.len() && #[trigger] l2.positions[k].user == user;
            assert(l.positions[c2].user == user);
            assert(c2 == j);
        },
    }
}

/// A deposit never takes a protocol past its capacity: one that would is
/// refused with the capacity error, and after one that succeeds every
/// protocol still holds no more than its capacity.
pub proof fn lemma_deposit_within_capacity(
    l: LedgerModel,
    user: Pubkey,
    amount: u64,
    target: Seq<char>,
    min_apy: u64,
    now: i64,
)
    requires
        ledger_wf(l),
    ensures
        deposit_spec(l, user, amount, target, min_apy, now) matches Ok(l1) ==> forall|i: int|
            0 <= i < l1.protocols.len() ==> (#[trigger] l1.protocols[i]).tvl
                <= l1.protocols[i].max_capacity,
        protocol_index(l.protocols, target) matches Some(i) ==> (!l.aggregator.emergency_paused
            && amount != 0 && l.protocols[i].is_active && l.protocols[i].current_apy >= min_apy
            && l.protocols[i].tvl + amount > l.protocols[i].max_capacity ==> deposit_spec(
            l,
            user,
            amount,
            target,
            min_apy,
            now,
        ) == Err::<LedgerModel, LedgerError>(
            agg_err(YieldAggregatorError::ProtocolCapacityExceeded),
        )),
{
    if let Ok(l1) = deposit_spec(l, user, amount, target, min_apy, now) {
        assert forall|i: int| 0 <= i < l1.protocols.len() implies (#[trigger] l1.protocols[i]).tvl
            <= l1.protocols[i].max_capacity by {
            assert(protocol_wf(l.protocols[i]));
        }
    }
}

/// Registering a protocol keeps every protocol within its capacity: the new
/// one holds nothing, and the others are untouched.
pub proof fn lemma_add_protocol_within_capacity(
    l: LedgerModel,
    signer: Pubkey,
    name: Seq<char>,
    chain_id: u32,
    initial_apy: u64,
    max_capacity: u64,
    risk_score: u8,
    now: i64,
)
    requires
        ledger_wf(l),
    ensures
        add_protocol_spec(l, signer, name, chain_id, initial_apy, max_capacity, risk_score, now) matches Ok(l1)
            ==> forall|i: int|
            0 <= i < l1.protocols.len() ==> (#[trigger] l1.protocols[i]).tvl
                <= l1.protocols[i].max_capacity,
        signer == l.aggregator.admin && MIN_RISK_SCORE <= risk_score <= MAX_RISK_SCORE
            && encode_utf8(name).len() <= MAX_PROTOCOL_NAME_LEN && protocol_index(l.protocols, name)
            is None && l.aggregator.total_protocols < u64::MAX ==> add_protocol_spec(
            l,
            signer,
            name,
            chain_id,
            initial_apy,
            max_capacity,
            risk_score,
            now,
        ) is Ok,
{
    if let Ok(l1) = add_protocol_spec(l, signer, name, chain_id, initial_apy, max_capacity, risk_score, now) {
        assert forall|i: int| 0 <= i < l1.protocols.len() implies (#[trigger] l1.protocols[i]).tvl
            <= l1.protocols[i].max_capacity by {
            if i < l.protocols.len() {
                assert(protocol_wf(l.protocols[i]));
            }
        }
    }
}

/// While the pause flag is set, deposits, withdrawals, rebalances and
/// compounding are all refused with the pause error, and so change nothing.
pub proof fn lemma_pause_blocks(
    l: LedgerModel,
    signer: Pubkey,
    owner: Pubkey,
    amount: u64,
    target: Seq<char>,
    min_apy: u64,
    from: Seq<char>,
    to: Seq<char>,
    min_apy_improvement: u64,
    now: i64,
)
    requires
        l.aggregator.emergency_paused,
    ensures
        deposit_spec(l, owner, amount, target, min_apy, now) == Err::<LedgerModel, LedgerError>(
            agg_err(YieldAggregatorError::EmergencyPaused),
        ),
        withdraw_spec(l, signer, owner, amount, now) == Err::<LedgerModel, LedgerError>(
            agg_err(YieldAggregatorError::EmergencyPaused),
        ),
        rebalance_spec(l, signer, owner, from, to, amount, min_apy_improvement, now) == Err::<
            LedgerModel,
            LedgerError,
        >(agg_err(YieldAggregatorError::EmergencyPaused)),
        compound_spec(l, signer, owner, target, now) == Err::<LedgerModel, LedgerError>(
            agg_err(YieldAggregatorError::EmergencyPaused),
        ),
{
}

/// Pausing and then resuming gives back the ledger exactly as it was, so
/// every operation behaves again as before the pause.
pub proof fn lemma_pause_then_resume(l: LedgerModel, admin: Pubkey)
    requires
        !l.aggregator.emergency_paused,
        admin == l.aggregator.admin,
    ensures
        pause_spec(l, admin, true) is Ok,
        pause_spec(pause_spec(l, admin, true).unwrap(), admin, false) == Ok::<LedgerModel, LedgerError>(l),
{
}

} // verus!