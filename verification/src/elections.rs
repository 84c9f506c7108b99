//! Leader election over a meta store, as decisions between store operations.
//!
//! Three machines, each a step function from a state and the reply to the last store
//! operation to the next state and the next operation to perform:
//! - `campaign_step`: run for election (read the leader and lease, claim leadership if there
//!   is no leader, then try to renew the lease);
//! - `term_step`: act on the current term (renew the lease; a follower checks whether the
//!   leader's lease has expired and clears it if so);
//! - `election_step`: the election loop around them (initial election, publishing who leads,
//!   terms, follow-up elections, shutdown).
//! The caller performs the operations (reads, writes, transactions, timers) and feeds back
//! what happened.

use rand::Rng;
use vstd::prelude::*;

verus! {

#[verifier::external_type_specification]
#[verifier::external_body]
pub struct ExSystemTime(std::time::SystemTime);

/// Calls `std::time::SystemTime::now`. Nothing is claimed of the value: it is the machine's
/// clock.
#[verifier::external_body]
fn system_now() -> std::time::SystemTime {
    std::time::SystemTime::now()
}

/// Calls `std::time::SystemTime::duration_since` with `UNIX_EPOCH`, dropping the error it
/// returns for a time before the epoch. Nothing is claimed of the value.
#[verifier::external_body]
fn duration_since_unix_epoch(t: std::time::SystemTime) -> Option<std::time::Duration> {
    t.duration_since(std::time::UNIX_EPOCH).ok()
}

/// The time since the Unix epoch by the machine's clock; `None` when the clock reads before
/// the epoch.
pub fn since_epoch() -> Option<std::time::Duration> {
    duration_since_unix_epoch(system_now())
}

/// A random lease id, from `rand::thread_rng().gen_range(0..u64::MAX)`. Claimed: only that
/// it lies in that range; the value is random.
#[verifier::external_body]
pub(crate) fn gen_rand_lease_id() -> (r: u64)
    ensures
        r < u64::MAX,
{
    rand::thread_rng().gen_range(0..u64::MAX)
}

/// The identity of a leader: its lease id and address.
#[derive(Clone, Debug)]
pub struct MetaLeaderInfo {
    pub lease_id: u64,
    pub node_address: String,
}

impl MetaLeaderInfo {
    /// An identical copy.
    pub fn duplicate(&self) -> (r: MetaLeaderInfo)
        ensures
            r == *self,
    {
        MetaLeaderInfo { lease_id: self.lease_id, node_address: self.node_address.clone() }
    }
}

/// A leader's lease: who holds it, when it was registered and when it expires (seconds since
/// the epoch).
#[derive(Clone, Debug)]
pub struct MetaLeaseInfo {
    pub leader: Option<MetaLeaderInfo>,
    pub lease_register_time: u64,
    pub lease_expire_time: u64,
}

/// The outcome of an election.
#[derive(Clone, Debug)]
pub struct ElectionOutcome {
    pub meta_leader_info: MetaLeaderInfo,
    pub meta_lease_info: MetaLeaseInfo,
    /// Whether this node is the leader.
    pub is_leader: bool,
}

/// Errors of the meta store.
#[derive(Clone, Debug)]
pub enum MetaStoreError {
    /// A transaction's precondition did not hold.
    TransactionAbort,
    Internal(String),
    ItemNotFound(String),
}

/// An operation on the meta store (keys: the leader key and the lease key).
#[derive(Debug)]
pub enum StoreAction {
    /// Read the leader key.
    ReadLeader,
    /// Read the lease key.
    ReadLease,
    /// Write the encoded leader info under the leader key.
    PutLeader(MetaLeaderInfo),
    /// In one transaction: check that the leader key holds the encoded leader info, and write
    /// the encoded lease under the lease key.
    RenewLease(MetaLeaderInfo, MetaLeaseInfo),
    /// In one transaction: delete the leader key and the lease key.
    DeleteLeaderAndLease,
    /// Decode the stored lease bytes.
    DecodeLease(Vec<u8>),
}

/// What came of the last store operation.
#[derive(Debug)]
pub enum StoreEvent {
    /// Nothing yet: the machine starts.
    Begin,
    /// The outcome of a read.
    Read(Result<Vec<u8>, MetaStoreError>),
    /// The outcome of a write or transaction.
    Wrote(Result<(), MetaStoreError>),
    /// The decoded lease.
    Decoded(MetaLeaseInfo),
}

/// A read's value: a missing key reads as empty; other errors fail the read.
pub open spec fn read_value(r: Result<Vec<u8>, MetaStoreError>) -> Option<Seq<u8>> {
    match r {
        Ok(v) => Some(v@),
        Err(MetaStoreError::ItemNotFound(_)) => Some(Seq::empty()),
        Err(_) => None,
    }
}

/// A lease renewal's outcome: `Some(true)` when the transaction went through (this node holds
/// the lease), `Some(false)` when it aborted (another node leads), `None` on other errors.
pub open spec fn renew_outcome(r: Result<(), MetaStoreError>) -> Option<bool> {
    match r {
        Ok(_) => Some(true),
        Err(MetaStoreError::TransactionAbort) => Some(false),
        Err(_) => None,
    }
}

/// The lease a leader takes at time `now` for `lease_time` seconds.
pub open spec fn lease_of(info: MetaLeaderInfo, now: u64, lease_time: u64) -> MetaLeaseInfo {
    MetaLeaseInfo {
        leader: Some(info),
        lease_register_time: now,
        lease_expire_time: (now + lease_time) as u64,
    }
}

/// The lease a leader takes at time `now` for `lease_time` seconds.
pub fn lease_for(info: &MetaLeaderInfo, now: u64, lease_time: u64) -> (r: MetaLeaseInfo)
    requires
        now + lease_time <= u64::MAX,
    ensures
        r == lease_of(*info, now, lease_time),
{
    MetaLeaseInfo {
        leader: Some(info.duplicate()),
        lease_register_time: now,
        lease_expire_time: now + lease_time,
    }
}

/// The value of a read.
pub fn read_value_of(r: Result<Vec<u8>, MetaStoreError>) -> (v: Option<Vec<u8>>)
    ensures
        match v {
            Some(x) => read_value(r) == Some(x@),
            None => read_value(r) is None,
        },
{
    match r {
        Ok(v) => Some(v),
        Err(MetaStoreError::ItemNotFound(_)) => Some(Vec::new()),
        Err(_) => None,
    }
}

/// The outcome of a lease renewal.
pub fn renew_outcome_of(r: &Result<(), MetaStoreError>) -> (v: Option<bool>)
    ensures
        v == renew_outcome(*r),
{
    match r {
        Ok(_) => Some(true),
        Err(MetaStoreError::TransactionAbort) => Some(false),
        Err(_) => None,
    }
}

/// Where a campaign stands.
#[derive(Debug)]
pub enum CampaignState {
    /// Not started.
    Start,
    /// Waiting for the leader key.
    AwaitLeader,
    /// Waiting for the lease key; whether the leader key was empty.
    AwaitLease { no_leader: bool },
    /// There was no leader; waiting for this node's claim to be written.
    AwaitPut { info: MetaLeaderInfo, lease: MetaLeaseInfo },
    /// Waiting for the lease renewal; `first` when this node claimed an empty leader key.
    AwaitRenew { info: MetaLeaderInfo, lease: MetaLeaseInfo, first: bool },
    /// Finished: the outcome, or `None` when the election has to be repeated.
    Done(Option<ElectionOutcome>),
}

/// What a campaign runs with.
#[derive(Clone, Debug)]
pub struct CampaignParams {
    /// This node's address.
    pub addr: String,
    /// How long a lease lasts, in seconds.
    pub lease_time_sec: u64,
    /// The lease id this node uses if it wins.
    pub next_lease_id: u64,
}

/// This node's leader info in a campaign.
pub open spec fn candidate(p: CampaignParams) -> MetaLeaderInfo {
    MetaLeaderInfo { lease_id: p.next_lease_id, node_address: p.addr }
}

/// One campaign step at time `now`: reading the leader, then the lease (a failed read ends
/// the campaign with `None`); with no leader, this node writes its claim (a failed write ends
/// with `None`) and renews the lease, winning only if the renewal goes through; with a leader,
/// it renews, and leads iff the renewal goes through (a failed renewal ends with `None`).
/// An event that does not answer the pending operation changes nothing.
pub open spec fn campaign_next(s: CampaignState, e: StoreEvent, p: CampaignParams, now: u64) -> (CampaignState, Option<StoreAction>) {
    match s {
        CampaignState::Start => (CampaignState::AwaitLeader, Some(StoreAction::ReadLeader)),
        CampaignState::AwaitLeader => match e {
            StoreEvent::Read(r) => match read_value(r) {
                None => (CampaignState::Done(None), None),
                Some(v) => (CampaignState::AwaitLease { no_leader: v.len() == 0 }, Some(StoreAction::ReadLease)),
            },
            _ => (CampaignState::AwaitLeader, None),
        },
        CampaignState::AwaitLease { no_leader } => match e {
            StoreEvent::Read(r) => match read_value(r) {
                None => (CampaignState::Done(None), None),
                Some(_) => {
                    let info = candidate(p);
                    let lease = lease_of(info, now, p.lease_time_sec);
                    if no_leader {
                        (CampaignState::AwaitPut { info, lease }, Some(StoreAction::PutLeader(info)))
                    } else {
                        (
                            CampaignState::AwaitRenew { info, lease, first: false },
                            Some(StoreAction::RenewLease(info, lease)),
                        )
                    }
                },
            },
            _ => (CampaignState::AwaitLease { no_leader }, None),
        },
        CampaignState::AwaitPut { info, lease } => match e {
            StoreEvent::Wrote(Ok(_)) => (
                CampaignState::AwaitRenew { info, lease, first: true },
                Some(StoreAction::RenewLease(info, lease_of(info, now, p.lease_time_sec))),
            ),
            StoreEvent::Wrote(Err(_)) => (CampaignState::Done(None), None),
            _ => (CampaignState::AwaitPut { info, lease }, None),
        },
        CampaignState::AwaitRenew { info, lease, first } => match e {
            StoreEvent::Wrote(r) => match renew_outcome(r) {
                None => (CampaignState::Done(None), None),
                Some(won) => if first && !won {
                    (CampaignState::Done(None), None)
                } else {
                    (
                        CampaignState::Done(
                            Some(ElectionOutcome { meta_leader_info: info, meta_lease_info: lease, is_leader: won }),
                        ),
                        None,
                    )
                },
            },
            _ => (CampaignState::AwaitRenew { info, lease, first }, None),
        },
        CampaignState::Done(o) => (CampaignState::Done(o), None),
    }
}

/// One campaign step at time `now`.
pub fn campaign_step(s: CampaignState, e: StoreEvent, p: &CampaignParams, now: u64) -> (r: (CampaignState, Option<StoreAction>))
    requires
        now + p.lease_time_sec <= u64::MAX,
    ensures
        r == campaign_next(s, e, *p, now),
{
    match s {
        CampaignState::Start => (CampaignState::AwaitLeader, Some(StoreAction::ReadLeader)),
        CampaignState::AwaitLeader => match e {
            StoreEvent::Read(r) => match read_value_of(r) {
                None => (CampaignState::Done(None), None),
                Some(v) => (CampaignState::AwaitLease { no_leader: v.len() == 0 }, Some(StoreAction::ReadLease)),
            },
            _ => (CampaignState::AwaitLeader, None),
        },
        CampaignState::AwaitLease { no_leader } => match e {
            StoreEvent::Read(r) => match read_value_of(r) {
                None => (CampaignState::Done(None), None),
                Some(_) => {
                    let info = MetaLeaderInfo { lease_id: p.next_lease_id, node_address: p.addr.clone() };
                    let lease = lease_for(&info, now, p.lease_time_sec);
                    if no_leader {
                        let claim = info.duplicate();
                        (CampaignState::AwaitPut { info, lease }, Some(StoreAction::PutLeader(claim)))
                    } else {
                        let claim = info.duplicate();
                        let renewal = lease_for(&info, now, p.lease_time_sec);
                        (
                            CampaignState::AwaitRenew { info, lease, first: false },
                            Some(StoreAction::RenewLease(claim, renewal)),
                        )
                    }
                },
            },
            _ => (CampaignState::AwaitLease { no_leader }, None),
        },
        CampaignState::AwaitPut { info, lease } => match e {
            StoreEvent::Wrote(Ok(_)) => {
                let claim = info.duplicate();
                let renewal = lease_for(&info, now, p.lease_time_sec);
                (CampaignState::AwaitRenew { info, lease, first: true }, Some(StoreAction::RenewLease(claim, renewal)))
            },
            StoreEvent::Wrote(Err(_)) => (CampaignState::Done(None), None),
            _ => (CampaignState::AwaitPut { info, lease }, None),
        },
        CampaignState::AwaitRenew { info, lease, first } => match e {
            StoreEvent::Wrote(r) => match renew_outcome_of(&r) {
                None => (CampaignState::Done(None), None),
                Some(won) => if first && !won {
                    (CampaignState::Done(None), None)
                } else {
                    (
                        CampaignState::Done(
                            Some(ElectionOutcome { meta_leader_info: info, meta_lease_info: lease, is_leader: won }),
                        ),
                        None,
                    )
                },
            },
            _ => (CampaignState::AwaitRenew { info, lease, first }, None),
        },
        CampaignState::Done(o) => (CampaignState::Done(o), None),
    }
}

/// Where a term check stands.
#[derive(Debug)]
pub enum TermState {
    Start,
    /// Waiting for the lease renewal.
    AwaitRenew,
    /// This node follows; waiting for the leader key.
    AwaitLeader,
    /// Waiting for the lease key.
    AwaitLease,
    /// Waiting for the stored lease to be decoded.
    AwaitDecode,
    /// The lease expired; waiting for the leader and lease keys to be deleted.
    AwaitDelete,
    /// Finished: `Some(true)` if the leader is still in power (this node renewed its own
    /// lease, or the leader's lease is live), `Some(false)` if the leader failed and a new
    /// election is needed, `None` if the lease renewal hit a store error.
    Done(Option<bool>),
}

/// What a term check runs with.
#[derive(Clone, Debug)]
pub struct TermParams {
    /// The leader of the current term as this node knows it.
    pub leader_info: MetaLeaderInfo,
    /// How long a lease lasts, in seconds.
    pub lease_time_sec: u64,
}

/// A stored lease has been expired for more than half a lease time at `now`.
pub open spec fn lease_lapsed(lease: MetaLeaseInfo, lease_time: u64, now: u64) -> bool {
    lease.lease_expire_time + lease_time / 2 < now
}

/// One term step at time `now`: renewing the lease (a renewal that hits a store error ends
/// with `None`, a successful one with `Some(true)`: this node leads and is still in power);
/// an aborted renewal means this node follows, so it reads
/// the lease (a failed read or an empty lease calls for an election), and when the lease has
/// lapsed it deletes the leader and the lease and calls for an election; otherwise the
/// leader is still in power.
pub open spec fn term_next(s: TermState, e: StoreEvent, p: TermParams, now: u64) -> (TermState, Option<StoreAction>) {
    match s {
        TermState::Start => (
            TermState::AwaitRenew,
            Some(StoreAction::RenewLease(p.leader_info, lease_of(p.leader_info, now, p.lease_time_sec))),
        ),
        TermState::AwaitRenew => match e {
            StoreEvent::Wrote(r) => match renew_outcome(r) {
                None => (TermState::Done(None), None),
                Some(true) => (TermState::Done(Some(true)), None),
                Some(false) => (TermState::AwaitLeader, Some(StoreAction::ReadLeader)),
            },
            _ => (TermState::AwaitRenew, None),
        },
        TermState::AwaitLeader => match e {
            StoreEvent::Read(r) => match read_value(r) {
                None => (TermState::Done(Some(false)), None),
                Some(_) => (TermState::AwaitLease, Some(StoreAction::ReadLease)),
            },
            _ => (TermState::AwaitLeader, None),
        },
        TermState::AwaitLease => match e {
            StoreEvent::Read(r) => match read_value(r) {
                Some(v) => if v.len() == 0 {
                    (TermState::Done(Some(false)), None)
                } else {
                    (TermState::AwaitDecode, Some(StoreAction::DecodeLease(r->Ok_0)))
                },
                None => (TermState::Done(Some(false)), None),
            },
            _ => (TermState::AwaitLease, None),
        },
        TermState::AwaitDecode => match e {
            StoreEvent::Decoded(lease) => if lease_lapsed(lease, p.lease_time_sec, now) {
                (TermState::AwaitDelete, Some(StoreAction::DeleteLeaderAndLease))
            } else {
                (TermState::Done(Some(true)), None)
            },
            _ => (TermState::AwaitDecode, None),
        },
        TermState::AwaitDelete => match e {
            StoreEvent::Wrote(_) => (TermState::Done(Some(false)), None),
            _ => (TermState::AwaitDelete, None),
        },
        TermState::Done(o) => (TermState::Done(o), None),
    }
}

/// One term step at time `now`.
pub fn term_step(s: TermState, e: StoreEvent, p: &TermParams, now: u64) -> (r: (TermState, Option<StoreAction>))
    requires
        now + p.lease_time_sec <= u64::MAX,
        e matches StoreEvent::Decoded(l) ==> l.lease_expire_time + p.lease_time_sec / 2 <= u64::MAX,
    ensures
        r == term_next(s, e, *p, now),
{
    match s {
        TermState::Start => {
            let info = p.leader_info.duplicate();
            let lease = lease_for(&p.leader_info, now, p.lease_time_sec);
            (TermState::AwaitRenew, Some(StoreAction::RenewLease(info, lease)))
        },
        TermState::AwaitRenew => match e {
            StoreEvent::Wrote(r) => match renew_outcome_of(&r) {
                None => (TermState::Done(None), None),
                Some(true) => (TermState::Done(Some(true)), None),
                Some(false) => (TermState::AwaitLeader, Some(StoreAction::ReadLeader)),
            },
            _ => (TermState::AwaitRenew, None),
        },
        TermState::AwaitLeader => match e {
            StoreEvent::Read(r) => match read_value_of(r) {
                None => (TermState::Done(Some(false)), None),
                Some(_) => (TermState::AwaitLease, Some(StoreAction::ReadLease)),
            },
            _ => (TermState::AwaitLeader, None),
        },
        TermState::AwaitLease => match e {
            StoreEvent::Read(Ok(v)) => if v.len() == 0 {
                (TermState::Done(Some(false)), None)
            } else {
                (TermState::AwaitDecode, Some(StoreAction::DecodeLease(v)))
            },
            StoreEvent::Read(Err(_)) => (TermState::Done(Some(false)), None),
            _ => (TermState::AwaitLease, None),
        },
        TermState::AwaitDecode => match e {
            StoreEvent::Decoded(lease) => {
                let some_time = p.lease_time_sec / 2;
                if lease.lease_expire_time + some_time < now {
                    (TermState::AwaitDelete, Some(StoreAction::DeleteLeaderAndLease))
                } else {
                    (TermState::Done(Some(true)), None)
                }
            },
            _ => (TermState::AwaitDecode, None),
        },
        TermState::AwaitDelete => match e {
            StoreEvent::Wrote(_) => (TermState::Done(Some(false)), None),
            _ => (TermState::AwaitDelete, None),
        },
        TermState::Done(o) => (TermState::Done(o), None),
    }
}

/// Where the election loop stands.
#[derive(Clone, Copy, Debug, PartialEq, Eq, Structural)]
pub enum ElectionPhase {
    /// Not started.
    Init,
    /// Waiting for the timer before the initial election.
    InitialWait,
    /// The initial campaign runs.
    InitialCampaign,
    /// The initial leader is known and has been handed to the caller; the follow-up loop
    /// has not begun.
    Elected,
    /// Waiting for the timer or a shutdown before a follow-up campaign.
    ElectionWait,
    /// A follow-up campaign runs.
    Campaign,
    /// Publishing whether this node leads.
    Publish,
    /// Publishing failed; waiting for the timer to try again.
    PublishRetry,
    /// In a term: waiting for the timer or a shutdown.
    TermWait,
    /// In a term: the term check runs.
    TermCheck,
    /// Shut down.
    Stopped,
}

/// The election loop's state.
#[derive(Clone, Debug)]
pub struct ElectionLoop {
    pub phase: ElectionPhase,
    /// Whether the next election runs without waiting for the timer first.
    pub wait: bool,
    /// Whether the next election is the initial one (already decided).
    pub initial_election: bool,
    /// The leader the initial election found, and whether it is this node.
    pub initial_leader: Option<MetaLeaderInfo>,
    pub is_initial_leader: bool,
    /// The leader of the current term, and whether it is this node.
    pub leader: Option<MetaLeaderInfo>,
    pub is_leader: bool,
}

/// What happened since the loop's last step.
#[derive(Debug)]
pub enum LoopEvent {
    Begin,
    Tick,
    Shutdown,
    CampaignDone(Option<ElectionOutcome>),
    /// Whether publishing the leadership flag succeeded.
    Published(bool),
    TermDone(Option<bool>),
}

/// What the loop asks for next.
#[derive(Debug)]
pub enum LoopAction {
    WaitTick,
    WaitTickOrShutdown,
    /// Run a campaign with this lease id.
    RunCampaign(u64),
    /// The initial election is decided: report its leader and whether this node leads, then
    /// go on in the background (`LoopEvent::Begin`).
    Elected(MetaLeaderInfo, bool),
    /// Publish whether this node leads.
    Publish(bool),
    /// Check the term of this leader.
    RunTerm(MetaLeaderInfo),
    Stop,
}

/// Entering an election at the top of the follow-up loop: after a failed leader it first
/// waits for the timer (or a shutdown); otherwise it starts from the initial leader, runs a
/// campaign with the fresh lease id, or, the first time, publishes the initial outcome.
pub open spec fn enter_election(s: ElectionLoop, fresh_lease_id: u64) -> (ElectionLoop, LoopAction) {
    if !s.wait {
        (ElectionLoop { phase: ElectionPhase::ElectionWait, ..s }, LoopAction::WaitTickOrShutdown)
    } else {
        election_body(s, fresh_lease_id)
    }
}

/// The body of an election, once any wait is over.
pub open spec fn election_body(s: ElectionLoop, fresh_lease_id: u64) -> (ElectionLoop, LoopAction) {
    let base = ElectionLoop { wait: true, leader: s.initial_leader, is_leader: s.is_initial_leader, ..s };
    if !s.initial_election {
        (ElectionLoop { phase: ElectionPhase::Campaign, ..base }, LoopAction::RunCampaign(fresh_lease_id))
    } else {
        (
            ElectionLoop { phase: ElectionPhase::Publish, initial_election: false, ..base },
            LoopAction::Publish(s.is_initial_leader),
        )
    }
}

impl ElectionLoop {
    /// A leader is known wherever one is used: the initial leader once the initial election
    /// is decided, and the current leader while publishing and in a term.
    pub open spec fn inv(self) -> bool {
        &&& (self.phase is Elected || self.phase is ElectionWait || self.phase is Campaign
            || self.phase is Publish || self.phase is PublishRetry || self.phase is TermWait
            || self.phase is TermCheck) ==> self.initial_leader is Some
        &&& (self.phase is Publish || self.phase is PublishRetry || self.phase is TermWait
            || self.phase is TermCheck) ==> self.leader is Some
    }
}

/// One step of the election loop; `fresh_lease_id` is the lease id a campaign started in
/// this step uses. Events that do not fit the phase change nothing and ask for nothing.
pub open spec fn election_next(s: ElectionLoop, e: LoopEvent, fresh_lease_id: u64) -> (ElectionLoop, Option<LoopAction>) {
    match (s.phase, e) {
        (ElectionPhase::Init, LoopEvent::Begin) => (ElectionLoop { phase: ElectionPhase::InitialWait, ..s }, Some(LoopAction::WaitTick)),
        (ElectionPhase::InitialWait, LoopEvent::Tick) => (
            ElectionLoop { phase: ElectionPhase::InitialCampaign, ..s },
            Some(LoopAction::RunCampaign(fresh_lease_id)),
        ),
        (ElectionPhase::InitialCampaign, LoopEvent::CampaignDone(None)) => (
            ElectionLoop { phase: ElectionPhase::InitialWait, ..s },
            Some(LoopAction::WaitTick),
        ),
        (ElectionPhase::InitialCampaign, LoopEvent::CampaignDone(Some(o))) => (
            ElectionLoop {
                phase: ElectionPhase::Elected,
                wait: true,
                initial_election: true,
                initial_leader: Some(o.meta_leader_info),
                is_initial_leader: o.is_leader,
                ..s
            },
            Some(LoopAction::Elected(o.meta_leader_info, o.is_leader)),
        ),
        (ElectionPhase::Elected, LoopEvent::Begin) => {
            let (t, a) = enter_election(s, fresh_lease_id);
            (t, Some(a))
        },
        (ElectionPhase::ElectionWait, LoopEvent::Shutdown) => (ElectionLoop { phase: ElectionPhase::Stopped, ..s }, Some(LoopAction::Stop)),
        (ElectionPhase::ElectionWait, LoopEvent::Tick) => {
            let (t, a) = election_body(s, fresh_lease_id);
            (t, Some(a))
        },
        (ElectionPhase::Campaign, LoopEvent::CampaignDone(None)) => {
            let (t, a) = enter_election(s, fresh_lease_id);
            (t, Some(a))
        },
        (ElectionPhase::Campaign, LoopEvent::CampaignDone(Some(o))) => (
            ElectionLoop {
                phase: ElectionPhase::Publish,
                initial_election: false,
                leader: Some(o.meta_leader_info),
                is_leader: o.is_leader,
                ..s
            },
            Some(LoopAction::Publish(o.is_leader)),
        ),
        (ElectionPhase::Publish, LoopEvent::Published(true)) => (
            ElectionLoop { phase: ElectionPhase::TermWait, ..s },
            Some(LoopAction::WaitTickOrShutdown),
        ),
        (ElectionPhase::Publish, LoopEvent::Published(false)) => (
            ElectionLoop { phase: ElectionPhase::PublishRetry, ..s },
            Some(LoopAction::WaitTick),
        ),
        (ElectionPhase::PublishRetry, LoopEvent::Tick) => (
            ElectionLoop { phase: ElectionPhase::Publish, ..s },
            Some(LoopAction::Publish(s.is_leader)),
        ),
        (ElectionPhase::TermWait, LoopEvent::Shutdown) => (ElectionLoop { phase: ElectionPhase::Stopped, ..s }, Some(LoopAction::Stop)),
        (ElectionPhase::TermWait, LoopEvent::Tick) => (
            ElectionLoop { phase: ElectionPhase::TermCheck, ..s },
            Some(LoopAction::RunTerm(s.leader.unwrap())),
        ),
        (ElectionPhase::TermCheck, LoopEvent::TermDone(Some(false))) => {
            let (t, a) = enter_election(ElectionLoop { wait: false, ..s }, fresh_lease_id);
            (t, Some(a))
        },
        (ElectionPhase::TermCheck, LoopEvent::TermDone(_)) => (
            ElectionLoop { phase: ElectionPhase::TermWait, ..s },
            Some(LoopAction::WaitTickOrShutdown),
        ),
        _ => (s, None),
    }
}

impl ElectionLoop {
    /// The loop before it starts.
    pub fn new() -> (r: ElectionLoop)
        ensures
            r.inv(),
            r.phase == ElectionPhase::Init,
            r.wait,
            !r.initial_election,
            r.initial_leader is None,
            r.leader is None,
            !r.is_leader,
            !r.is_initial_leader,
    {
        ElectionLoop {
            phase: ElectionPhase::Init,
            wait: true,
            initial_election: false,
            initial_leader: None,
            is_initial_leader: false,
            leader: None,
            is_leader: false,
        }
    }

    /// A copy of the state.
    pub fn duplicate(&self) -> (r: ElectionLoop)
        ensures
            r == *self,
    {
        ElectionLoop {
            phase: self.phase,
            wait: self.wait,
            initial_election: self.initial_election,
            initial_leader: match &self.initial_leader {
                Some(l) => Some(l.duplicate()),
                None => None,
            },
            is_initial_leader: self.is_initial_leader,
            leader: match &self.leader {
                Some(l) => Some(l.duplicate()),
                None => None,
            },
            is_leader: self.is_leader,
        }
    }
}

/// Runs `election_body`.
fn run_election_body(s: ElectionLoop, fresh_lease_id: u64) -> (r: (ElectionLoop, LoopAction))
    requires
        s.initial_leader is Some,
    ensures
        r.0.inv(),
        r == election_body(s, fresh_lease_id),
{
    let leader = match &s.initial_leader {
        Some(l) => Some(l.duplicate()),
        None => None,
    };
    let is_leader = s.is_initial_leader;
    if !s.initial_election {
        (ElectionLoop { phase: ElectionPhase::Campaign, wait: true, leader, is_leader, ..s }, LoopAction::RunCampaign(fresh_lease_id))
    } else {
        (
            ElectionLoop { phase: ElectionPhase::Publish, wait: true, initial_election: false, leader, is_leader, ..s },
            LoopAction::Publish(is_leader),
        )
    }
}

/// Runs `enter_election`.
fn run_enter_election(s: ElectionLoop, fresh_lease_id: u64) -> (r: (ElectionLoop, LoopAction))
    requires
        s.initial_leader is Some,
    ensures
        r.0.inv(),
        r == enter_election(s, fresh_lease_id),
{
    if !s.wait {
        (ElectionLoop { phase: ElectionPhase::ElectionWait, ..s }, LoopAction::WaitTickOrShutdown)
    } else {
        run_election_body(s, fresh_lease_id)
    }
}

/// One step of the election loop.
pub fn election_step(s: ElectionLoop, e: LoopEvent, fresh_lease_id: u64) -> (r: (ElectionLoop, Option<LoopAction>))
    requires
        s.inv(),
    ensures
        r == election_next(s, e, fresh_lease_id),
        r.0.inv(),
{
    match (s.phase, e) {
        (ElectionPhase::Init, LoopEvent::Begin) => (ElectionLoop { phase: ElectionPhase::InitialWait, ..s }, Some(LoopAction::WaitTick)),
        (ElectionPhase::InitialWait, LoopEvent::Tick) => (
            ElectionLoop { phase: ElectionPhase::InitialCampaign, ..s },
            Some(LoopAction::RunCampaign(fresh_lease_id)),
        ),
        (ElectionPhase::InitialCampaign, LoopEvent::CampaignDone(None)) => (
            ElectionLoop { phase: ElectionPhase::InitialWait, ..s },
            Some(LoopAction::WaitTick),
        ),
        (ElectionPhase::InitialCampaign, LoopEvent::CampaignDone(Some(o))) => {
            let reported = o.meta_leader_info.duplicate();
            let is_leader = o.is_leader;
            (
                ElectionLoop {
                    phase: ElectionPhase::Elected,
                    wait: true,
                    initial_election: true,
                    initial_leader: Some(o.meta_leader_info),
                    is_initial_leader: is_leader,
                    ..s
                },
                Some(LoopAction::Elected(reported, is_leader)),
            )
        },
        (ElectionPhase::Elected, LoopEvent::Begin) => {
            let (t, a) = run_enter_election(s, fresh_lease_id);
            (t, Some(a))
        },
        (ElectionPhase::ElectionWait, LoopEvent::Shutdown) => (ElectionLoop { phase: ElectionPhase::Stopped, ..s }, Some(LoopAction::Stop)),
        (ElectionPhase::ElectionWait, LoopEvent::Tick) => {
            let (t, a) = run_election_body(s, fresh_lease_id);
            (t, Some(a))
        },
        (ElectionPhase::Campaign, LoopEvent::CampaignDone(None)) => {
            let (t, a) = run_enter_election(s, fresh_lease_id);
            (t, Some(a))
        },
        (ElectionPhase::Campaign, LoopEvent::CampaignDone(Some(o))) => {
            let is_leader = o.is_leader;
            (
                ElectionLoop {
                    phase: ElectionPhase::Publish,
                    initial_election: false,
                    leader: Some(o.meta_leader_info),
                    is_leader,
                    ..s
                },
                Some(LoopAction::Publish(is_leader)),
            )
        },
        (ElectionPhase::Publish, LoopEvent::Published(ok)) => if ok {
            (ElectionLoop { phase: ElectionPhase::TermWait, ..s }, Some(LoopAction::WaitTickOrShutdown))
        } else {
            (ElectionLoop { phase: ElectionPhase::PublishRetry, ..s }, Some(LoopAction::WaitTick))
        },
        (ElectionPhase::PublishRetry, LoopEvent::Tick) => {
            let is_leader = s.is_leader;
            (ElectionLoop { phase: ElectionPhase::Publish, ..s }, Some(LoopAction::Publish(is_leader)))
        },
        (ElectionPhase::TermWait, LoopEvent::Shutdown) => (ElectionLoop { phase: ElectionPhase::Stopped, ..s }, Some(LoopAction::Stop)),
        (ElectionPhase::TermWait, LoopEvent::Tick) => {
            let leader = match &s.leader {
                Some(l) => l.duplicate(),
                None => {
                    proof {
                        assert(false);
                    }
                    MetaLeaderInfo { lease_id: 0, node_address: String::new() }
                },
            };
            (ElectionLoop { phase: ElectionPhase::TermCheck, ..s }, Some(LoopAction::RunTerm(leader)))
        },
        (ElectionPhase::TermCheck, LoopEvent::TermDone(outcome)) => {
            if outcome == Some(false) {
                let (t, a) = run_enter_election(ElectionLoop { wait: false, ..s }, fresh_lease_id);
                (t, Some(a))
            } else {
                (ElectionLoop { phase: ElectionPhase::TermWait, ..s }, Some(LoopAction::WaitTickOrShutdown))
            }
        },
        (_, _) => (s, None),
    }
}

/// One step of the election loop with a fresh random lease id for any campaign it starts:
/// the step `election_step` takes for some id below `u64::MAX`.
pub fn election_advance(s: ElectionLoop, e: LoopEvent) -> (r: (ElectionLoop, Option<LoopAction>))
    requires
        s.inv(),
    ensures
        r.0.inv(),
        exists|id: u64| id < u64::MAX && r == election_next(s, e, id),
{
    let id = gen_rand_lease_id();
    election_step(s, e, id)
}

} // verus!
