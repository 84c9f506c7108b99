//! Laws of leader election: what a node may conclude from which store replies, and what the
//! election loop keeps.

use crate::elections;
use crate::elections::{
    CampaignParams, CampaignState, ElectionLoop, ElectionPhase, LoopAction, LoopEvent, MetaLeaseInfo, MetaStoreError, StoreAction,
    StoreEvent, TermParams, TermState,
};
use vstd::prelude::*;

verus! {

/// A campaign ends with this node as leader only right after its lease renewal went through.
pub proof fn law_leads_only_after_renewal(s: CampaignState, e: StoreEvent, p: CampaignParams, now: u64)
    requires
        !(s is Done),
        elections::campaign_next(s, e, p, now).0 matches CampaignState::Done(Some(o)) && o.is_leader,
    ensures
        s is AwaitRenew,
        e matches StoreEvent::Wrote(Ok(_)),
{
}

/// A campaign writes its claim to the leader key only after reading that key empty (or
/// missing) and reading the lease successfully.
pub proof fn law_claims_only_vacant(s: CampaignState, e: StoreEvent, p: CampaignParams, now: u64)
    requires
        elections::campaign_next(s, e, p, now).1 matches Some(StoreAction::PutLeader(_)),
    ensures
        s == (CampaignState::AwaitLease { no_leader: true }),
        e matches StoreEvent::Read(r) && elections::read_value(r) is Some,
{
}

/// Everything a campaign claims, renews or wins is under this node's own identity.
pub open spec fn campaign_inv(s: CampaignState, p: CampaignParams) -> bool {
    match s {
        CampaignState::AwaitPut { info, .. } => info == elections::candidate(p),
        CampaignState::AwaitRenew { info, .. } => info == elections::candidate(p),
        CampaignState::Done(Some(o)) => o.meta_leader_info == elections::candidate(p),
        _ => true,
    }
}

/// Campaign steps keep `campaign_inv`, and every claim or renewal they send is this node's.
pub proof fn law_campaign_own_identity(s: CampaignState, e: StoreEvent, p: CampaignParams, now: u64)
    requires
        campaign_inv(s, p),
    ensures
        campaign_inv(elections::campaign_next(s, e, p, now).0, p),
        elections::campaign_next(s, e, p, now).1 matches Some(StoreAction::PutLeader(i)) ==> i == elections::candidate(p),
        elections::campaign_next(s, e, p, now).1 matches Some(StoreAction::RenewLease(i, _)) ==> i == elections::candidate(p),
{
}

/// A leader whose renewal goes through is still in power, with nothing more to do; a
/// renewal that hits a store error is reported as an error, not as a failed leader.
pub proof fn law_term_renewed(p: TermParams, now: u64, msg: String)
    ensures
        elections::term_next(TermState::AwaitRenew, StoreEvent::Wrote(Ok(())), p, now) == (TermState::Done(Some(true)), None::<StoreAction>),
        elections::term_next(
            TermState::AwaitRenew,
            StoreEvent::Wrote(Err(MetaStoreError::Internal(msg))),
            p,
            now,
        ) == (TermState::Done(None), None::<StoreAction>),
{
}

/// A term check deletes the leader and the lease only when the stored lease has been
/// expired for more than half a lease time.
pub proof fn law_deletes_only_lapsed_lease(s: TermState, e: StoreEvent, p: TermParams, now: u64)
    requires
        elections::term_next(s, e, p, now).1 matches Some(StoreAction::DeleteLeaderAndLease),
    ensures
        e matches StoreEvent::Decoded(l) && elections::lease_lapsed(l, p.lease_time_sec, now),
{
}

/// Every step keeps the election loop's invariant.
pub proof fn law_loop_inv(s: ElectionLoop, e: LoopEvent, id: u64)
    requires
        s.inv(),
    ensures
        elections::election_next(s, e, id).0.inv(),
{
}

/// A shutdown while waiting stops the loop, and a stopped loop stays stopped and idle.
pub proof fn law_shutdown_stops(s: ElectionLoop, e: LoopEvent, id: u64)
    ensures
        (s.phase is ElectionWait || s.phase is TermWait) ==> elections::election_next(s, LoopEvent::Shutdown, id)
            == (ElectionLoop { phase: ElectionPhase::Stopped, ..s }, Some(LoopAction::Stop)),
        s.phase is Stopped ==> elections::election_next(s, e, id) == (s, None::<LoopAction>),
{
}

/// When a term finds the leader gone, the loop waits for the timer (or a shutdown) before
/// the next campaign.
pub proof fn law_failed_leader_waits(s: ElectionLoop, id: u64)
    requires
        s.phase is TermCheck,
    ensures
        elections::election_next(s, LoopEvent::TermDone(Some(false)), id)
            == (ElectionLoop { phase: ElectionPhase::ElectionWait, wait: false, ..s }, Some(LoopAction::WaitTickOrShutdown)),
{
}

/// After a follow-up campaign, the loop leads exactly when the campaign says so, publishes
/// that, and checks terms of the campaign's leader.
pub proof fn law_publishes_campaign_outcome(s: ElectionLoop, o: elections::ElectionOutcome, id: u64)
    requires
        s.phase is Campaign,
    ensures
        ({
            let (t, a) = elections::election_next(s, LoopEvent::CampaignDone(Some(o)), id);
            &&& t.is_leader == o.is_leader
            &&& t.leader == Some(o.meta_leader_info)
            &&& a == Some(LoopAction::Publish(o.is_leader))
        }),
{
}

/// After the initial election, the loop reports the outcome, and its first publication says
/// whether this node won: a node that lost never publishes that it leads.
pub proof fn law_initial_publication(s: ElectionLoop, o: elections::ElectionOutcome, id1: u64, id2: u64)
    requires
        s.phase is InitialCampaign,
    ensures
        ({
            let (t, a) = elections::election_next(s, LoopEvent::CampaignDone(Some(o)), id1);
            &&& a == Some(LoopAction::Elected(o.meta_leader_info, o.is_leader))
            &&& elections::election_next(t, LoopEvent::Begin, id2).1 == Some(
                LoopAction::Publish(o.is_leader),
            )
            &&& elections::election_next(t, LoopEvent::Begin, id2).0.is_leader == o.is_leader
            &&& elections::election_next(t, LoopEvent::Begin, id2).0.leader == Some(
                o.meta_leader_info,
            )
        }),
{
}

/// Whatever the loop publishes is its own record of whether this node leads.
pub proof fn law_publishes_own_flag(s: ElectionLoop, e: LoopEvent, id: u64, b: bool)
    requires
        elections::election_next(s, e, id).1 == Some(LoopAction::Publish(b)),
    ensures
        b == elections::election_next(s, e, id).0.is_leader,
{
}

/// Every lease a campaign asks to renew runs from `now` for the lease time and names the
/// claimed leader; every claim and renewal names this node's address and lease id (for any
/// state a campaign reaches from its start, see `law_campaign_own_identity`).
pub proof fn law_campaign_renewal_lease(s: CampaignState, e: StoreEvent, p: CampaignParams, now: u64)
    requires
        campaign_inv(s, p),
        now + p.lease_time_sec <= u64::MAX,
    ensures
        elections::campaign_next(s, e, p, now).1 matches Some(StoreAction::RenewLease(i, l)) ==> {
            &&& i.lease_id == p.next_lease_id
            &&& i.node_address == p.addr
            &&& l.leader == Some(i)
            &&& l.lease_register_time == now
            &&& l.lease_expire_time == now + p.lease_time_sec
        },
        elections::campaign_next(s, e, p, now).1 matches Some(StoreAction::PutLeader(i)) ==> {
            &&& i.lease_id == p.next_lease_id
            &&& i.node_address == p.addr
        },
{
}

/// A term starts by renewing the current leader's lease from `now` for the lease time.
pub proof fn law_term_renewal_extends_lease(e: StoreEvent, p: TermParams, now: u64)
    requires
        now + p.lease_time_sec <= u64::MAX,
    ensures
        elections::term_next(TermState::Start, e, p, now).1 matches Some(
            StoreAction::RenewLease(i, l),
        ),
        elections::term_next(TermState::Start, e, p, now).1 matches Some(
            StoreAction::RenewLease(i, l),
        ) ==> {
            &&& i == p.leader_info
            &&& l.leader == Some(p.leader_info)
            &&& l.lease_register_time == now
            &&& l.lease_expire_time == now + p.lease_time_sec
        },
{
}

/// A follower's term check: an aborted renewal means another node leads, so the leader key
/// is read; an empty lease calls for an election, a stored one is decoded; a lease expired for
/// more than half a lease time is deleted (leader and lease) and calls for an election,
/// otherwise the leader is still in power.
pub proof fn law_term_follower_path(p: TermParams, now: u64, v: Vec<u8>, l: MetaLeaseInfo, w: Result<(), MetaStoreError>)
    ensures
        elections::term_next(
            TermState::AwaitRenew,
            StoreEvent::Wrote(Err(MetaStoreError::TransactionAbort)),
            p,
            now,
        ) == (TermState::AwaitLeader, Some(StoreAction::ReadLeader)),
        v@.len() == 0 ==> elections::term_next(TermState::AwaitLease, StoreEvent::Read(Ok(v)), p, now)
            == (TermState::Done(Some(false)), None::<StoreAction>),
        v@.len() > 0 ==> elections::term_next(TermState::AwaitLease, StoreEvent::Read(Ok(v)), p, now)
            == (TermState::AwaitDecode, Some(StoreAction::DecodeLease(v))),
        elections::term_next(TermState::AwaitDecode, StoreEvent::Decoded(l), p, now) == (if l.lease_expire_time
            + p.lease_time_sec / 2 < now {
            (TermState::AwaitDelete, Some(StoreAction::DeleteLeaderAndLease))
        } else {
            (TermState::Done(Some(true)), None)
        }),
        elections::term_next(TermState::AwaitDelete, StoreEvent::Wrote(w), p, now) == (TermState::Done(Some(false)), None::<StoreAction>),
{
}

/// A campaign reads the leader key; a missing or empty key means there is no leader, a read
/// error ends the campaign for a retry. A renewal that goes through wins, an aborted one
/// means another node leads (unless this node had just claimed an empty key, when the
/// campaign is retried), and a store error ends it for a retry.
pub proof fn law_campaign_flow(
    p: CampaignParams,
    now: u64,
    v: Vec<u8>,
    m: String,
    info: elections::MetaLeaderInfo,
    lease: MetaLeaseInfo,
)
    ensures
        elections::campaign_next(CampaignState::Start, StoreEvent::Begin, p, now).1 == Some(
            StoreAction::ReadLeader,
        ),
        elections::campaign_next(CampaignState::AwaitLeader, StoreEvent::Read(Ok(v)), p, now) == (
        CampaignState::AwaitLease { no_leader: v@.len() == 0 }, Some(StoreAction::ReadLease)),
        elections::campaign_next(
            CampaignState::AwaitLeader,
            StoreEvent::Read(Err(MetaStoreError::ItemNotFound(m))),
            p,
            now,
        ) == (CampaignState::AwaitLease { no_leader: true }, Some(StoreAction::ReadLease)),
        elections::campaign_next(
            CampaignState::AwaitLeader,
            StoreEvent::Read(Err(MetaStoreError::Internal(m))),
            p,
            now,
        ).0 == CampaignState::Done(None),
        elections::campaign_next(
            CampaignState::AwaitRenew { info, lease, first: false },
            StoreEvent::Wrote(Ok(())),
            p,
            now,
        ).0 == CampaignState::Done(
            Some(elections::ElectionOutcome { meta_leader_info: info, meta_lease_info: lease, is_leader: true }),
        ),
        elections::campaign_next(
            CampaignState::AwaitRenew { info, lease, first: false },
            StoreEvent::Wrote(Err(MetaStoreError::TransactionAbort)),
            p,
            now,
        ).0 == CampaignState::Done(
            Some(elections::ElectionOutcome { meta_leader_info: info, meta_lease_info: lease, is_leader: false }),
        ),
        elections::campaign_next(
            CampaignState::AwaitRenew { info, lease, first: true },
            StoreEvent::Wrote(Ok(())),
            p,
            now,
        ).0 == CampaignState::Done(
            Some(elections::ElectionOutcome { meta_leader_info: info, meta_lease_info: lease, is_leader: true }),
        ),
        elections::campaign_next(
            CampaignState::AwaitRenew { info, lease, first: true },
            StoreEvent::Wrote(Err(MetaStoreError::TransactionAbort)),
            p,
            now,
        ).0 == CampaignState::Done(None),
        elections::campaign_next(
            CampaignState::AwaitRenew { info, lease, first: false },
            StoreEvent::Wrote(Err(MetaStoreError::Internal(m))),
            p,
            now,
        ).0 == CampaignState::Done(None),
{
}

} // verus!
