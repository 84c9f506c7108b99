use rwcore::elections::{
    campaign_step, election_advance, election_step, lease_for, read_value_of, renew_outcome_of,
    since_epoch, CampaignParams, CampaignState, ElectionLoop, ElectionOutcome, ElectionPhase,
    LoopAction, LoopEvent, MetaLeaderInfo, MetaLeaseInfo, MetaStoreError, StoreAction, StoreEvent,
    TermParams, TermState,
};
use rwcore::elections::term_step;

fn params() -> CampaignParams {
    CampaignParams { addr: "127.0.0.1:5690".to_string(), lease_time_sec: 10, next_lease_id: 42 }
}

#[test]
fn lease_covers_lease_time() {
    let info = MetaLeaderInfo { lease_id: 7, node_address: "a".to_string() };
    let l = lease_for(&info, 100, 10);
    assert_eq!(l.lease_register_time, 100);
    assert_eq!(l.lease_expire_time, 110);
    assert_eq!(l.leader.unwrap().lease_id, 7);
}

#[test]
fn reads_and_renewals() {
    assert_eq!(read_value_of(Ok(vec![1, 2])), Some(vec![1, 2]));
    assert_eq!(read_value_of(Err(MetaStoreError::ItemNotFound("k".to_string()))), Some(vec![]));
    assert_eq!(read_value_of(Err(MetaStoreError::Internal("x".to_string()))), None);
    assert_eq!(renew_outcome_of(&Ok(())), Some(true));
    assert_eq!(renew_outcome_of(&Err(MetaStoreError::TransactionAbort)), Some(false));
    assert_eq!(renew_outcome_of(&Err(MetaStoreError::Internal("x".to_string()))), None);
}

#[test]
fn campaign_claims_a_vacant_leadership() {
    let p = params();
    let (s, a) = campaign_step(CampaignState::Start, StoreEvent::Begin, &p, 1000);
    assert!(matches!(a, Some(StoreAction::ReadLeader)));
    let (s, a) = campaign_step(s, StoreEvent::Read(Ok(vec![])), &p, 1000);
    assert!(matches!(s, CampaignState::AwaitLease { no_leader: true }));
    assert!(matches!(a, Some(StoreAction::ReadLease)));
    let (s, a) = campaign_step(s, StoreEvent::Read(Err(MetaStoreError::ItemNotFound("lease".to_string()))), &p, 1000);
    match a {
        Some(StoreAction::PutLeader(info)) => {
            assert_eq!(info.lease_id, 42);
            assert_eq!(info.node_address, "127.0.0.1:5690");
        }
        other => panic!("unexpected {:?}", other),
    }
    let (s, a) = campaign_step(s, StoreEvent::Wrote(Ok(())), &p, 1001);
    match a {
        Some(StoreAction::RenewLease(info, lease)) => {
            assert_eq!(info.lease_id, 42);
            assert_eq!(lease.lease_register_time, 1001);
            assert_eq!(lease.lease_expire_time, 1011);
        }
        other => panic!("unexpected {:?}", other),
    }
    let (s, a) = campaign_step(s, StoreEvent::Wrote(Ok(())), &p, 1001);
    assert!(a.is_none());
    match s {
        CampaignState::Done(Some(ElectionOutcome { meta_leader_info, meta_lease_info, is_leader })) => {
            assert!(is_leader);
            assert_eq!(meta_leader_info.lease_id, 42);
            assert_eq!(meta_lease_info.lease_expire_time, 1010);
        }
        other => panic!("unexpected {:?}", other),
    }
}

#[test]
fn campaign_against_a_leader_follows_on_abort() {
    let p = params();
    let (s, _) = campaign_step(CampaignState::Start, StoreEvent::Begin, &p, 5);
    let (s, _) = campaign_step(s, StoreEvent::Read(Ok(vec![9])), &p, 5);
    assert!(matches!(s, CampaignState::AwaitLease { no_leader: false }));
    let (s, a) = campaign_step(s, StoreEvent::Read(Ok(vec![9])), &p, 5);
    assert!(matches!(a, Some(StoreAction::RenewLease(_, _))));
    let (s, _) = campaign_step(s, StoreEvent::Wrote(Err(MetaStoreError::TransactionAbort)), &p, 5);
    match s {
        CampaignState::Done(Some(o)) => assert!(!o.is_leader),
        other => panic!("unexpected {:?}", other),
    }
}

#[test]
fn campaign_failures_end_without_outcome() {
    let p = params();
    let (s, _) = campaign_step(CampaignState::AwaitLeader, StoreEvent::Read(Err(MetaStoreError::Internal("down".to_string()))), &p, 5);
    assert!(matches!(s, CampaignState::Done(None)));
    let (s, _) = campaign_step(CampaignState::Start, StoreEvent::Begin, &p, 5);
    let (s, _) = campaign_step(s, StoreEvent::Read(Ok(vec![])), &p, 5);
    let (s, _) = campaign_step(s, StoreEvent::Read(Ok(vec![])), &p, 5);
    let (s, _) = campaign_step(s, StoreEvent::Wrote(Ok(())), &p, 5);
    // A claim whose renewal aborts is no win.
    let (s, _) = campaign_step(s, StoreEvent::Wrote(Err(MetaStoreError::TransactionAbort)), &p, 5);
    assert!(matches!(s, CampaignState::Done(None)));
}

#[test]
fn term_deletes_a_lapsed_lease() {
    let p = TermParams { leader_info: MetaLeaderInfo { lease_id: 1, node_address: "n".to_string() }, lease_time_sec: 10 };
    let (s, a) = term_step(TermState::Start, StoreEvent::Begin, &p, 100);
    assert!(matches!(a, Some(StoreAction::RenewLease(_, _))));
    let (s, a) = term_step(s, StoreEvent::Wrote(Err(MetaStoreError::TransactionAbort)), &p, 100);
    assert!(matches!(a, Some(StoreAction::ReadLeader)));
    let (s, a) = term_step(s, StoreEvent::Read(Ok(vec![1])), &p, 100);
    assert!(matches!(a, Some(StoreAction::ReadLease)));
    let (s, a) = term_step(s, StoreEvent::Read(Ok(vec![7, 7])), &p, 100);
    match a {
        Some(StoreAction::DecodeLease(b)) => assert_eq!(b, vec![7, 7]),
        other => panic!("unexpected {:?}", other),
    }
    let old = MetaLeaseInfo { leader: None, lease_register_time: 0, lease_expire_time: 50 };
    let (s, a) = term_step(s, StoreEvent::Decoded(old), &p, 100);
    assert!(matches!(a, Some(StoreAction::DeleteLeaderAndLease)));
    let (s, _) = term_step(s, StoreEvent::Wrote(Ok(())), &p, 100);
    assert!(matches!(s, TermState::Done(Some(false))));
}

#[test]
fn term_keeps_a_live_leader() {
    let p = TermParams { leader_info: MetaLeaderInfo { lease_id: 1, node_address: "n".to_string() }, lease_time_sec: 10 };
    let live = MetaLeaseInfo { leader: None, lease_register_time: 90, lease_expire_time: 100 };
    let (s, a) = term_step(TermState::AwaitDecode, StoreEvent::Decoded(live), &p, 104);
    assert!(a.is_none());
    assert!(matches!(s, TermState::Done(Some(true))));
    let (s, a) = term_step(TermState::AwaitRenew, StoreEvent::Wrote(Ok(())), &p, 104);
    assert!(a.is_none());
    assert!(matches!(s, TermState::Done(Some(true))));
    let (s, a) = term_step(
        TermState::AwaitRenew,
        StoreEvent::Wrote(Err(MetaStoreError::Internal("down".to_string()))),
        &p,
        104,
    );
    assert!(a.is_none());
    assert!(matches!(s, TermState::Done(None)));
    let (s, _) = term_step(TermState::AwaitLease, StoreEvent::Read(Ok(vec![])), &p, 104);
    assert!(matches!(s, TermState::Done(Some(false))));
}

#[test]
fn election_loop_runs_a_term_and_stops() {
    let s = ElectionLoop::new();
    let (s, a) = election_step(s, LoopEvent::Begin, 11);
    assert!(matches!(a, Some(LoopAction::WaitTick)));
    let (s, a) = election_step(s, LoopEvent::Tick, 11);
    assert!(matches!(a, Some(LoopAction::RunCampaign(11))));
    let info = MetaLeaderInfo { lease_id: 11, node_address: "me".to_string() };
    let lease = lease_for(&info, 0, 10);
    let outcome = ElectionOutcome { meta_leader_info: info, meta_lease_info: lease, is_leader: true };
    let (s, a) = election_step(s, LoopEvent::CampaignDone(Some(outcome)), 12);
    match &a {
        Some(LoopAction::Elected(l, true)) => assert_eq!(l.lease_id, 11),
        other => panic!("unexpected {:?}", other),
    }
    let (s, a) = election_step(s, LoopEvent::Begin, 12);
    assert!(matches!(a, Some(LoopAction::Publish(true))));
    let (s, a) = election_step(s, LoopEvent::Published(true), 12);
    assert!(matches!(a, Some(LoopAction::WaitTickOrShutdown)));
    let (s, a) = election_step(s, LoopEvent::Tick, 12);
    match &a {
        Some(LoopAction::RunTerm(l)) => assert_eq!(l.lease_id, 11),
        other => panic!("unexpected {:?}", other),
    }
    let (s, a) = election_step(s, LoopEvent::TermDone(Some(true)), 12);
    assert!(matches!(a, Some(LoopAction::WaitTickOrShutdown)));
    let (s, a) = election_step(s, LoopEvent::Shutdown, 12);
    assert!(matches!(a, Some(LoopAction::Stop)));
    assert_eq!(s.phase, ElectionPhase::Stopped);
}

#[test]
fn election_loop_reelects_after_a_failed_term() {
    let s = ElectionLoop::new();
    let (s, _) = election_step(s, LoopEvent::Begin, 1);
    let (s, _) = election_step(s, LoopEvent::Tick, 1);
    let info = MetaLeaderInfo { lease_id: 1, node_address: "me".to_string() };
    let lease = lease_for(&info, 0, 10);
    let (s, _) = election_step(s, LoopEvent::CampaignDone(Some(ElectionOutcome { meta_leader_info: info, meta_lease_info: lease, is_leader: false })), 2);
    let (s, _) = election_step(s, LoopEvent::Begin, 2);
    let (s, a) = election_step(s, LoopEvent::Published(false), 2);
    assert!(matches!(a, Some(LoopAction::WaitTick)));
    let (s, a) = election_step(s, LoopEvent::Tick, 2);
    assert!(matches!(a, Some(LoopAction::Publish(false))));
    let (s, _) = election_step(s, LoopEvent::Published(true), 2);
    let (s, _) = election_step(s, LoopEvent::Tick, 2);
    let (s, a) = election_step(s, LoopEvent::TermDone(Some(false)), 3);
    assert!(matches!(a, Some(LoopAction::WaitTickOrShutdown)));
    assert_eq!(s.phase, ElectionPhase::ElectionWait);
    let (s, a) = election_step(s, LoopEvent::Tick, 3);
    assert!(matches!(a, Some(LoopAction::RunCampaign(3))));
    let (s, a) = election_step(s, LoopEvent::CampaignDone(None), 4);
    assert!(matches!(a, Some(LoopAction::RunCampaign(4))));
    assert_eq!(s.phase, ElectionPhase::Campaign);
}

#[test]
fn unexpected_events_change_nothing() {
    let s = ElectionLoop::new();
    let (s, a) = election_step(s, LoopEvent::Tick, 1);
    assert!(a.is_none());
    assert_eq!(s.phase, ElectionPhase::Init);
}

#[test]
fn clock_and_lease_ids() {
    assert!(since_epoch().unwrap().as_secs() > 0);
    let (s, _) = election_advance(ElectionLoop::new(), LoopEvent::Begin);
    let (_, a) = election_advance(s, LoopEvent::Tick);
    match a {
        Some(LoopAction::RunCampaign(id)) => assert!(id < u64::MAX),
        other => panic!("unexpected {:?}", other),
    }
}
