use synod::acceptor::Acceptor;
use synod::learner::Learner;
use synod::messages::{Message, PaxosError};
use synod::messages::ballot_for;
use synod::proposer::Proposer;

#[test]
fn even_acceptor_set_is_rejected() {
    let r = Proposer::new(0, vec![1, 2, 3, 4], vec![9]);
    assert!(matches!(r, Err(PaxosError::ConfigurationError)));
    let r = Proposer::new(0, vec![], vec![9]);
    assert!(matches!(r, Err(PaxosError::ConfigurationError)));
    assert!(Proposer::new(0, vec![1, 2, 3], vec![9]).is_ok());
}

#[test]
fn quorum_is_a_deterministic_majority() {
    let p = Proposer::new(0, vec![5, 1, 9, 2, 4], vec![]).unwrap();
    let q1 = p.select_quorum();
    let q2 = p.select_quorum();
    assert_eq!(q1, q2);
    assert_eq!(q1, vec![5, 1, 9]);
    assert_eq!(q1.len(), 5 / 2 + 1);
}

#[test]
fn duplicate_ballot_is_rejected() {
    let mut p = Proposer::new(0, vec![1, 2, 3], vec![9]).unwrap();
    assert!(p.propose(1, 7).is_ok());
    assert_eq!(p.propose(1, 8).unwrap_err(), PaxosError::DuplicateBallot);
}

#[test]
fn liveness_under_synchrony() {
    let mut p = Proposer::new(0, vec![1, 2, 3], vec![7, 8]).unwrap();
    let env = p.propose(1, 7).unwrap();
    assert_eq!(env.message, Message::Prepare { ballot: 1 });
    assert_eq!(env.targets, vec![1, 2]);

    let mut a1 = Acceptor::new();
    let mut a2 = Acceptor::new();
    let pr1 = a1.process(env.message).unwrap();
    let pr2 = a2.process(env.message).unwrap();
    assert_eq!(pr1, Message::Promise { promised: true, ballot: 1, adopted: None });
    assert_eq!(pr2, Message::Promise { promised: true, ballot: 1, adopted: None });

    assert_eq!(p.process(1, pr1), Ok(None));
    let accept_env = p.process(2, pr2).unwrap().unwrap();
    assert_eq!(accept_env.message, Message::Accept { ballot: 1, value: 7 });
    assert_eq!(accept_env.targets, vec![1, 2]);

    let c1 = a1.process(accept_env.message).unwrap();
    let c2 = a2.process(accept_env.message).unwrap();
    assert_eq!(c1, Message::Confirm { ballot: 1, value: 7 });
    assert_eq!(c2, Message::Confirm { ballot: 1, value: 7 });

    assert_eq!(p.process(1, c1), Ok(None));
    let learn_env = p.process(2, c2).unwrap().unwrap();
    assert_eq!(learn_env.message, Message::Learn { ballot: 1, value: 7 });
    assert_eq!(learn_env.targets, vec![7, 8]);

    let mut l1 = Learner::new();
    let mut l2 = Learner::new();
    assert_eq!(l1.process(learn_env.message), Ok(()));
    assert_eq!(l2.process(learn_env.message), Ok(()));
    assert_eq!(l1.learned, Some((1, 7)));
    assert_eq!(l2.learned, Some((1, 7)));
}

#[test]
fn previously_accepted_value_is_adopted() {
    // One quorum member has already accepted (ballot=5, value=42).
    let mut a1 = Acceptor { highest_ballot: Some(5), highest_value: Some(42) };
    let mut a2 = Acceptor::new();

    let mut p = Proposer::new(0, vec![1, 2, 3], vec![9]).unwrap();
    let env = p.propose(9, 100).unwrap();
    assert_eq!(env.message, Message::Prepare { ballot: 9 });

    let pr1 = a1.process(env.message).unwrap();
    assert_eq!(pr1, Message::Promise { promised: true, ballot: 9, adopted: Some((5, 42)) });
    let pr2 = a2.process(env.message).unwrap();
    assert_eq!(pr2, Message::Promise { promised: true, ballot: 9, adopted: None });

    assert_eq!(p.process(1, pr1), Ok(None));
    let accept_env = p.process(2, pr2).unwrap().unwrap();
    // The proposer must carry the adopted value forward, not its own.
    assert_eq!(accept_env.message, Message::Accept { ballot: 9, value: 42 });
}

#[test]
fn highest_adopted_pair_wins() {
    let mut p = Proposer::new(0, vec![1, 2, 3], vec![9]).unwrap();
    p.propose(20, 100).unwrap();
    let pr1 = Message::Promise { promised: true, ballot: 20, adopted: Some((5, 42)) };
    let pr2 = Message::Promise { promised: true, ballot: 20, adopted: Some((3, 17)) };
    assert_eq!(p.process(1, pr1), Ok(None));
    let accept_env = p.process(2, pr2).unwrap().unwrap();
    // (5, 42) outranks (3, 17), whatever the order of arrival.
    assert_eq!(accept_env.message, Message::Accept { ballot: 20, value: 42 });
}

#[test]
fn rejection_path_discards_ballot_state() {
    // An acceptor holding a higher promise rejects and is left unchanged.
    let mut a = Acceptor { highest_ballot: Some(5), highest_value: None };
    let reply = a.process(Message::Prepare { ballot: 3 }).unwrap();
    assert_eq!(reply, Message::Promise { promised: false, ballot: 3, adopted: None });
    assert_eq!(a.highest_ballot, Some(5));
    assert_eq!(a.highest_value, None);

    // The proposer retires the ballot on the rejection...
    let mut p = Proposer::new(0, vec![1, 2, 3], vec![9]).unwrap();
    p.propose(3, 7).unwrap();
    assert_eq!(p.process(1, reply), Ok(None));
    // ...so a late counted promise for it is stale.
    let late = Message::Promise { promised: true, ballot: 3, adopted: None };
    assert_eq!(p.process(2, late), Err(PaxosError::StaleMessage));
}

#[test]
fn finalized_confirm_redelivery_is_stale() {
    let mut p = Proposer::new(0, vec![1, 2, 3], vec![9]).unwrap();
    p.propose(1, 7).unwrap();
    let promise = Message::Promise { promised: true, ballot: 1, adopted: None };
    p.process(1, promise).unwrap();
    p.process(2, promise).unwrap();
    let confirm = Message::Confirm { ballot: 1, value: 7 };
    assert_eq!(p.process(1, confirm), Ok(None));
    let learn_env = p.process(2, confirm).unwrap().unwrap();
    assert_eq!(learn_env.message, Message::Learn { ballot: 1, value: 7 });
    // The ballot is finalized; the same Confirm again is a silent no-op.
    assert_eq!(p.process(2, confirm), Err(PaxosError::StaleMessage));
    assert_eq!(p.process(1, confirm), Err(PaxosError::StaleMessage));
}

#[test]
fn conflicting_confirm_is_a_protocol_violation() {
    let mut p = Proposer::new(0, vec![1, 2, 3], vec![9]).unwrap();
    p.propose(1, 7).unwrap();
    let promise = Message::Promise { promised: true, ballot: 1, adopted: None };
    p.process(1, promise).unwrap();
    p.process(2, promise).unwrap();
    let bad = Message::Confirm { ballot: 1, value: 8 };
    assert_eq!(p.process(1, bad), Err(PaxosError::ProtocolViolation));
    // The state was discarded rather than allowed to learn a mismatch.
    let good = Message::Confirm { ballot: 1, value: 7 };
    assert_eq!(p.process(2, good), Err(PaxosError::StaleMessage));
}

#[test]
fn stale_messages_reference_untracked_ballots() {
    let mut p = Proposer::new(0, vec![1, 2, 3], vec![9]).unwrap();
    let promise = Message::Promise { promised: true, ballot: 4, adopted: None };
    assert_eq!(p.process(1, promise), Err(PaxosError::StaleMessage));
    let confirm = Message::Confirm { ballot: 4, value: 7 };
    assert_eq!(p.process(1, confirm), Err(PaxosError::StaleMessage));
}

#[test]
fn acceptor_guard_is_monotonic() {
    let mut a = Acceptor::new();
    assert_eq!(
        a.process(Message::Accept { ballot: 3, value: 1 }),
        Some(Message::Confirm { ballot: 3, value: 1 })
    );
    // A lower Accept is rejected explicitly, not silently.
    assert_eq!(
        a.process(Message::Accept { ballot: 2, value: 9 }),
        Some(Message::Promise { promised: false, ballot: 2, adopted: None })
    );
    assert_eq!(a.highest_ballot, Some(3));
    assert_eq!(a.highest_value, Some(1));
    // An equal Accept passes the guard.
    assert_eq!(
        a.process(Message::Accept { ballot: 3, value: 1 }),
        Some(Message::Confirm { ballot: 3, value: 1 })
    );
    // Confirmed ballots never decrease.
    assert_eq!(
        a.process(Message::Accept { ballot: 5, value: 2 }),
        Some(Message::Confirm { ballot: 5, value: 2 })
    );
    assert_eq!(a.highest_ballot, Some(5));
}

#[test]
fn acceptor_snapshots_before_raising_its_ballot() {
    let mut a = Acceptor { highest_ballot: Some(5), highest_value: Some(42) };
    let reply = a.process(Message::Prepare { ballot: 9 }).unwrap();
    // The reported pair is the one held before the promise was raised.
    assert_eq!(reply, Message::Promise { promised: true, ballot: 9, adopted: Some((5, 42)) });
    assert_eq!(a.highest_ballot, Some(9));
    assert_eq!(a.highest_value, Some(42));
}

#[test]
fn learner_records_once_and_rejects_conflicts() {
    let mut l = Learner::new();
    assert_eq!(l.process(Message::Learn { ballot: 1, value: 7 }), Ok(()));
    assert_eq!(l.learned, Some((1, 7)));
    // Re-delivery of the same pair is a no-op.
    assert_eq!(l.process(Message::Learn { ballot: 1, value: 7 }), Ok(()));
    assert_eq!(l.learned, Some((1, 7)));
    // A conflicting pair fails loudly and changes nothing.
    assert_eq!(
        l.process(Message::Learn { ballot: 2, value: 9 }),
        Err(PaxosError::ProtocolViolation)
    );
    assert_eq!(
        l.process(Message::Learn { ballot: 1, value: 9 }),
        Err(PaxosError::ProtocolViolation)
    );
    assert_eq!(l.learned, Some((1, 7)));
}

#[test]
fn ignored_messages_change_nothing() {
    let mut p = Proposer::new(0, vec![1, 2, 3], vec![9]).unwrap();
    assert_eq!(p.process(1, Message::Connect), Ok(None));
    assert_eq!(p.process(1, Message::Ack), Ok(None));
    let mut a = Acceptor::new();
    assert_eq!(a.process(Message::Connect), None);
    assert_eq!(a.process(Message::Learn { ballot: 1, value: 7 }), None);
    assert_eq!(a.highest_ballot, None);
}

#[test]
fn abandoned_ballots_can_be_evicted() {
    let mut p = Proposer::new(0, vec![1, 2, 3], vec![9]).unwrap();
    p.propose(1, 7).unwrap();
    assert!(p.evict(1));
    assert!(!p.evict(1));
    // The ballot id is free again for a retry.
    assert!(p.propose(1, 7).is_ok());
}

#[test]
fn composite_ballots_order_by_sequence_then_proposer() {
    assert_eq!(ballot_for(0, 0), 0);
    assert_eq!(ballot_for(1, 2), 0x100000002);
    assert!(ballot_for(1, 2) < ballot_for(2, 1));
    assert!(ballot_for(3, 1) < ballot_for(3, 2));
    assert_ne!(ballot_for(4, 1), ballot_for(1, 4));
}
