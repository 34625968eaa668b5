use synod::acceptor::Acceptor;
use synod::learner::Learner;
use synod::messages::Message;
use synod::network::Network;
use synod::proposer::Proposer;

fn three_acceptor_network() -> Network {
    // Participant ids double as positions in the role lists.
    let proposer = Proposer::new(0, vec![0, 1, 2], vec![0]).unwrap();
    Network {
        proposers: vec![proposer],
        acceptors: vec![Acceptor::new(), Acceptor::new(), Acceptor::new()],
        learners: vec![Learner::new()],
        to_send_messages: vec![],
    }
}

#[test]
fn a_full_round_decides_the_value() {
    let mut net = three_acceptor_network();
    net.propose(0, 1, 7);
    assert_eq!(net.to_send_messages.len(), 1);
    assert_eq!(net.to_send_messages[0].1.message, Message::Prepare { ballot: 1 });

    net.process(); // Prepare out, Promises back, Accept queued
    assert_eq!(net.to_send_messages.len(), 1);
    assert_eq!(net.to_send_messages[0].1.message, Message::Accept { ballot: 1, value: 7 });

    net.process(); // Accept out, Confirms back, Learn queued
    assert_eq!(net.to_send_messages.len(), 1);
    assert_eq!(net.to_send_messages[0].1.message, Message::Learn { ballot: 1, value: 7 });

    net.process(); // Learn delivered
    assert!(net.to_send_messages.is_empty());
    assert_eq!(net.learners[0].learned, Some((1, 7)));
}

#[test]
fn proposing_out_of_range_does_nothing() {
    let mut net = three_acceptor_network();
    net.propose(5, 1, 7);
    assert!(net.to_send_messages.is_empty());
    assert_eq!(net.proposers[0].states.len(), 0);
}

#[test]
fn duplicate_proposals_queue_one_envelope() {
    let mut net = three_acceptor_network();
    net.propose(0, 1, 7);
    net.propose(0, 1, 8);
    assert_eq!(net.to_send_messages.len(), 1);
}

#[test]
fn competing_higher_ballot_prevails() {
    let mut net = three_acceptor_network();
    net.proposers.push(Proposer::new(1, vec![0, 1, 2], vec![0]).unwrap());

    // The second proposer decides value 9 under ballot 10 first.
    net.propose(1, 10, 9);
    net.process();
    net.process();
    net.process();
    assert_eq!(net.learners[0].learned, Some((10, 9)));

    // A later, lower ballot cannot pass the acceptors' guard.
    net.propose(0, 1, 7);
    net.process();
    net.process();
    net.process();
    assert_eq!(net.learners[0].learned, Some((10, 9)));
}
