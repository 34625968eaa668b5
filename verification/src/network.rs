//! An in-memory delivery harness: it owns one set of role instances and
//! moves envelopes between them, standing in for a transport. Participant
//! ids name positions in the role lists; a target with no such position is
//! dropped, as a lossy transport may drop any message.

use vstd::prelude::*;

use crate::acceptor::Acceptor;
use crate::learner::Learner;
use crate::messages::{Ballot, Envelope, Message, Value};
use crate::proposer::{quorum_of, Proposer};

verus! {

/// The roles of one deployment and the envelopes not yet delivered, each
/// remembered with the index of the proposer that awaits its replies.
pub struct Network {
    pub proposers: Vec<Proposer>,
    pub acceptors: Vec<Acceptor>,
    pub learners: Vec<Learner>,
    pub to_send_messages: Vec<(usize, Envelope)>,
}

impl Network {
    /// Every role instance is internally consistent.
    pub open spec fn wf(self) -> bool {
        &&& forall|i: int|
            0 <= i < self.proposers@.len() ==> (#[trigger] self.proposers@[i]).wf()
        &&& forall|i: int|
            0 <= i < self.acceptors@.len() ==> (#[trigger] self.acceptors@[i]).wf()
    }

    /// Starts a ballot on the proposer at position `i` and queues the
    /// resulting Prepare envelope. Nothing happens for a position that does
    /// not exist, and a ballot the proposer refuses (already live) queues
    /// nothing.
    pub fn propose(&mut self, i: usize, ballot: Ballot, value: Value)
        requires
            old(self).wf(),
        ensures
            final(self).wf(),
            final(self).acceptors == old(self).acceptors,
            final(self).learners == old(self).learners,
            final(self).proposers@.len() == old(self).proposers@.len(),
            i >= old(self).proposers@.len() ==> *final(self) == *old(self),
            i < old(self).proposers@.len() ==> {
                let p = old(self).proposers@[i as int];
                &&& forall|j: int|
                    0 <= j < old(self).proposers@.len() && j != i ==> final(self).proposers@[j]
                        == old(self).proposers@[j]
                &&& final(self).proposers@[i as int].acceptors == p.acceptors
                &&& final(self).proposers@[i as int].learners == p.learners
                &&& if p.states@.contains_key(ballot) {
                    &&& final(self).proposers@[i as int].states@ == p.states@
                    &&& final(self).to_send_messages@ == old(self).to_send_messages@
                } else {
                    &&& final(self).proposers@[i as int].states@ == p.states@.insert(
                        ballot,
                        final(self).proposers@[i as int].states@[ballot],
                    )
                    &&& Proposer::is_fresh_state(
                        final(self).proposers@[i as int].states@[ballot],
                        ballot,
                        value,
                        p.acceptors@,
                    )
                    &&& final(self).to_send_messages@.len() == old(self).to_send_messages@.len()
                        + 1
                    &&& final(self).to_send_messages@.last().0 == i
                    &&& final(self).to_send_messages@.last().1.message == (Message::Prepare {
                        ballot,
                    })
                    &&& final(self).to_send_messages@.last().1.targets@ == quorum_of(p.acceptors@)
                    &&& forall|k: int|
                        0 <= k < old(self).to_send_messages@.len()
                            ==> final(self).to_send_messages@[k] == old(
                            self,
                        ).to_send_messages@[k]
                }
            },
    {
        if i >= self.proposers.len() {
            return;
        }
        let mut p = self.proposers.remove(i);
        let r = p.propose(ballot, value);
        self.proposers.insert(i, p);
        proof {
            assert(self.proposers@ =~= old(self).proposers@.update(
                i as int,
                self.proposers@[i as int],
            ));
        }
        match r {
            Ok(env) => {
                self.to_send_messages.push((i, env));
            },
            Err(_) => {},
        }
    }

    /// Delivers every queued envelope: a Prepare or Accept goes to the
    /// acceptor at each target position and each reply straight back to the
    /// originating proposer, whose own follow-up envelopes are queued; a
    /// Learn goes to the learner at each target position. Targets without a
    /// matching position, stale replies, and handshake messages are dropped.
    pub fn process(&mut self)
        requires
            old(self).wf(),
        ensures
            final(self).wf(),
            final(self).proposers@.len() == old(self).proposers@.len(),
            final(self).acceptors@.len() == old(self).acceptors@.len(),
            final(self).learners@.len() == old(self).learners@.len(),
    {
        let mut pending: Vec<(usize, Envelope)> = Vec::new();
        core::mem::swap(&mut pending, &mut self.to_send_messages);
        let n_prop = self.proposers.len();
        let n_acc = self.acceptors.len();
        let n_learn = self.learners.len();
        let mut k: usize = 0;
        while k < pending.len()
            invariant
                self.wf(),
                self.proposers@.len() == n_prop,
                self.acceptors@.len() == n_acc,
                self.learners@.len() == n_learn,
            decreases pending@.len() - k,
        {
            let origin = pending[k].0;
            let msg = pending[k].1.message;
            let tlen = pending[k].1.targets.len();
            match msg {
                Message::Prepare { .. } | Message::Accept { .. } => {
                    if origin < self.proposers.len() {
                        let mut p = self.proposers.remove(origin);
                        let mut j: usize = 0;
                        while j < tlen
                            invariant
                                k < pending@.len(),
                                tlen == pending@[k as int].1.targets@.len(),
                                self.proposers@.len() == n_prop - 1,
                                self.acceptors@.len() == n_acc,
                                self.learners@.len() == n_learn,
                                self.wf(),
                                p.wf(),
                            decreases tlen - j,
                        {
                            let t32 = pending[k].1.targets[j];
                            let t = t32 as usize;
                            if t < self.acceptors.len() {
                                let mut a = self.acceptors[t];
                                let reply = a.process(msg);
                                self.acceptors.set(t, a);
                                if let Some(rm) = reply {
                                    match p.process(t32, rm) {
                                        Ok(Some(out)) => {
                                            self.to_send_messages.push((origin, out));
                                        },
                                        _ => {},
                                    }
                                }
                            }
                            j = j + 1;
                        }
                        self.proposers.insert(origin, p);
                    }
                },
                Message::Learn { .. } => {
                    let mut j: usize = 0;
                    while j < tlen
                        invariant
                            k < pending@.len(),
                            tlen == pending@[k as int].1.targets@.len(),
                            msg is Learn,
                            self.proposers@.len() == n_prop,
                            self.acceptors@.len() == n_acc,
                            self.learners@.len() == n_learn,
                            self.wf(),
                        decreases tlen - j,
                    {
                        let t = pending[k].1.targets[j] as usize;
                        if t < self.learners.len() {
                            let mut l = self.learners[t];
                            let _ = l.process(msg);
                            self.learners.set(t, l);
                        }
                        j = j + 1;
                    }
                },
                _ => {},
            }
            k = k + 1;
        }
    }
}

} // verus!
