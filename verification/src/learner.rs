//! The Learner role: a passive sink that records the decided pair once and
//! treats any conflicting report as a hard safety violation.

use vstd::prelude::*;

use crate::messages::{Ballot, Message, PaxosError, Value};

verus! {

/// Holds at most one decided (ballot, value) pair, written once.
#[derive(Clone, Copy, Debug, PartialEq, Eq)]
pub struct Learner {
    pub learned: Option<(Ballot, Value)>,
}

impl Learner {
    /// The whole state machine as one function from state and Learn message
    /// to next state and outcome: an empty learner records the pair,
    /// re-delivery of the same pair changes nothing, and a conflicting pair
    /// is a `ProtocolViolation` that leaves the recorded pair untouched.
    pub open spec fn spec_step(pre: Learner, message: Message) -> (Learner, Result<
        (),
        PaxosError,
    >) {
        match message {
            Message::Learn { ballot, value } => match pre.learned {
                None => (Learner { learned: Some((ballot, value)) }, Ok(())),
                Some(p) => if p == (ballot, value) {
                    (pre, Ok(()))
                } else {
                    (pre, Err(PaxosError::ProtocolViolation))
                },
            },
            _ => (pre, Ok(())),
        }
    }

    /// A learner that has been told nothing yet.
    pub fn new() -> (r: Learner)
        ensures
            r.learned is None,
    {
        Learner { learned: None }
    }

    /// Records one Learn message exactly as `spec_step` says. In particular
    /// a pair, once recorded, is never replaced: a conflicting pair fails
    /// loudly instead, distinct from ordinary discarded messages.
    pub fn process(&mut self, message: Message) -> (r: Result<(), PaxosError>)
        requires
            message matches Message::Learn { .. },
        ensures
            (*final(self), r) == Learner::spec_step(*old(self), message),
            old(self).learned matches Some(p) ==> final(self).learned == Some(p),
    {
        match message {
            Message::Learn { ballot, value } => match self.learned {
                None => {
                    self.learned = Some((ballot, value));
                    Ok(())
                },
                Some((b, v)) => {
                    if b == ballot && v == value {
                        Ok(())
                    } else {
                        Err(PaxosError::ProtocolViolation)
                    }
                },
            },
            _ => Ok(()),
        }
    }
}

/// The learner state after a whole run of Learn messages, delivered in
/// order.
pub open spec fn run_learner(pre: Learner, messages: Seq<Message>) -> Learner
    decreases messages.len(),
{
    if messages.len() == 0 {
        pre
    } else {
        run_learner(Learner::spec_step(pre, messages[0]).0, messages.skip(1))
    }
}

/// Once a learner has recorded a pair, no run of further messages — late,
/// duplicated, reordered, or conflicting — ever changes it: each learner
/// learns at most one value over its whole lifetime.
pub proof fn lemma_learned_pair_stable(pre: Learner, messages: Seq<Message>)
    requires
        pre.learned is Some,
    ensures
        run_learner(pre, messages).learned == pre.learned,
    decreases messages.len(),
{
    if messages.len() > 0 {
        lemma_learned_pair_stable(Learner::spec_step(pre, messages[0]).0, messages.skip(1));
    }
}

/// Whatever state a learner starts in, after any run it has recorded either
/// nothing or exactly one pair — the first one ever delivered to it.
pub proof fn lemma_at_most_one_value(messages: Seq<Message>)
    ensures
        ({
            let end = run_learner(Learner { learned: None }, messages);
            end.learned matches Some(p) ==> exists|i: int|
                0 <= i < messages.len() && messages[i] == (Message::Learn {
                    ballot: p.0,
                    value: p.1,
                })
        }),
    decreases messages.len(),
{
    if messages.len() > 0 {
        let pre = Learner { learned: None };
        let next = Learner::spec_step(pre, messages[0]).0;
        if next.learned is Some {
            lemma_learned_pair_stable(next, messages.skip(1));
        } else {
            lemma_at_most_one_value(messages.skip(1));
            let end = run_learner(next, messages.skip(1));
            if end.learned is Some {
                let p = end.learned->0;
                let i = choose|i: int|
                    0 <= i < messages.skip(1).len() && messages.skip(1)[i] == (Message::Learn {
                        ballot: p.0,
                        value: p.1,
                    });
                assert(messages[i + 1] == (Message::Learn { ballot: p.0, value: p.1 }));
            }
        }
    }
}

} // verus!
