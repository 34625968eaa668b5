//! The Acceptor role: answers Prepare and Accept requests under the single
//! monotonic guard `ballot >= highest_ballot`, and never walks its promise
//! back.

use vstd::prelude::*;

use crate::messages::{Ballot, Message, Value};

verus! {

/// Records the highest ballot ever promised or accepted, and the value last
/// accepted, if any. `highest_ballot` never decreases over the acceptor's
/// lifetime.
#[derive(Clone, Copy, Debug, PartialEq, Eq)]
pub struct Acceptor {
    pub highest_ballot: Option<Ballot>,
    pub highest_value: Option<Value>,
}

impl Acceptor {
    /// A value is only ever accepted under some ballot.
    pub open spec fn wf(self) -> bool {
        self.highest_value is Some ==> self.highest_ballot is Some
    }

    /// The whole state machine as one function from state and message to
    /// next state and reply.
    ///
    /// A Prepare below the highest ballot, and an Accept strictly below it,
    /// are rejected with an explicit `promised == false` Promise and no state
    /// change, so the proposer can retire the ballot without a timeout. A
    /// granted Prepare reports the previously accepted pair (snapshotted
    /// before the ballot is raised) for the value-adoption rule. Messages
    /// addressed to other roles produce no reply and no state change.
    pub open spec fn spec_step(pre: Acceptor, message: Message) -> (Acceptor, Option<Message>)
        recommends
            pre.wf(),
    {
        match message {
            Message::Prepare { ballot } => {
                let rejected = match pre.highest_ballot {
                    Some(h) => h > ballot,
                    None => false,
                };
                if rejected {
                    (pre, Some(Message::Promise { promised: false, ballot, adopted: None }))
                } else {
                    let adopted = match (pre.highest_ballot, pre.highest_value) {
                        (Some(h), Some(v)) => Some((h, v)),
                        _ => None,
                    };
                    (
                        Acceptor { highest_ballot: Some(ballot), ..pre },
                        Some(Message::Promise { promised: true, ballot, adopted }),
                    )
                }
            },
            Message::Accept { ballot, value } => {
                let granted = match pre.highest_ballot {
                    Some(h) => ballot >= h,
                    None => true,
                };
                if granted {
                    (
                        Acceptor { highest_ballot: Some(ballot), highest_value: Some(value) },
                        Some(Message::Confirm { ballot, value }),
                    )
                } else {
                    (pre, Some(Message::Promise { promised: false, ballot, adopted: None }))
                }
            },
            _ => (pre, None),
        }
    }

    /// An acceptor that has promised or accepted nothing yet.
    pub fn new() -> (r: Acceptor)
        ensures
            r.wf(),
            r.highest_ballot is None,
            r.highest_value is None,
    {
        Acceptor { highest_ballot: None, highest_value: None }
    }

    /// Answers one message exactly as `spec_step` says; in particular the
    /// highest ballot never decreases, and a Confirm always carries the new
    /// highest ballot.
    pub fn process(&mut self, message: Message) -> (r: Option<Message>)
        requires
            old(self).wf(),
        ensures
            final(self).wf(),
            (*final(self), r) == Acceptor::spec_step(*old(self), message),
            old(self).highest_ballot matches Some(h) ==> (final(self).highest_ballot matches Some(
                h2,
            ) && h2 >= h),
            r matches Some(Message::Confirm { ballot, .. }) ==> final(self).highest_ballot
                == Some(ballot),
    {
        match message {
            Message::Prepare { ballot } => {
                let rejected = match self.highest_ballot {
                    Some(h) => h > ballot,
                    None => false,
                };
                if rejected {
                    return Some(Message::Promise { promised: false, ballot, adopted: None });
                }
                let adopted = match (self.highest_ballot, self.highest_value) {
                    (Some(h), Some(v)) => Some((h, v)),
                    _ => None,
                };
                self.highest_ballot = Some(ballot);
                Some(Message::Promise { promised: true, ballot, adopted })
            },
            Message::Accept { ballot, value } => {
                let granted = match self.highest_ballot {
                    Some(h) => ballot >= h,
                    None => true,
                };
                if granted {
                    self.highest_ballot = Some(ballot);
                    self.highest_value = Some(value);
                    Some(Message::Confirm { ballot, value })
                } else {
                    Some(Message::Promise { promised: false, ballot, adopted: None })
                }
            },
            _ => None,
        }
    }
}

/// The acceptor state after a whole run of messages, delivered in order.
pub open spec fn run_acceptor(pre: Acceptor, messages: Seq<Message>) -> Acceptor
    decreases messages.len(),
{
    if messages.len() == 0 {
        pre
    } else {
        run_acceptor(Acceptor::spec_step(pre, messages[0]).0, messages.skip(1))
    }
}

/// The ballots of the Confirms an acceptor replies over a whole run of
/// messages, in the order they are sent.
pub open spec fn confirmed_ballots(pre: Acceptor, messages: Seq<Message>) -> Seq<Ballot>
    decreases messages.len(),
{
    if messages.len() == 0 {
        Seq::empty()
    } else {
        let head: Seq<Ballot> = match Acceptor::spec_step(pre, messages[0]).1 {
            Some(Message::Confirm { ballot, .. }) => seq![ballot],
            _ => Seq::empty(),
        };
        head + confirmed_ballots(Acceptor::spec_step(pre, messages[0]).0, messages.skip(1))
    }
}

/// A single step never lowers the highest ballot; when it emits a Confirm,
/// the confirmed ballot becomes the new highest ballot, and so is never
/// lower than a ballot the acceptor had already promised or accepted.
pub proof fn lemma_step_ballot_monotonic(pre: Acceptor, message: Message)
    ensures
        pre.highest_ballot matches Some(h) ==> (Acceptor::spec_step(
            pre,
            message,
        ).0.highest_ballot matches Some(h2) && h2 >= h),
        Acceptor::spec_step(pre, message).1 matches Some(Message::Confirm { ballot, .. })
            ==> Acceptor::spec_step(pre, message).0.highest_ballot == Some(ballot),
        pre.highest_ballot matches Some(h) ==> (Acceptor::spec_step(pre, message).1 matches Some(
            Message::Confirm { ballot, .. },
        ) ==> ballot >= h),
{
}

/// Every ballot confirmed during a run is at least the highest ballot the
/// acceptor held when the run began.
proof fn lemma_confirms_bounded(pre: Acceptor, messages: Seq<Message>, h: Ballot)
    requires
        pre.highest_ballot == Some(h),
    ensures
        forall|i: int| 0 <= i < confirmed_ballots(pre, messages).len()
            ==> confirmed_ballots(pre, messages)[i] >= h,
    decreases messages.len(),
{
    if messages.len() > 0 {
        let next = Acceptor::spec_step(pre, messages[0]).0;
        lemma_step_ballot_monotonic(pre, messages[0]);
        let h2 = next.highest_ballot->0;
        lemma_confirms_bounded(next, messages.skip(1), h2);
        let tail = confirmed_ballots(next, messages.skip(1));
        let whole = confirmed_ballots(pre, messages);
        match Acceptor::spec_step(pre, messages[0]).1 {
            Some(Message::Confirm { ballot, .. }) => {
                assert(whole == seq![ballot] + tail);
                assert forall|i: int| 0 <= i < whole.len() implies whole[i] >= h by {
                    if i > 0 {
                        assert(whole[i] == tail[i - 1]);
                    }
                }
            },
            _ => {
                assert(whole == Seq::<Ballot>::empty() + tail);
                assert(whole =~= tail);
            },
        }
    }
}

/// The sequence of ballots an acceptor successfully Confirms over any run of
/// messages is non-decreasing.
pub proof fn lemma_confirmed_ballots_monotonic(pre: Acceptor, messages: Seq<Message>)
    ensures
        forall|i: int, j: int|
            0 <= i < j < confirmed_ballots(pre, messages).len() ==> confirmed_ballots(
                pre,
                messages,
            )[i] <= confirmed_ballots(pre, messages)[j],
    decreases messages.len(),
{
    if messages.len() > 0 {
        let next = Acceptor::spec_step(pre, messages[0]).0;
        let tail = confirmed_ballots(next, messages.skip(1));
        lemma_step_ballot_monotonic(pre, messages[0]);
        lemma_confirmed_ballots_monotonic(next, messages.skip(1));
        match Acceptor::spec_step(pre, messages[0]).1 {
            Some(Message::Confirm { ballot, .. }) => {
                lemma_confirms_bounded(next, messages.skip(1), ballot);
                assert(confirmed_ballots(pre, messages) == seq![ballot] + tail);
            },
            _ => {
                assert(confirmed_ballots(pre, messages) == Seq::<Ballot>::empty() + tail);
                assert(confirmed_ballots(pre, messages) =~= tail);
            },
        }
    }
}

} // verus!
