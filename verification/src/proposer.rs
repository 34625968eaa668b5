//! The Proposer role: drives one or more ballots through phase 1
//! (Prepare/Promise) and phase 2 (Accept/Confirm) to a decided value.

use vstd::prelude::*;
use std::collections::HashMap;

use crate::messages::{Ballot, Envelope, Message, ParticipantId, PaxosError, Value};

verus! {

broadcast use vstd::std_specs::hash::group_hash_axioms;

/// No participant id occurs twice.
pub open spec fn distinct_seq(s: Seq<ParticipantId>) -> bool {
    forall|i: int, j: int| 0 <= i < j < s.len() ==> s[i] != s[j]
}

/// The quorum solicited for any ballot over an ordered acceptor list: its
/// first `n / 2 + 1` members. Deterministic in the list, so retries reason
/// about stable quorum membership.
pub open spec fn quorum_of(ids: Seq<ParticipantId>) -> Seq<ParticipantId> {
    ids.take(ids.len() as int / 2 + 1)
}

/// A quorum over a non-empty acceptor list is a strict majority.
pub proof fn lemma_quorum_is_majority(ids: Seq<ParticipantId>)
    requires
        ids.len() >= 1,
    ensures
        quorum_of(ids).len() == ids.len() as int / 2 + 1,
        1 <= quorum_of(ids).len() <= ids.len(),
        2 * quorum_of(ids).len() > ids.len(),
        forall|i: int| 0 <= i < quorum_of(ids).len() ==> quorum_of(ids)[i] == ids[i],
{
}

/// Proposer-owned bookkeeping for one in-flight ballot.
pub struct BallotState {
    /// The ballot id this state drives; never changes.
    pub ballot: Ballot,
    /// The current candidate value; replaced by the value of the highest
    /// previously-accepted pair reported in a Promise.
    pub value: Value,
    /// The highest previously-accepted ballot adopted so far, if any.
    pub adopted_ballot: Option<Ballot>,
    /// Promises still awaited before the Accept phase may start.
    pub remaining_promise: usize,
    /// Confirms still awaited before the value is decided.
    pub remaining_confirm: usize,
    /// The acceptors this ballot was addressed to.
    pub quorum: Vec<ParticipantId>,
}

impl BallotState {
    /// Internal consistency of one tracked ballot, relative to the key it is
    /// filed under and the proposer's acceptor list.
    pub open spec fn wf(self, key: Ballot, acceptors: Seq<ParticipantId>) -> bool {
        &&& self.ballot == key
        &&& self.quorum@ == quorum_of(acceptors)
        &&& self.remaining_promise <= self.quorum@.len()
        &&& 1 <= self.remaining_confirm <= self.quorum@.len()
    }
}

/// Drives ballots toward a decision; holds independent state per ballot, so
/// several ballots may be in flight at once.
pub struct Proposer {
    pub id: ParticipantId,
    pub states: HashMap<Ballot, BallotState>,
    pub acceptors: Vec<ParticipantId>,
    pub learners: Vec<ParticipantId>,
}

impl Proposer {
    /// Construction-time and preserved invariant: an odd acceptor list with
    /// no repeats, and every tracked ballot internally consistent.
    pub open spec fn wf(self) -> bool {
        &&& self.acceptors@.len() % 2 == 1
        &&& distinct_seq(self.acceptors@)
        &&& forall|b: Ballot|
            self.states@.contains_key(b) ==> (#[trigger] self.states@[b]).wf(b, self.acceptors@)
    }

    /// The state a fresh `propose(ballot, value)` files, field by field.
    pub open spec fn is_fresh_state(
        st: BallotState,
        ballot: Ballot,
        value: Value,
        acceptors: Seq<ParticipantId>,
    ) -> bool {
        &&& st.ballot == ballot
        &&& st.value == value
        &&& st.adopted_ballot is None
        &&& st.remaining_promise == quorum_of(acceptors).len()
        &&& st.remaining_confirm == quorum_of(acceptors).len()
        &&& st.quorum@ == quorum_of(acceptors)
    }

    /// The value-adoption rule: a reported previously-accepted pair `(b, v)`
    /// replaces the tracked candidate exactly when `b` exceeds every ballot
    /// adopted so far.
    pub open spec fn adopt(st: BallotState, adopted: Option<(Ballot, Value)>) -> BallotState {
        match adopted {
            None => st,
            Some((b, v)) => match st.adopted_ballot {
                None => BallotState { adopted_ballot: Some(b), value: v, ..st },
                Some(ab) => if b > ab {
                    BallotState { adopted_ballot: Some(b), value: v, ..st }
                } else {
                    st
                },
            },
        }
    }

    /// How one counted Promise transforms a tracked ballot: adoption, then
    /// one fewer awaited promise; on the last one, the confirm counter is
    /// reset for phase 2.
    pub open spec fn after_promise(
        st: BallotState,
        adopted: Option<(Ballot, Value)>,
    ) -> BallotState
        recommends
            st.remaining_promise >= 1,
    {
        let adopted_st = Proposer::adopt(st, adopted);
        if st.remaining_promise == 1 {
            BallotState {
                remaining_promise: 0,
                remaining_confirm: st.quorum@.len() as usize,
                ..adopted_st
            }
        } else {
            BallotState {
                remaining_promise: (st.remaining_promise - 1) as usize,
                ..adopted_st
            }
        }
    }

    /// Fails with `ConfigurationError` exactly when the acceptor list has an
    /// even number of members (including none), since a majority is otherwise
    /// ambiguous in this scheme.
    pub fn new(
        id: ParticipantId,
        acceptors: Vec<ParticipantId>,
        learners: Vec<ParticipantId>,
    ) -> (r: Result<Proposer, PaxosError>)
        requires
            distinct_seq(acceptors@),
        ensures
            acceptors@.len() % 2 != 1 ==> r == Err::<Proposer, PaxosError>(
                PaxosError::ConfigurationError,
            ),
            acceptors@.len() % 2 == 1 ==> (r matches Ok(p) && {
                &&& p.wf()
                &&& p.id == id
                &&& p.acceptors@ == acceptors@
                &&& p.learners@ == learners@
                &&& p.states@ == Map::<Ballot, BallotState>::empty()
            }),
    {
        if acceptors.len() % 2 != 1 {
            return Err(PaxosError::ConfigurationError);
        }
        Ok(Proposer { id, states: HashMap::new(), acceptors, learners })
    }

    /// The deterministic quorum for this proposer's acceptor list.
    pub fn select_quorum(&self) -> (r: Vec<ParticipantId>)
        requires
            self.wf(),
        ensures
            r@ == quorum_of(self.acceptors@),
    {
        let n = self.acceptors.len();
        let quorum_size = n / 2 + 1;
        let mut quorum: Vec<ParticipantId> = Vec::new();
        let mut i: usize = 0;
        while i < quorum_size
            invariant
                quorum_size == n as int / 2 + 1,
                n == self.acceptors@.len(),
                n >= 1,
                i <= quorum_size <= n,
                quorum@ == self.acceptors@.take(i as int),
            decreases quorum_size - i,
        {
            quorum.push(self.acceptors[i]);
            assert(self.acceptors@.take(i + 1 as int) == self.acceptors@.take(i as int).push(
                self.acceptors@[i as int],
            ));
            i = i + 1;
        }
        quorum
    }

    /// Opens a fresh `BallotState` for `ballot` and returns the Prepare
    /// envelope addressed to the selected quorum; fails with
    /// `DuplicateBallot` exactly when `ballot` is already live.
    pub fn propose(&mut self, ballot: Ballot, value: Value) -> (r: Result<Envelope, PaxosError>)
        requires
            old(self).wf(),
        ensures
            final(self).wf(),
            final(self).id == old(self).id,
            final(self).acceptors == old(self).acceptors,
            final(self).learners == old(self).learners,
            old(self).states@.contains_key(ballot) ==> {
                &&& r == Err::<Envelope, PaxosError>(PaxosError::DuplicateBallot)
                &&& final(self).states@ == old(self).states@
            },
            !old(self).states@.contains_key(ballot) ==> (r matches Ok(env) && {
                &&& env.message == (Message::Prepare { ballot })
                &&& env.targets@ == quorum_of(old(self).acceptors@)
                &&& final(self).states@.contains_key(ballot)
                &&& Proposer::is_fresh_state(
                    final(self).states@[ballot],
                    ballot,
                    value,
                    old(self).acceptors@,
                )
                &&& final(self).states@ == old(self).states@.insert(
                    ballot,
                    final(self).states@[ballot],
                )
            }),
    {
        if self.states.contains_key(&ballot) {
            return Err(PaxosError::DuplicateBallot);
        }
        let quorum = self.select_quorum();
        let targets = copy_ids(&quorum);
        let n = quorum.len();
        proof {
            lemma_quorum_is_majority(self.acceptors@);
        }
        self.states.insert(
            ballot,
            BallotState {
                ballot,
                value,
                adopted_ballot: None,
                remaining_promise: n,
                remaining_confirm: n,
                quorum,
            },
        );
        Ok(Envelope { message: Message::Prepare { ballot }, targets })
    }

    /// Drops the state of `ballot`, whether or not it is live, and reports
    /// whether it was. A ballot abandoned by the transport never completes
    /// on its own, so the caller evicts it after a deadline of its choosing
    /// and retries with a strictly higher ballot.
    pub fn evict(&mut self, ballot: Ballot) -> (r: bool)
        requires
            old(self).wf(),
        ensures
            final(self).wf(),
            final(self).id == old(self).id,
            final(self).acceptors == old(self).acceptors,
            final(self).learners == old(self).learners,
            final(self).states@ == old(self).states@.remove(ballot),
            r == old(self).states@.contains_key(ballot),
    {
        match self.states.remove(&ballot) {
            Some(_) => true,
            None => false,
        }
    }

    /// Counts one Promise or Confirm toward its tracked ballot.
    ///
    /// A rejection (`promised == false`) retires the ballot. A counted
    /// Promise applies the value-adoption rule; the last awaited one emits
    /// the Accept envelope to the same quorum. The last awaited Confirm
    /// emits the Learn envelope to all learners and retires the ballot. A
    /// message for an untracked ballot (late, duplicated, or already
    /// finalized) is `StaleMessage` and changes nothing; a Confirm whose
    /// value contradicts the tracked candidate is `ProtocolViolation` and
    /// retires the ballot rather than learn a mismatched value.
    pub fn process(&mut self, source: ParticipantId, message: Message) -> (r: Result<
        Option<Envelope>,
        PaxosError,
    >)
        requires
            old(self).wf(),
        ensures
            final(self).wf(),
            final(self).id == old(self).id,
            final(self).acceptors == old(self).acceptors,
            final(self).learners == old(self).learners,
            (message matches Message::Promise { promised, ballot, adopted } ==> {
                if !promised {
                    &&& r == Ok::<Option<Envelope>, PaxosError>(None)
                    &&& final(self).states@ == old(self).states@.remove(ballot)
                } else if !old(self).states@.contains_key(ballot)
                    || old(self).states@[ballot].remaining_promise == 0 {
                    &&& r == Err::<Option<Envelope>, PaxosError>(PaxosError::StaleMessage)
                    &&& final(self).states@ == old(self).states@
                } else {
                    let st = old(self).states@[ballot];
                    &&& final(self).states@ == old(self).states@.insert(
                        ballot,
                        Proposer::after_promise(st, adopted),
                    )
                    &&& (st.remaining_promise > 1 ==> r == Ok::<Option<Envelope>, PaxosError>(
                        None,
                    ))
                    &&& (st.remaining_promise == 1 ==> (r matches Ok(Some(env)) && {
                        &&& env.message == (Message::Accept {
                            ballot,
                            value: Proposer::adopt(st, adopted).value,
                        })
                        &&& env.targets@ == st.quorum@
                    }))
                }
            }),
            (message matches Message::Confirm { ballot, value } ==> {
                if !old(self).states@.contains_key(ballot) {
                    &&& r == Err::<Option<Envelope>, PaxosError>(PaxosError::StaleMessage)
                    &&& final(self).states@ == old(self).states@
                } else {
                    let st = old(self).states@[ballot];
                    if value != st.value {
                        &&& r == Err::<Option<Envelope>, PaxosError>(PaxosError::ProtocolViolation)
                        &&& final(self).states@ == old(self).states@.remove(ballot)
                    } else if st.remaining_confirm > 1 {
                        &&& r == Ok::<Option<Envelope>, PaxosError>(None)
                        &&& final(self).states@ == old(self).states@.insert(
                            ballot,
                            BallotState {
                                remaining_confirm: (st.remaining_confirm - 1) as usize,
                                ..st
                            },
                        )
                    } else {
                        &&& final(self).states@ == old(self).states@.remove(ballot)
                        &&& (r matches Ok(Some(env)) && {
                            &&& env.message == (Message::Learn { ballot, value })
                            &&& env.targets@ == old(self).learners@
                        })
                    }
                }
            }),
            (!(message is Promise) && !(message is Confirm)) ==> {
                &&& r == Ok::<Option<Envelope>, PaxosError>(None)
                &&& final(self).states@ == old(self).states@
            },
    {
        match message {
            Message::Promise { promised, ballot, adopted } => {
                if !promised {
                    self.states.remove(&ballot);
                    return Ok(None);
                }
                match self.states.remove(&ballot) {
                    None => Err(PaxosError::StaleMessage),
                    Some(st) => {
                        if st.remaining_promise == 0 {
                            self.states.insert(ballot, st);
                            proof {
                                assert(self.states@ =~= old(self).states@);
                            }
                            return Err(PaxosError::StaleMessage);
                        }
                        let mut st = st;
                        if let Some((b, v)) = adopted {
                            let do_adopt = match st.adopted_ballot {
                                None => true,
                                Some(ab) => b > ab,
                            };
                            if do_adopt {
                                st.adopted_ballot = Some(b);
                                st.value = v;
                            }
                        }
                        st.remaining_promise = st.remaining_promise - 1;
                        if st.remaining_promise == 0 {
                            st.remaining_confirm = st.quorum.len();
                            let targets = copy_ids(&st.quorum);
                            let value = st.value;
                            self.states.insert(ballot, st);
                            Ok(Some(Envelope { message: Message::Accept { ballot, value }, targets }))
                        } else {
                            self.states.insert(ballot, st);
                            Ok(None)
                        }
                    }
                }
            }
            Message::Confirm { ballot, value } => {
                match self.states.remove(&ballot) {
                    None => Err(PaxosError::StaleMessage),
                    Some(st) => {
                        if value != st.value {
                            return Err(PaxosError::ProtocolViolation);
                        }
                        if st.remaining_confirm > 1 {
                            let mut st = st;
                            st.remaining_confirm = st.remaining_confirm - 1;
                            self.states.insert(ballot, st);
                            Ok(None)
                        } else {
                            let targets = copy_ids(&self.learners);
                            Ok(Some(Envelope { message: Message::Learn { ballot, value }, targets }))
                        }
                    }
                }
            }
            _ => Ok(None),
        }
    }
}


/// The tracked ballot state after a whole series of adoption reports, one
/// per counted Promise (`process` applies `adopt` exactly once for each).
pub open spec fn fold_adopt(st: BallotState, reports: Seq<Option<(Ballot, Value)>>) -> BallotState
    decreases reports.len(),
{
    if reports.len() == 0 {
        st
    } else {
        fold_adopt(Proposer::adopt(st, reports[0]), reports.skip(1))
    }
}

/// A series of reports never lowers the tracked adopted ballot.
proof fn lemma_fold_adopt_monotonic(st: BallotState, reports: Seq<Option<(Ballot, Value)>>)
    ensures
        st.adopted_ballot matches Some(a) ==> (fold_adopt(st, reports).adopted_ballot matches Some(
            a2,
        ) && a2 >= a),
    decreases reports.len(),
{
    if reports.len() > 0 {
        lemma_fold_adopt_monotonic(Proposer::adopt(st, reports[0]), reports.skip(1));
    }
}

/// The value-adoption rule carries the highest-numbered previously-accepted
/// value forward: after any series of reports, every reported ballot is
/// bounded by the tracked adopted ballot, and the tracked pair is either
/// still the one held before the series or exactly one of the reported
/// pairs — the one under that highest ballot.
pub proof fn lemma_fold_adopt_carries_highest(
    st: BallotState,
    reports: Seq<Option<(Ballot, Value)>>,
)
    ensures
        forall|i: int|
            0 <= i < reports.len() ==> (#[trigger] reports[i] matches Some(p)
                ==> (fold_adopt(st, reports).adopted_ballot matches Some(a2) && a2 >= p.0)),
        (fold_adopt(st, reports).adopted_ballot == st.adopted_ballot && fold_adopt(
            st,
            reports,
        ).value == st.value) || exists|i: int|
            0 <= i < reports.len() && reports[i] == Some(
                (fold_adopt(st, reports).adopted_ballot->0, fold_adopt(st, reports).value),
            ),
    decreases reports.len(),
{
    if reports.len() > 0 {
        let st1 = Proposer::adopt(st, reports[0]);
        let out = fold_adopt(st, reports);
        lemma_fold_adopt_carries_highest(st1, reports.skip(1));
        lemma_fold_adopt_monotonic(st1, reports.skip(1));
        assert forall|i: int|
            0 <= i < reports.len() implies (#[trigger] reports[i] matches Some(p)
            ==> (out.adopted_ballot matches Some(a2) && a2 >= p.0)) by {
            if i > 0 {
                assert(reports.skip(1)[i - 1] == reports[i]);
            }
        }
        if !(out.adopted_ballot == st.adopted_ballot && out.value == st.value) {
            if out.adopted_ballot == st1.adopted_ballot && out.value == st1.value {
                assert(reports[0] == Some((out.adopted_ballot->0, out.value)));
            } else {
                let i = choose|i: int|
                    0 <= i < reports.skip(1).len() && reports.skip(1)[i] == Some(
                        (out.adopted_ballot->0, out.value),
                    );
                assert(reports[i + 1] == Some((out.adopted_ballot->0, out.value)));
            }
        }
    }
}


/// The inclusion–exclusion inequality: two finite sets hold at least as
/// many members together as their union and intersection do.
proof fn lemma_len_union_and_intersect<A>(s1: Set<A>, s2: Set<A>)
    requires
        s1.finite(),
        s2.finite(),
    ensures
        s1.len() + s2.len() <= s1.union(s2).len() + s1.intersect(s2).len(),
    decreases s1.len(),
{
    vstd::set_lib::lemma_len_subset(s1.intersect(s2), s1);
    if s1.is_empty() {
        assert(s1.union(s2) =~= s2);
        assert(s1.intersect(s2) =~= Set::empty());
    } else {
        let a = s1.choose();
        let s1r = s1.remove(a);
        lemma_len_union_and_intersect(s1r, s2);
        vstd::set_lib::lemma_len_subset(s1r.intersect(s2), s1r);
        if s2.contains(a) {
            assert(s1r.union(s2) =~= s1.union(s2));
            assert(s1.intersect(s2) =~= s1r.intersect(s2).insert(a));
        } else {
            assert(s1r.union(s2) =~= s1.union(s2).remove(a));
            assert(s1r.intersect(s2) =~= s1.intersect(s2));
        }
    }
}

/// The quorum solicited over a non-empty acceptor list with no repeated
/// ids, taken as a set, is a strict majority of the acceptor id set.
pub proof fn lemma_quorum_set_is_majority(ids: Seq<ParticipantId>)
    requires
        distinct_seq(ids),
        ids.len() >= 1,
    ensures
        quorum_of(ids).to_set().subset_of(ids.to_set()),
        2 * quorum_of(ids).to_set().len() > ids.to_set().len(),
{
    let q = quorum_of(ids);
    assert(ids.no_duplicates());
    assert(q.no_duplicates());
    ids.unique_seq_to_set();
    q.unique_seq_to_set();
    assert forall|a: ParticipantId| q.to_set().contains(a) implies ids.to_set().contains(
        a,
    ) by {
        let i = choose|i: int| 0 <= i < q.len() && q[i] == a;
        assert(ids[i] == a);
    }
}

/// Any two strict majorities of one finite participant set share a member.
/// In particular any two quorums solicited over the same acceptor ids
/// intersect, whatever order the two proposers list them in — the common
/// acceptor's monotonic guard is then what orders their two ballots.
pub proof fn lemma_quorums_intersect(
    ids: Set<ParticipantId>,
    q1: Set<ParticipantId>,
    q2: Set<ParticipantId>,
)
    requires
        ids.finite(),
        q1.subset_of(ids),
        q2.subset_of(ids),
        2 * q1.len() > ids.len(),
        2 * q2.len() > ids.len(),
    ensures
        exists|a: ParticipantId| q1.contains(a) && q2.contains(a),
{
    vstd::set_lib::lemma_len_subset(q1, ids);
    vstd::set_lib::lemma_len_subset(q2, ids);
    lemma_len_union_and_intersect(q1, q2);
    assert(q1.union(q2).subset_of(ids));
    vstd::set_lib::lemma_len_subset(q1.union(q2), ids);
    assert(q1.intersect(q2).len() > 0);
    if !(exists|a: ParticipantId| q1.contains(a) && q2.contains(a)) {
        assert(q1.intersect(q2) =~= Set::empty());
        assert(false);
    }
}

/// A fresh list with the same participant ids in the same order.
pub fn copy_ids(v: &Vec<ParticipantId>) -> (r: Vec<ParticipantId>)
    ensures
        r@ == v@,
{
    let mut r: Vec<ParticipantId> = Vec::new();
    let mut i: usize = 0;
    while i < v.len()
        invariant
            i <= v@.len(),
            r@ == v@.take(i as int),
        decreases v@.len() - i,
    {
        r.push(v[i]);
        assert(v@.take(i + 1 as int) == v@.take(i as int).push(v@[i as int]));
        i = i + 1;
    }
    assert(v@.take(v@.len() as int) == v@);
    r
}

} // verus!
