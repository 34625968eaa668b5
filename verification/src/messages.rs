//! The message protocol: a closed set of message variants, the envelope
//! that binds a message to its destinations, and the error taxonomy.

use vstd::prelude::*;

verus! {

/// Identifies a participant process; one id space is shared by all roles.
pub type ParticipantId = u32;

/// A ballot number; totally ordered, establishes precedence between proposals.
pub type Ballot = u64;

/// The opaque consensus payload.
pub type Value = u64;

/// A ballot globally unique across proposers: the proposer's own sequence
/// number in the high bits and its id in the low bits, so ballots order
/// lexicographically by (sequence, proposer) and two proposers never collide.
pub fn ballot_for(sequence: u32, proposer: ParticipantId) -> (r: Ballot)
    ensures
        r == sequence * 0x100000000u64 + proposer,
{
    (sequence as u64) * 0x100000000u64 + (proposer as u64)
}

/// Composite ballots order lexicographically by (sequence, proposer id) and
/// are injective: distinct (sequence, proposer) pairs never collide.
pub proof fn lemma_ballot_for_ordered(s1: u32, p1: ParticipantId, s2: u32, p2: ParticipantId)
    ensures
        (s1 < s2 || (s1 == s2 && p1 < p2)) ==> s1 * 0x100000000u64 + p1 < s2 * 0x100000000u64
            + p2,
        (s1 != s2 || p1 != p2) ==> s1 * 0x100000000u64 + p1 != s2 * 0x100000000u64 + p2,
{
}

/// The error taxonomy. Expected protocol noise (stale or duplicated
/// messages) is `StaleMessage`; a conflicting value for a decided ballot is
/// the hard error `ProtocolViolation` and is never silently resolved.
#[derive(Clone, Copy, Debug, PartialEq, Eq, Structural)]
pub enum PaxosError {
    /// The acceptor set handed to a proposer has an even number of members.
    ConfigurationError,
    /// `propose` reused a ballot id that still has live state.
    DuplicateBallot,
    /// A message referenced a ballot that is not tracked; absorbed silently.
    StaleMessage,
    /// Conflicting values were reported for one decided ballot.
    ProtocolViolation,
    /// A wire frame was malformed or carried an unrecognized type tag.
    DecodeError,
}

/// The wire-level tag of each message variant.
#[derive(Clone, Copy, Debug, PartialEq, Eq, Structural)]
pub enum MessageType {
    Connect,
    Ack,
    Proposal,
    Promise,
    Accept,
    Confirm,
    Learn,
}

impl MessageType {
    /// The numeric tag this variant is framed with.
    pub open spec fn spec_tag(self) -> u16 {
        match self {
            MessageType::Connect => 1,
            MessageType::Ack => 2,
            MessageType::Proposal => 3,
            MessageType::Promise => 4,
            MessageType::Accept => 5,
            MessageType::Confirm => 6,
            MessageType::Learn => 7,
        }
    }

    /// The variant a numeric tag denotes, if any.
    pub open spec fn spec_from_tag(tag: u16) -> Option<MessageType> {
        if tag == 1 {
            Some(MessageType::Connect)
        } else if tag == 2 {
            Some(MessageType::Ack)
        } else if tag == 3 {
            Some(MessageType::Proposal)
        } else if tag == 4 {
            Some(MessageType::Promise)
        } else if tag == 5 {
            Some(MessageType::Accept)
        } else if tag == 6 {
            Some(MessageType::Confirm)
        } else if tag == 7 {
            Some(MessageType::Learn)
        } else {
            None
        }
    }

    pub fn tag(self) -> (r: u16)
        ensures
            r == self.spec_tag(),
    {
        match self {
            MessageType::Connect => 1,
            MessageType::Ack => 2,
            MessageType::Proposal => 3,
            MessageType::Promise => 4,
            MessageType::Accept => 5,
            MessageType::Confirm => 6,
            MessageType::Learn => 7,
        }
    }

    pub fn from_tag(tag: u16) -> (r: Option<MessageType>)
        ensures
            r == MessageType::spec_from_tag(tag),
    {
        if tag == 1 {
            Some(MessageType::Connect)
        } else if tag == 2 {
            Some(MessageType::Ack)
        } else if tag == 3 {
            Some(MessageType::Proposal)
        } else if tag == 4 {
            Some(MessageType::Promise)
        } else if tag == 5 {
            Some(MessageType::Accept)
        } else if tag == 6 {
            Some(MessageType::Confirm)
        } else if tag == 7 {
            Some(MessageType::Learn)
        } else {
            None
        }
    }
}

/// One protocol message. `Promise::adopted` carries the highest
/// (ballot, value) pair the responding acceptor had previously accepted, as
/// one optional pair: "ballot present, value absent" is not a valid state.
#[derive(Clone, Copy, Debug, PartialEq, Eq)]
pub enum Message {
    Connect,
    Ack,
    Prepare { ballot: Ballot },
    Promise { promised: bool, ballot: Ballot, adopted: Option<(Ballot, Value)> },
    Accept { ballot: Ballot, value: Value },
    Confirm { ballot: Ballot, value: Value },
    Learn { ballot: Ballot, value: Value },
}

impl Message {
    /// The wire tag of this message.
    pub fn message_type(&self) -> (r: MessageType)
        ensures
            r == self.spec_type(),
    {
        match self {
            Message::Connect => MessageType::Connect,
            Message::Ack => MessageType::Ack,
            Message::Prepare { .. } => MessageType::Proposal,
            Message::Promise { .. } => MessageType::Promise,
            Message::Accept { .. } => MessageType::Accept,
            Message::Confirm { .. } => MessageType::Confirm,
            Message::Learn { .. } => MessageType::Learn,
        }
    }

    /// The wire tag of this message.
    pub open spec fn spec_type(self) -> MessageType {
        match self {
            Message::Connect => MessageType::Connect,
            Message::Ack => MessageType::Ack,
            Message::Prepare { .. } => MessageType::Proposal,
            Message::Promise { .. } => MessageType::Promise,
            Message::Accept { .. } => MessageType::Accept,
            Message::Confirm { .. } => MessageType::Confirm,
            Message::Learn { .. } => MessageType::Learn,
        }
    }
}

/// One message together with the ordered list of its destinations.
#[derive(Clone, Debug, PartialEq, Eq)]
pub struct Envelope {
    pub message: Message,
    pub targets: Vec<ParticipantId>,
}

} // verus!
