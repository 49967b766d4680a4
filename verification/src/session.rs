//! The session of one producer connection, as a state machine without I/O.
//!
//! A driver owns the connection. It asks the session how many bytes it wants
//! next, reads exactly that many, and hands the session what came of the
//! read. The session answers with the next state and with what the driver is
//! to do: go on reading, forward a frame, or close the connection.

use vstd::prelude::*;
use crate::checksum::{checksum_matches, verify_checksum};
use crate::frame::Frame;
use crate::header::{
    claimed_checksum, declared_length, header_verdict, is_sensitive, read_checksum, read_length,
    read_sensitive, verify_header, ValidationError, HEADER_LENGTH,
};

verus! {

/// What came of a read of exactly the number of bytes that the session
/// wanted.
#[derive(Debug)]
pub enum ReadOutcome {
    /// The bytes that were read.
    Data(Vec<u8>),
    /// The stream ended early, the read failed, or it timed out.
    Failed,
}

impl View for ReadOutcome {
    type V = Option<Seq<u8>>;

    open spec fn view(&self) -> Option<Seq<u8>> {
        match self {
            ReadOutcome::Data(bytes) => Some(bytes@),
            ReadOutcome::Failed => None,
        }
    }
}

/// The state of a session, as contracts see it.
pub enum SessionState {
    /// The next read is a header.
    AwaitingHeader,
    /// A valid header was read; the next read is its body.
    AwaitingBody { header: Seq<u8> },
    /// A header was rejected; the next read skips the body it declared.
    Discarding { length: u16 },
    /// The session is over.
    Closed,
}

impl SessionState {
    /// States that a session can be in: a header that awaits its body is a
    /// valid one.
    pub open spec fn wf(self) -> bool {
        self matches SessionState::AwaitingBody { header } ==> header.len() == HEADER_LENGTH
            && header_verdict(header) is Ok
    }

    /// Number of bytes that the next read must deliver, if there is a next
    /// read.
    pub open spec fn wanted(self) -> Option<nat> {
        match self {
            SessionState::AwaitingHeader => Some(HEADER_LENGTH as nat),
            SessionState::AwaitingBody { header } => Some(declared_length(header) as nat),
            SessionState::Discarding { length } => Some(length as nat),
            SessionState::Closed => None,
        }
    }
}

/// What a step of the session asks of the driver, as contracts see it.
pub enum Effect {
    /// A valid header was read: read its body next.
    ReadBody,
    /// A header was rejected for the given reason: skip its body next.
    Rejected(ValidationError),
    /// The body of a rejected frame was skipped.
    Resynced,
    /// A frame passed every check: forward these bytes.
    Forward { header: Seq<u8>, body: Seq<u8> },
    /// The checksum of a sensitive frame did not verify: the frame is dropped.
    ChecksumMismatch,
    /// The session is over: close the connection in both directions.
    Close,
}

/// One step of the session: the state and the effect that follow from a
/// state and from what came of the read.
///
/// A failed read closes the session, and so does one that delivers another
/// number of bytes than was wanted. A header is validated: a valid one is
/// kept until its body arrives, a rejected one has the body that it declares
/// skipped. A body completes a frame, which is forwarded unless the frame is
/// sensitive and its checksum does not verify. Either way the session awaits
/// the next header. A closed session stays closed.
pub open spec fn step(state: SessionState, outcome: Option<Seq<u8>>) -> (SessionState, Effect) {
    if state.wanted() is None || outcome is None || outcome->0.len() != state.wanted()->0 {
        (SessionState::Closed, Effect::Close)
    } else {
        let data = outcome->0;
        match state {
            SessionState::AwaitingHeader => match header_verdict(data) {
                Ok(_) => (SessionState::AwaitingBody { header: data }, Effect::ReadBody),
                Err(reason) => (
                    SessionState::Discarding { length: declared_length(data) },
                    Effect::Rejected(reason),
                ),
            },
            SessionState::AwaitingBody { header } => if !is_sensitive(header) || checksum_matches(
                header,
                data,
                claimed_checksum(header),
            ) {
                (SessionState::AwaitingHeader, Effect::Forward { header, body: data })
            } else {
                (SessionState::AwaitingHeader, Effect::ChecksumMismatch)
            },
            SessionState::Discarding { length } => (SessionState::AwaitingHeader, Effect::Resynced),
            SessionState::Closed => (SessionState::Closed, Effect::Close),
        }
    }
}

/// What a step of the session asks of the driver.
#[derive(Debug)]
pub enum Action {
    /// A valid header was read: read its body next.
    ReadBody,
    /// A header was rejected for the given reason: skip its body next.
    Rejected(ValidationError),
    /// The body of a rejected frame was skipped.
    Resynced,
    /// A frame passed every check: forward it to the consumers.
    Forward(Frame),
    /// The checksum of a sensitive frame did not verify: the frame is dropped.
    ChecksumMismatch,
    /// The session is over: close the connection in both directions.
    Close,
}

impl View for Action {
    type V = Effect;

    open spec fn view(&self) -> Effect {
        match self {
            Action::ReadBody => Effect::ReadBody,
            Action::Rejected(reason) => Effect::Rejected(*reason),
            Action::Resynced => Effect::Resynced,
            Action::Forward(frame) => Effect::Forward {
                header: frame.header_bytes(),
                body: frame.body_bytes(),
            },
            Action::ChecksumMismatch => Effect::ChecksumMismatch,
            Action::Close => Effect::Close,
        }
    }
}

/// Where a session stands.
#[derive(Clone, Copy, Debug, PartialEq, Eq, Structural)]
pub enum Phase {
    /// The next read is a header.
    AwaitingHeader,
    /// The next read is the body of the header that was read last.
    AwaitingBody,
    /// The next read skips the body of the header that was rejected last.
    Discarding,
    /// The session is over.
    Closed,
}

/// The session of one producer connection.
#[derive(Debug)]
pub struct Session {
    phase: Phase,
    header: Vec<u8>,
}

impl View for Session {
    type V = SessionState;

    closed spec fn view(&self) -> SessionState {
        match self.phase {
            Phase::AwaitingHeader => SessionState::AwaitingHeader,
            Phase::AwaitingBody => SessionState::AwaitingBody { header: self.header@ },
            Phase::Discarding => SessionState::Discarding { length: declared_length(self.header@) },
            Phase::Closed => SessionState::Closed,
        }
    }
}

impl Session {
    #[verifier::type_invariant]
    spec fn inv(self) -> bool {
        &&& self.phase is AwaitingBody ==> self.header@.len() == HEADER_LENGTH && header_verdict(
            self.header@,
        ) is Ok
        &&& self.phase is Discarding ==> self.header@.len() == HEADER_LENGTH
    }

    /// A session at its start: it awaits the first header.
    pub fn new() -> (session: Session)
        ensures
            session@ == SessionState::AwaitingHeader,
    {
        Session { phase: Phase::AwaitingHeader, header: Vec::new() }
    }

    /// Where the session stands.
    pub fn phase(&self) -> (phase: Phase)
        ensures
            phase is AwaitingHeader <==> self@ is AwaitingHeader,
            phase is AwaitingBody <==> self@ is AwaitingBody,
            phase is Discarding <==> self@ is Discarding,
            phase is Closed <==> self@ is Closed,
            self@.wf(),
    {
        proof {
            use_type_invariant(self);
        }
        self.phase
    }

    /// Whether the session is over.
    pub fn is_closed(&self) -> (closed: bool)
        ensures
            closed <==> self@ is Closed,
    {
        match self.phase {
            Phase::Closed => true,
            _ => false,
        }
    }

    /// Number of bytes that the driver is to read next: eight for a header,
    /// the declared length for a body, whether it is kept or skipped; nothing
    /// once the session is over.
    pub fn wanted(&self) -> (count: Option<usize>)
        ensures
            count is Some <==> self@.wanted() is Some,
            count matches Some(n) ==> n == self@.wanted()->0,
    {
        proof {
            use_type_invariant(self);
        }
        match self.phase {
            Phase::AwaitingHeader => Some(HEADER_LENGTH),
            Phase::AwaitingBody => Some(read_length(self.header.as_slice()) as usize),
            Phase::Discarding => Some(read_length(self.header.as_slice()) as usize),
            Phase::Closed => None,
        }
    }

    /// Takes what came of the read that the session wanted, and gives the
    /// session after it together with what the driver is to do.
    pub fn advance(self, outcome: ReadOutcome) -> (next: (Session, Action))
        ensures
            (next.0@, next.1@) == step(self@, outcome@),
            next.0@.wf(),
    {
        proof {
            use_type_invariant(&self);
        }
        let wanted: usize = match self.wanted() {
            Some(n) => n,
            None => {
                return (Session { phase: Phase::Closed, header: Vec::new() }, Action::Close);
            },
        };
        let data: Vec<u8> = match outcome {
            ReadOutcome::Data(bytes) => bytes,
            ReadOutcome::Failed => {
                return (Session { phase: Phase::Closed, header: Vec::new() }, Action::Close);
            },
        };
        if data.len() != wanted {
            return (Session { phase: Phase::Closed, header: Vec::new() }, Action::Close);
        }
        match self.phase {
            Phase::AwaitingHeader => match verify_header(data.as_slice()) {
                Ok(_) => (Session { phase: Phase::AwaitingBody, header: data }, Action::ReadBody),
                Err(reason) => (
                    Session { phase: Phase::Discarding, header: data },
                    Action::Rejected(reason),
                ),
            },
            Phase::AwaitingBody => {
                let header: Vec<u8> = self.header;
                if read_sensitive(header.as_slice()) {
                    let claimed: u16 = read_checksum(header.as_slice());
                    if !verify_checksum(header.as_slice(), data.as_slice(), claimed) {
                        return (
                            Session { phase: Phase::AwaitingHeader, header: Vec::new() },
                            Action::ChecksumMismatch,
                        );
                    }
                }
                (
                    Session { phase: Phase::AwaitingHeader, header: Vec::new() },
                    Action::Forward(Frame::from_checked(header, data)),
                )
            },
            Phase::Discarding => (
                Session { phase: Phase::AwaitingHeader, header: Vec::new() },
                Action::Resynced,
            ),
            Phase::Closed => (Session { phase: Phase::Closed, header: Vec::new() }, Action::Close),
        }
    }
}

} // verus!
