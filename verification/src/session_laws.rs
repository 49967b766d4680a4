//! Laws of the session: what single steps guarantee, and what a session
//! forwards of a whole stream of bytes.

use vstd::prelude::*;
use crate::checksum::checksum_matches;
use crate::frame::frame_accepted;
use crate::header::{
    claimed_checksum, declared_length, header_verdict, is_sensitive, HEADER_LENGTH,
};
use crate::session::{step, Effect, SessionState};

verus! {

/// A step leads from a state that a session can be in to another such state.
pub proof fn lemma_step_keeps_wf(state: SessionState, outcome: Option<Seq<u8>>)
    requires
        state.wf(),
    ensures
        step(state, outcome).0.wf(),
{
}

/// A session that is over stays over, whatever it is handed.
pub proof fn lemma_closed_is_final(outcome: Option<Seq<u8>>)
    ensures
        step(SessionState::Closed, outcome) == (SessionState::Closed, Effect::Close),
{
}

/// A failed read closes the session, in every state.
pub proof fn lemma_failed_read_closes(state: SessionState)
    ensures
        step(state, None) == (SessionState::Closed, Effect::Close),
{
}

/// Only a body that completes an acceptable frame is forwarded, and the
/// frame is forwarded as it was received: the header that the session kept
/// and the body that it was just handed.
pub proof fn lemma_forward_is_faithful(state: SessionState, outcome: Option<Seq<u8>>)
    requires
        state.wf(),
        step(state, outcome).1 is Forward,
    ensures
        ({
            let effect = step(state, outcome).1;
            &&& state == SessionState::AwaitingBody { header: effect->header }
            &&& outcome == Some(effect->body)
            &&& frame_accepted(effect->header, effect->body)
            &&& step(state, outcome).0 == SessionState::AwaitingHeader
        }),
{
}

/// A body that arrives in full is forwarded exactly if the frame is
/// acceptable; either way the session awaits the next header.
pub proof fn lemma_body_is_forwarded_or_dropped(header: Seq<u8>, body: Seq<u8>)
    requires
        (SessionState::AwaitingBody { header }).wf(),
        body.len() == declared_length(header),
    ensures
        ({
            let (next, effect) = step(SessionState::AwaitingBody { header }, Some(body));
            &&& next == SessionState::AwaitingHeader
            &&& frame_accepted(header, body) ==> effect == Effect::Forward { header, body }
            &&& !frame_accepted(header, body) ==> effect == Effect::ChecksumMismatch
            &&& !frame_accepted(header, body) ==> is_sensitive(header) && !checksum_matches(
                header,
                body,
                claimed_checksum(header),
            )
        }),
{
}

/// After a rejected header the session skips exactly the number of bytes
/// that the header declares, whatever those bytes hold, and then awaits the
/// next header.
pub proof fn lemma_rejected_frame_is_skipped(header: Seq<u8>, skipped: Seq<u8>)
    requires
        header.len() == HEADER_LENGTH,
        header_verdict(header) is Err,
        skipped.len() == declared_length(header),
    ensures
        ({
            let (discarding, rejected) = step(SessionState::AwaitingHeader, Some(header));
            &&& rejected == Effect::Rejected(header_verdict(header)->Err_0)
            &&& discarding.wanted() == Some(declared_length(header) as nat)
            &&& step(discarding, Some(skipped)) == (SessionState::AwaitingHeader, Effect::Resynced)
        }),
{
}

/// What a read of exactly `count` bytes from the front of `stream` gives:
/// the bytes, or a failure if the stream ends before.
pub open spec fn read_exact(stream: Seq<u8>, count: nat) -> Option<Seq<u8>> {
    if count <= stream.len() {
        Some(stream.take(count as int))
    } else {
        None
    }
}

/// What is left of `stream` after a read of exactly `count` bytes.
pub open spec fn unread(stream: Seq<u8>, count: nat) -> Seq<u8> {
    if count <= stream.len() {
        stream.skip(count as int)
    } else {
        stream
    }
}

/// States in the order in which a session can pass through them without
/// consuming a byte.
pub open spec fn rank(state: SessionState) -> nat {
    match state {
        SessionState::Closed => 0,
        SessionState::AwaitingHeader => 1,
        SessionState::AwaitingBody { .. } => 2,
        SessionState::Discarding { .. } => 2,
    }
}

/// The effects of a session that starts in `state` and is driven over all of
/// `stream`: each read delivers exactly what the session wants, until the
/// stream ends.
pub open spec fn run(state: SessionState, stream: Seq<u8>) -> Seq<Effect>
    decreases stream.len(), rank(state),
{
    match state.wanted() {
        None => Seq::empty(),
        Some(count) => {
            let outcome = read_exact(stream, count);
            let (next, effect) = step(state, outcome);
            seq![effect] + run(next, unread(stream, count))
        },
    }
}

/// The frames that a run of effects forwards, each as its wire bytes, in
/// order.
pub open spec fn forwarded(effects: Seq<Effect>) -> Seq<Seq<u8>>
    decreases effects.len(),
{
    if effects.len() == 0 {
        Seq::empty()
    } else {
        let rest = forwarded(effects.drop_first());
        match effects.first() {
            Effect::Forward { header, body } => seq![header + body] + rest,
            _ => rest,
        }
    }
}

/// The acceptable frames that a stream of bytes carries, in order. A frame
/// takes up eight bytes of header and as many bytes of body as the header
/// declares, whether it is acceptable or not; a frame that the stream does
/// not hold in full, and whatever follows it, is lost.
pub open spec fn accepted_frames(stream: Seq<u8>) -> Seq<Seq<u8>>
    decreases stream.len(),
{
    if stream.len() < HEADER_LENGTH {
        Seq::empty()
    } else {
        let header = stream.take(HEADER_LENGTH as int);
        let end = HEADER_LENGTH + declared_length(header);
        if stream.len() < end {
            Seq::empty()
        } else {
            let body = stream.subrange(HEADER_LENGTH as int, end);
            let rest = accepted_frames(stream.skip(end));
            if frame_accepted(header, body) {
                seq![header + body] + rest
            } else {
                rest
            }
        }
    }
}

/// The frames forwarded by an effect followed by more effects.
proof fn lemma_forwarded_cons(effect: Effect, rest: Seq<Effect>)
    ensures
        forwarded(seq![effect] + rest) == match effect {
            Effect::Forward { header, body } => seq![header + body] + forwarded(rest),
            _ => forwarded(rest),
        },
{
    assert((seq![effect] + rest).drop_first() =~= rest);
}

/// A session that is driven over a stream forwards exactly the acceptable
/// frames of the stream, byte for byte and in their order. A rejected
/// header, a failed checksum or a body without interest never costs the
/// session its place in the stream.
pub proof fn lemma_session_forwards_accepted_frames(stream: Seq<u8>)
    ensures
        forwarded(run(SessionState::AwaitingHeader, stream)) == accepted_frames(stream),
    decreases stream.len(),
{
    let start = SessionState::AwaitingHeader;
    if stream.len() < HEADER_LENGTH {
        let (closed, close) = step(start, None);
        lemma_forwarded_cons(close, run(closed, stream));
        assert(run(closed, stream) =~= Seq::<Effect>::empty());
    } else {
        let header = stream.take(HEADER_LENGTH as int);
        let after_header = stream.skip(HEADER_LENGTH as int);
        let (waiting, first) = step(start, Some(header));
        let length = declared_length(header) as nat;
        let end = HEADER_LENGTH + length;
        lemma_forwarded_cons(first, run(waiting, after_header));
        assert(waiting.wanted() == Some(length));
        if after_header.len() < length {
            let (closed, close) = step(waiting, None);
            lemma_forwarded_cons(close, run(closed, after_header));
            assert(run(closed, after_header) =~= Seq::<Effect>::empty());
        } else {
            let body = after_header.take(length as int);
            let rest = after_header.skip(length as int);
            assert(body =~= stream.subrange(HEADER_LENGTH as int, end as int));
            assert(rest =~= stream.skip(end as int));
            let (next, second) = step(waiting, Some(body));
            assert(next == start);
            lemma_forwarded_cons(second, run(next, rest));
            lemma_session_forwards_accepted_frames(rest);
        }
    }
}

/// However a stream is made up, driving a session over it ends with the
/// session closing the connection: once, and as its last step.
pub proof fn lemma_run_ends_closed(state: SessionState, stream: Seq<u8>)
    requires
        !(state is Closed),
    ensures
        run(state, stream).len() > 0,
        run(state, stream).last() == Effect::Close,
        forall|i: int|
            0 <= i < run(state, stream).len() - 1 ==> !(#[trigger] run(state, stream)[i] is Close),
    decreases stream.len(), rank(state),
{
    let count = state.wanted()->0;
    let (next, effect) = step(state, read_exact(stream, count));
    let tail = run(next, unread(stream, count));
    if next is Closed {
        assert(tail =~= Seq::<Effect>::empty());
    } else {
        lemma_run_ends_closed(next, unread(stream, count));
        assert forall|i: int| 0 <= i < run(state, stream).len() - 1 implies !(#[trigger] run(
            state,
            stream,
        )[i] is Close) by {
            if i > 0 {
                assert(run(state, stream)[i] == tail[i - 1]);
            }
        }
    }
}

} // verus!
