//! The registry of consumers and the fan-out of one frame to all of them.
//!
//! The registry owns the handles of the consumers and performs no I/O. A
//! driver that holds the registry exclusively begins a fan-out, and then, as
//! long as the registry names a target, writes the frame to that target and
//! hands the registry what came of the write. A consumer that did not take
//! the whole frame is handed back to the driver, which closes it.

use vstd::prelude::*;
use crate::frame::Frame;

verus! {

/// What came of one write of a whole frame to one consumer.
#[derive(Clone, Copy, Debug, PartialEq, Eq, Structural)]
pub enum WriteOutcome {
    /// The write returned, and reported this many bytes as written.
    Wrote(usize),
    /// The write failed.
    Failed,
}

impl WriteOutcome {
    /// Whether the consumer took the whole frame of `frame_len` bytes.
    pub open spec fn delivered(self, frame_len: nat) -> bool {
        self matches WriteOutcome::Wrote(count) && count == frame_len
    }
}

/// The handles without the one at `at`: the last handle takes its place.
pub open spec fn evict<H>(handles: Seq<H>, at: int) -> Seq<H> {
    handles.update(at, handles.last()).drop_last()
}

/// How far a fan-out has come: the handles, and the number of them, from the
/// front, that have taken the frame.
pub struct FanoutState<H> {
    pub handles: Seq<H>,
    pub cursor: nat,
}

impl<H> FanoutState<H> {
    /// The consumer to write to next, unless the fan-out is complete.
    pub open spec fn target(self) -> Option<H> {
        if self.cursor < self.handles.len() {
            Some(self.handles[self.cursor as int])
        } else {
            None
        }
    }

    /// The fan-out after the write to its target: a target that took the
    /// whole frame stays and the next handle becomes the target; any other
    /// target is evicted and the last handle takes its place. A complete
    /// fan-out stays as it is.
    pub open spec fn settle(self, delivered: bool) -> FanoutState<H> {
        if self.cursor >= self.handles.len() {
            self
        } else if delivered {
            FanoutState { handles: self.handles, cursor: self.cursor + 1 }
        } else {
            FanoutState { handles: evict(self.handles, self.cursor as int), cursor: self.cursor }
        }
    }

    /// The handle that the write to the target costs the registry, if any.
    pub open spec fn evicted(self, delivered: bool) -> Option<H> {
        if self.cursor < self.handles.len() && !delivered {
            Some(self.handles[self.cursor as int])
        } else {
            None
        }
    }
}

/// The progress of one fan-out.
#[derive(Debug)]
pub struct Fanout {
    cursor: usize,
    frame_len: usize,
}

impl Fanout {
    /// Number of handles, from the front of the registry, that have taken
    /// the frame.
    pub closed spec fn cursor(self) -> nat {
        self.cursor as nat
    }

    /// Number of bytes of the frame that is fanned out.
    pub closed spec fn frame_len(self) -> nat {
        self.frame_len as nat
    }
}

/// The consumers that frames are fanned out to, in the order in which they
/// were registered, but for the places that evictions have changed.
#[derive(Debug)]
pub struct Registry<H> {
    handles: Vec<H>,
}

impl<H> View for Registry<H> {
    type V = Seq<H>;

    closed spec fn view(&self) -> Seq<H> {
        self.handles@
    }
}

impl<H> Registry<H> {
    /// A registry without consumers.
    pub fn new() -> (registry: Registry<H>)
        ensures
            registry@ == Seq::<H>::empty(),
    {
        Registry { handles: Vec::new() }
    }

    /// Number of registered consumers.
    pub fn len(&self) -> (count: usize)
        ensures
            count == self@.len(),
    {
        self.handles.len()
    }

    /// Whether no consumer is registered.
    pub fn is_empty(&self) -> (empty: bool)
        ensures
            empty <==> self@.len() == 0,
    {
        self.handles.len() == 0
    }

    /// Registers a consumer, behind those that are registered already.
    pub fn register(&mut self, handle: H)
        ensures
            final(self)@ == old(self)@.push(handle),
    {
        self.handles.push(handle);
    }

    /// The fan-out of `frame` as contracts see it: these handles, and this
    /// progress.
    pub open spec fn fanout_state(self, fanout: Fanout) -> FanoutState<H> {
        FanoutState { handles: self@, cursor: fanout.cursor() }
    }

    /// Begins the fan-out of `frame`: no consumer has taken it yet.
    pub fn begin(&self, frame: &Frame) -> (fanout: Fanout)
        ensures
            fanout.cursor() == 0,
            fanout.frame_len() == frame.wire_bytes().len(),
    {
        Fanout { cursor: 0, frame_len: frame.wire_len() }
    }

    /// The consumer to write the frame to next, or nothing once every
    /// registered consumer has taken it.
    pub fn target(&self, fanout: &Fanout) -> (handle: Option<&H>)
        ensures
            handle is Some <==> self.fanout_state(*fanout).target() is Some,
            handle matches Some(h) ==> *h == self.fanout_state(*fanout).target()->0,
    {
        if fanout.cursor < self.handles.len() {
            Some(&self.handles[fanout.cursor])
        } else {
            None
        }
    }

    /// Takes what came of the write to the target. A target that took the
    /// whole frame stays registered, and the fan-out moves on to the next
    /// handle. Any other target, after a failed or a short write, is removed
    /// from the registry and handed back, for the driver to close; the last
    /// handle takes its place and is the next target.
    pub fn settle(&mut self, fanout: &mut Fanout, outcome: WriteOutcome) -> (evicted: Option<H>)
        ensures
            final(self).fanout_state(*final(fanout)) == old(self).fanout_state(*old(fanout)).settle(
                outcome.delivered(old(fanout).frame_len()),
            ),
            evicted == old(self).fanout_state(*old(fanout)).evicted(
                outcome.delivered(old(fanout).frame_len()),
            ),
            final(fanout).frame_len() == old(fanout).frame_len(),
    {
        if fanout.cursor >= self.handles.len() {
            return None;
        }
        let delivered: bool = match outcome {
            WriteOutcome::Wrote(count) => count == fanout.frame_len,
            WriteOutcome::Failed => false,
        };
        if delivered {
            fanout.cursor = fanout.cursor + 1;
            None
        } else {
            Some(self.handles.swap_remove(fanout.cursor))
        }
    }
}

} // verus!
