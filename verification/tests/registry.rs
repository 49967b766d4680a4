use ctmp_relay::registry::{Fanout, Registry, WriteOutcome};
use ctmp_relay::session::{Action, ReadOutcome, Session};
use ctmp_relay::frame::Frame;

/// A consumer that a test can watch: what it received, and how it answers a
/// write.
#[derive(Debug)]
struct Consumer {
    name: &'static str,
    open: bool,
    accepts: usize,
    received: std::cell::RefCell<Vec<u8>>,
}

impl Consumer {
    fn open(name: &'static str) -> Consumer {
        Consumer { name, open: true, accepts: usize::MAX, received: Default::default() }
    }

    fn closed(name: &'static str) -> Consumer {
        Consumer { name, open: false, accepts: 0, received: Default::default() }
    }

    fn slow(name: &'static str, accepts: usize) -> Consumer {
        Consumer { name, open: true, accepts, received: Default::default() }
    }

    fn write(&self, bytes: &[u8]) -> WriteOutcome {
        if !self.open {
            return WriteOutcome::Failed;
        }
        let taken = bytes.len().min(self.accepts);
        self.received.borrow_mut().extend_from_slice(&bytes[..taken]);
        WriteOutcome::Wrote(taken)
    }
}

/// Runs a session over one frame and takes the frame that it forwards.
fn accepted(bytes: &[u8]) -> Frame {
    let (session, _) = Session::new().advance(ReadOutcome::Data(bytes[..8].to_vec()));
    match session.advance(ReadOutcome::Data(bytes[8..].to_vec())).1 {
        Action::Forward(frame) => frame,
        other => panic!("expected a frame, got {other:?}"),
    }
}

fn hello() -> Frame {
    accepted(&[0xCC, 0, 0, 5, 0, 0, 0, 0, b'h', b'e', b'l', b'l', b'o'])
}

/// Fans `frame` out as a driver does, and returns the names of the consumers
/// in the order written to, and those that were handed back.
fn broadcast(registry: &mut Registry<Consumer>, frame: &Frame) -> (Vec<&'static str>, Vec<Consumer>) {
    let bytes = frame.to_bytes();
    let mut written = Vec::new();
    let mut evicted = Vec::new();
    let mut fanout: Fanout = registry.begin(frame);
    loop {
        let outcome = match registry.target(&fanout) {
            Some(consumer) => {
                written.push(consumer.name);
                consumer.write(&bytes)
            }
            None => break,
        };
        if let Some(consumer) = registry.settle(&mut fanout, outcome) {
            evicted.push(consumer);
        }
    }
    (written, evicted)
}

/// The names of the registered consumers, in place. A fan-out in which every
/// write is reported as taken visits every consumer and changes nothing.
fn names(registry: &mut Registry<Consumer>) -> Vec<&'static str> {
    let frame = hello();
    let mut fanout = registry.begin(&frame);
    let mut names = Vec::new();
    while let Some(consumer) = registry.target(&fanout) {
        names.push(consumer.name);
        assert!(registry.settle(&mut fanout, WriteOutcome::Wrote(frame.wire_len())).is_none());
    }
    assert_eq!(names.len(), registry.len());
    names
}

#[test]
fn new_registry_is_empty() {
    let registry: Registry<Consumer> = Registry::new();
    assert_eq!(registry.len(), 0);
    assert!(registry.is_empty());
    let fanout = registry.begin(&hello());
    assert!(registry.target(&fanout).is_none());
}

#[test]
fn register_appends() {
    let mut registry = Registry::new();
    registry.register(Consumer::open("a"));
    assert_eq!(registry.len(), 1);
    assert!(!registry.is_empty());
    registry.register(Consumer::open("b"));
    registry.register(Consumer::open("c"));
    assert_eq!(registry.len(), 3);
    assert_eq!(names(&mut registry), vec!["a", "b", "c"]);
}

#[test]
fn frame_reaches_every_registered_consumer_unchanged() {
    let mut registry = Registry::new();
    registry.register(Consumer::open("a"));
    registry.register(Consumer::open("b"));
    registry.register(Consumer::open("c"));
    let frame = hello();
    let (written, evicted) = broadcast(&mut registry, &frame);
    assert_eq!(written, vec!["a", "b", "c"]);
    assert!(evicted.is_empty());
    assert_eq!(registry.len(), 3);
    let expected = [0xCC, 0, 0, 5, 0, 0, 0, 0, b'h', b'e', b'l', b'l', b'o'];
    let mut fanout = registry.begin(&frame);
    while let Some(consumer) = registry.target(&fanout) {
        assert_eq!(*consumer.received.borrow(), expected);
        registry.settle(&mut fanout, WriteOutcome::Wrote(13));
    }
}

#[test]
fn broadcast_to_nobody_does_nothing() {
    let mut registry: Registry<Consumer> = Registry::new();
    let (written, evicted) = broadcast(&mut registry, &hello());
    assert!(written.is_empty());
    assert!(evicted.is_empty());
    assert!(registry.is_empty());
}

#[test]
fn closed_consumer_is_evicted_and_the_others_are_served() {
    let mut registry = Registry::new();
    registry.register(Consumer::open("first"));
    registry.register(Consumer::closed("second"));
    registry.register(Consumer::open("third"));
    let frame = hello();
    let (written, evicted) = broadcast(&mut registry, &frame);
    // The last handle takes the place of the evicted one and is served next.
    assert_eq!(written, vec!["first", "second", "third"]);
    assert_eq!(evicted.len(), 1);
    assert_eq!(evicted[0].name, "second");
    assert!(evicted[0].received.borrow().is_empty());
    assert_eq!(registry.len(), 2);
    assert_eq!(names(&mut registry), vec!["first", "third"]);

    registry.register(Consumer::open("fourth"));
    let next = accepted(&[0xCC, 0, 0, 2, 0, 0, 0, 0, b'o', b'k']);
    let (written, evicted) = broadcast(&mut registry, &next);
    assert_eq!(written, vec!["first", "third", "fourth"]);
    assert!(evicted.is_empty());
    assert_eq!(registry.len(), 3);

    let mut both = frame.to_bytes();
    both.extend_from_slice(&next.to_bytes());
    let mut fanout = registry.begin(&next);
    while let Some(consumer) = registry.target(&fanout) {
        if consumer.name == "fourth" {
            assert_eq!(*consumer.received.borrow(), next.to_bytes());
        } else {
            assert_eq!(*consumer.received.borrow(), both);
        }
        registry.settle(&mut fanout, WriteOutcome::Wrote(next.wire_len()));
    }
}

#[test]
fn short_write_evicts() {
    let mut registry = Registry::new();
    registry.register(Consumer::slow("slow", 12));
    registry.register(Consumer::open("fine"));
    let (written, evicted) = broadcast(&mut registry, &hello());
    assert_eq!(written, vec!["slow", "fine"]);
    assert_eq!(evicted.len(), 1);
    assert_eq!(evicted[0].name, "slow");
    assert_eq!(names(&mut registry), vec!["fine"]);
}

#[test]
fn only_the_exact_byte_count_counts_as_delivered() {
    let frame = hello();
    for (outcome, stays) in [
        (WriteOutcome::Wrote(13), true),
        (WriteOutcome::Wrote(12), false),
        (WriteOutcome::Wrote(14), false),
        (WriteOutcome::Wrote(0), false),
        (WriteOutcome::Wrote(8), false),
        (WriteOutcome::Failed, false),
    ] {
        let mut registry = Registry::new();
        registry.register(7u32);
        let mut fanout = registry.begin(&frame);
        let evicted = registry.settle(&mut fanout, outcome);
        assert_eq!(evicted.is_none(), stays, "{outcome:?}");
        assert_eq!(evicted.unwrap_or(7), 7);
        assert_eq!(registry.len(), if stays { 1 } else { 0 });
        assert!(registry.target(&fanout).is_none());
    }
}

#[test]
fn eviction_moves_the_last_handle_into_the_gap() {
    let mut registry = Registry::new();
    for id in [10u32, 20, 30, 40, 50] {
        registry.register(id);
    }
    let frame = hello();
    let mut fanout = registry.begin(&frame);
    let mut written = Vec::new();
    let mut evicted = Vec::new();
    // 10 takes the frame, 20 fails, then 50, which took its place, fails too.
    for outcome in [
        WriteOutcome::Wrote(13),
        WriteOutcome::Failed,
        WriteOutcome::Wrote(3),
        WriteOutcome::Wrote(13),
        WriteOutcome::Wrote(13),
    ] {
        written.push(*registry.target(&fanout).unwrap());
        if let Some(id) = registry.settle(&mut fanout, outcome) {
            evicted.push(id);
        }
    }
    assert_eq!(written, vec![10, 20, 50, 40, 30]);
    assert_eq!(evicted, vec![20, 50]);
    assert!(registry.target(&fanout).is_none());
    assert_eq!(registry.len(), 3);
    let mut fanout = registry.begin(&frame);
    let mut left = Vec::new();
    while let Some(id) = registry.target(&fanout) {
        left.push(*id);
        registry.settle(&mut fanout, WriteOutcome::Wrote(13));
    }
    assert_eq!(left, vec![10, 40, 30]);
}

#[test]
fn every_consumer_failing_empties_the_registry() {
    let mut registry = Registry::new();
    registry.register(Consumer::closed("a"));
    registry.register(Consumer::closed("b"));
    registry.register(Consumer::closed("c"));
    let (written, evicted) = broadcast(&mut registry, &hello());
    assert_eq!(written, vec!["a", "c", "b"]);
    assert_eq!(evicted.len(), 3);
    assert!(registry.is_empty());
}

#[test]
fn settle_after_the_end_changes_nothing() {
    let mut registry = Registry::new();
    registry.register(1u32);
    registry.register(2u32);
    let frame = hello();
    let mut fanout = registry.begin(&frame);
    assert!(registry.settle(&mut fanout, WriteOutcome::Wrote(13)).is_none());
    assert!(registry.settle(&mut fanout, WriteOutcome::Wrote(13)).is_none());
    assert!(registry.target(&fanout).is_none());
    assert!(registry.settle(&mut fanout, WriteOutcome::Failed).is_none());
    assert!(registry.settle(&mut fanout, WriteOutcome::Wrote(13)).is_none());
    assert_eq!(registry.len(), 2);
    assert!(registry.target(&fanout).is_none());
}

#[test]
fn consumer_registered_during_a_fan_out_is_served_by_it() {
    let mut registry = Registry::new();
    registry.register(1u32);
    let frame = hello();
    let mut fanout = registry.begin(&frame);
    registry.settle(&mut fanout, WriteOutcome::Wrote(13));
    assert!(registry.target(&fanout).is_none());
    registry.register(2u32);
    assert_eq!(registry.target(&fanout), Some(&2));
}
