use ctmp_relay::registry::{Registry, WriteOutcome};
use ctmp_relay::session::{Action, ReadOutcome, Session};

/// A consumer connection: the bytes that arrived, or a closed socket.
struct Peer {
    id: u32,
    open: bool,
    inbox: std::cell::RefCell<Vec<u8>>,
}

impl Peer {
    fn new(id: u32) -> Peer {
        Peer { id, open: true, inbox: Default::default() }
    }
}

/// Relays everything that `stream` holds to the peers in `registry`, as the
/// program does for one producer, and returns the peers that were closed.
fn relay(stream: &[u8], registry: &mut Registry<Peer>) -> Vec<u32> {
    let mut closed = Vec::new();
    let mut at = 0;
    let mut session = Session::new();
    while let Some(count) = session.wanted() {
        let outcome = match stream.get(at..at + count) {
            Some(bytes) => {
                at += count;
                ReadOutcome::Data(bytes.to_vec())
            }
            None => ReadOutcome::Failed,
        };
        let (next, action) = session.advance(outcome);
        session = next;
        if let Action::Forward(frame) = action {
            let mut fanout = registry.begin(&frame);
            loop {
                let outcome = match registry.target(&fanout) {
                    Some(peer) if peer.open => {
                        peer.inbox.borrow_mut().extend_from_slice(frame.header());
                        peer.inbox.borrow_mut().extend_from_slice(frame.body());
                        WriteOutcome::Wrote(frame.header().len() + frame.body().len())
                    }
                    Some(_) => WriteOutcome::Failed,
                    None => break,
                };
                if let Some(peer) = registry.settle(&mut fanout, outcome) {
                    closed.push(peer.id);
                }
            }
        }
    }
    closed
}

/// Takes the peers out of the registry, in place.
fn drain(registry: &mut Registry<Peer>) -> Vec<Peer> {
    let mut peers = Vec::new();
    let empty = vec![0xCC, 0, 0, 0, 0, 0, 0, 0];
    let (session, _) = Session::new().advance(ReadOutcome::Data(empty));
    let frame = match session.advance(ReadOutcome::Data(Vec::new())).1 {
        Action::Forward(frame) => frame,
        other => panic!("expected a frame, got {other:?}"),
    };
    let mut fanout = registry.begin(&frame);
    while let Some(peer) = registry.settle(&mut fanout, WriteOutcome::Failed) {
        peers.push(peer);
    }
    // Evictions fill the gap from the back: restore the order of registration.
    if peers.len() > 1 {
        peers[1..].reverse();
    }
    peers
}

const HELLO: [u8; 13] = [0xCC, 0x00, 0x00, 0x05, 0, 0, 0, 0, b'h', b'e', b'l', b'l', b'o'];

#[test]
fn plain_hello_frame_is_accepted_and_forwarded_unchanged_to_all_consumers() {
    let mut registry = Registry::new();
    for id in 1..=3 {
        registry.register(Peer::new(id));
    }
    let closed = relay(&HELLO, &mut registry);
    assert!(closed.is_empty());
    let peers = drain(&mut registry);
    assert_eq!(peers.len(), 3);
    for (peer, id) in peers.iter().zip(1..=3) {
        assert_eq!(peer.id, id);
        assert_eq!(*peer.inbox.borrow(), HELLO);
    }
}

#[test]
fn frame_with_the_reserved_bit_is_not_forwarded_but_the_next_one_is() {
    let mut stream = HELLO.to_vec();
    stream[1] = 0x80;
    stream.extend_from_slice(&HELLO);
    let mut registry = Registry::new();
    registry.register(Peer::new(1));
    registry.register(Peer::new(2));
    relay(&stream, &mut registry);
    for peer in drain(&mut registry) {
        assert_eq!(*peer.inbox.borrow(), HELLO);
    }
}

#[test]
fn sensitive_frame_with_a_wrong_checksum_reaches_no_consumer() {
    let mut stream = vec![0xCC, 0x40, 0x00, 0x05, 0xDE, 0xAD, 0, 0];
    stream.extend_from_slice(b"hello");
    let sealed = [0xCC, 0x40, 0x00, 0x05, 0x23, 0x1B, 0, 0, b'h', b'e', b'l', b'l', b'o'];
    let mut registry = Registry::new();
    registry.register(Peer::new(1));
    registry.register(Peer::new(2));
    relay(&stream, &mut registry);
    assert_eq!(registry.len(), 2);
    relay(&sealed, &mut registry);
    for peer in drain(&mut registry) {
        assert_eq!(*peer.inbox.borrow(), sealed);
    }
}

#[test]
fn dead_consumer_is_dropped_and_a_new_one_joins() {
    let mut registry = Registry::new();
    registry.register(Peer::new(1));
    registry.register(Peer { id: 2, open: false, inbox: Default::default() });
    registry.register(Peer::new(3));

    let closed = relay(&HELLO, &mut registry);
    assert_eq!(closed, vec![2]);
    assert_eq!(registry.len(), 2);

    registry.register(Peer::new(4));
    let second = [0xCC, 0x00, 0x00, 0x02, 0, 0, 0, 0, b'o', b'k'];
    let closed = relay(&second, &mut registry);
    assert!(closed.is_empty());

    let peers = drain(&mut registry);
    let ids: Vec<u32> = peers.iter().map(|peer| peer.id).collect();
    assert_eq!(ids, vec![1, 3, 4]);
    let mut both = HELLO.to_vec();
    both.extend_from_slice(&second);
    assert_eq!(*peers[0].inbox.borrow(), both);
    assert_eq!(*peers[1].inbox.borrow(), both);
    assert_eq!(*peers[2].inbox.borrow(), second);
}

#[test]
fn frames_of_several_producers_arrive_whole_and_in_the_order_relayed() {
    let first = [0xCC, 0x00, 0x00, 0x03, 0, 0, 0, 0, b'o', b'n', b'e'];
    let second = [0xCC, 0x00, 0x00, 0x03, 0, 0, 0, 0, b't', b'w', b'o'];
    let mut registry = Registry::new();
    registry.register(Peer::new(1));
    relay(&first, &mut registry);
    relay(&second, &mut registry);
    relay(&first, &mut registry);
    let peers = drain(&mut registry);
    let mut expected = first.to_vec();
    expected.extend_from_slice(&second);
    expected.extend_from_slice(&first);
    assert_eq!(*peers[0].inbox.borrow(), expected);
}
