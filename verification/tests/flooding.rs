//! Tests of the node's event-loop decisions: broadcast fan-out,
//! propagation with loop avoidance, duplicate suppression, and peer
//! departure.

use floodnet::propagate;
use floodnet::FrameOutcome;
use floodnet::Msg;
use floodnet::Node;
use floodnet::Peer;
use floodnet::CAPACITY;

fn addr(s: &str) -> Vec<u8> {
    s.as_bytes().to_vec()
}

fn msg_with_id(text: &[u8], id_byte: u8) -> Msg {
    Msg::new(text.to_vec(), vec![id_byte; 16]).unwrap()
}

#[test]
fn operator_broadcast_reaches_every_peer() {
    // Two peers A and B; the operator broadcasts "hello": both receive
    // one 128-byte frame whose first five bytes are the text, whose
    // sixth byte is the zero separator, whose next 16 bytes are the id,
    // and whose remainder is zero padding.
    let mut node = Node::new();
    node.add_peer(1, addr("peer-a"));
    node.add_peer(2, addr("peer-b"));
    let outs = node.on_broadcast(b"hello".to_vec()).unwrap();
    assert_eq!(outs.len(), 2);
    assert_eq!(outs[0].to, 1);
    assert_eq!(outs[1].to, 2);
    for out in &outs {
        assert_eq!(out.frame.len(), CAPACITY);
        assert_eq!(&out.frame[..5], b"hello");
        assert_eq!(out.frame[5], 0);
        assert_eq!(out.frame[6..22].len(), 16);
        assert!(out.frame[22..].iter().all(|&b| b == 0));
    }
    assert_eq!(outs[0].frame, outs[1].frame);
    // The broadcast message is recorded, so the same frame coming back
    // is recognized as already seen.
    let back = outs[0].frame.clone();
    let m = Msg::try_from_bytes(&back).unwrap();
    assert!(node.seen.contains(&m));
}

#[test]
fn broadcast_of_large_text_is_rejected() {
    let mut node = Node::new();
    node.add_peer(1, addr("peer-a"));
    let r = node.on_broadcast(vec![b'x'; 112]);
    assert!(r.is_err());
    // The failed broadcast affected nothing: nothing was recorded and
    // the peer set is intact.
    assert_eq!(node.seen.len(), 0);
    assert_eq!(node.peers.len(), 1);
}

#[test]
fn fresh_frame_is_forwarded_but_not_echoed() {
    // A sends a frame M has never seen: M forwards the same content and
    // id to B, but not back to A.
    let mut node = Node::new();
    node.add_peer(1, addr("peer-a"));
    node.add_peer(2, addr("peer-b"));
    let frame = msg_with_id(b"ping", 42).into_bytes();
    match node.on_frame(&addr("peer-a"), &frame) {
        FrameOutcome::Delivered { msg, outs } => {
            assert_eq!(msg.text, b"ping".to_vec());
            assert_eq!(msg.id, vec![42; 16]);
            assert_eq!(outs.len(), 1);
            assert_eq!(outs[0].to, 2);
            assert_eq!(outs[0].frame, frame);
        },
        _ => panic!("a fresh frame must be delivered"),
    }
}

#[test]
fn seen_frame_is_neither_delivered_nor_propagated() {
    // A message whose id has been seen is suppressed even when it
    // arrives from a different peer than the one that delivered it.
    let mut node = Node::new();
    node.add_peer(1, addr("peer-a"));
    node.add_peer(2, addr("peer-b"));
    let frame = msg_with_id(b"ping", 7).into_bytes();
    match node.on_frame(&addr("peer-a"), &frame) {
        FrameOutcome::Delivered { .. } => {},
        _ => panic!("first arrival must be delivered"),
    }
    match node.on_frame(&addr("peer-b"), &frame) {
        FrameOutcome::Duplicate => {},
        _ => panic!("second arrival must be suppressed"),
    }
    assert_eq!(node.seen.len(), 1);
}

#[test]
fn propagation_excludes_every_origin_peer_once_each_other() {
    // Two peers share the origin address: neither is written to; the
    // one other peer gets exactly one frame; the returned set holds the
    // written-to peers first, then the origin peers, none lost.
    let peers = vec![
        Peer { handle: 1, addr: addr("shared") },
        Peer { handle: 2, addr: addr("other") },
        Peer { handle: 3, addr: addr("shared") },
    ];
    let m = msg_with_id(b"x", 9);
    let (kept, outs) = propagate(peers, &m, &addr("shared"));
    assert_eq!(outs.len(), 1);
    assert_eq!(outs[0].to, 2);
    let handles: Vec<u64> = kept.iter().map(|p| p.handle).collect();
    assert_eq!(handles, vec![2, 1, 3]);
}

#[test]
fn malformed_frame_is_dropped_and_peer_kept() {
    let mut node = Node::new();
    node.add_peer(1, addr("peer-a"));
    node.add_peer(2, addr("peer-b"));
    let junk = vec![9u8; CAPACITY];
    match node.on_frame(&addr("peer-a"), &junk) {
        FrameOutcome::Malformed(_) => {},
        _ => panic!("a frame without a separator must be malformed"),
    }
    // The peers survive a malformed frame: a later broadcast still
    // reaches both.
    let outs = node.on_broadcast(b"still here".to_vec()).unwrap();
    assert_eq!(outs.len(), 2);
}

#[test]
fn departed_peer_gets_no_further_frames() {
    // A disconnects: it leaves the peer set and later broadcasts are
    // not attempted against it.
    let mut node = Node::new();
    node.add_peer(1, addr("peer-a"));
    node.add_peer(2, addr("peer-b"));
    node.remove_peer(1);
    assert_eq!(node.peers.len(), 1);
    let outs = node.on_broadcast(b"bye".to_vec()).unwrap();
    assert_eq!(outs.len(), 1);
    assert_eq!(outs[0].to, 2);
}

#[test]
fn disconnect_lists_all_handles_and_keeps_peers() {
    // The disconnect instruction shuts every connection down but does
    // not remove peers from the set; removal happens lazily when a
    // later read reports end of stream.
    let mut node = Node::new();
    node.add_peer(1, addr("peer-a"));
    node.add_peer(2, addr("peer-b"));
    let handles = node.on_disconnect();
    assert_eq!(handles, vec![1, 2]);
    assert_eq!(node.peers.len(), 2);
}

#[test]
fn forwarded_frame_is_recorded() {
    // After forwarding, the message is in the dedup cache, so it will
    // not be flooded again.
    let mut node = Node::new();
    node.add_peer(1, addr("peer-a"));
    let frame = msg_with_id(b"once", 3).into_bytes();
    match node.on_frame(&addr("peer-a"), &frame) {
        FrameOutcome::Delivered { msg, .. } => {
            assert!(node.seen.contains(&msg));
        },
        _ => panic!("a fresh frame must be delivered"),
    }
}
