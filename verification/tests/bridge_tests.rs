use blake2::digest::consts::U32;
use blake2::Blake2b;
use blake2::Digest;
use futures::channel::mpsc::unbounded;
use sassafras_gossip::bridge::GossipValidator;
use sassafras_gossip::bridge::NetworkBridge;
use sassafras_gossip::bridge::ValidationAction;
use sassafras_gossip::codec::encode_proof;
use sassafras_gossip::message::ProofMessage;

fn msg(id: u64, key_byte: u8, payload: Vec<u8>) -> ProofMessage {
    ProofMessage {
        authority_id: id,
        ephemeral_key: vec![key_byte; 32],
        encrypted_payload: payload,
    }
}

fn blake2b_256(data: &[u8]) -> Vec<u8> {
    let mut h = Blake2b::<U32>::new();
    h.update(data);
    h.finalize().to_vec()
}

#[test]
fn validator_always_keeps() {
    let validator = GossipValidator::new();
    let topic = blake2b_256(b"SASSAFRAS-PROOF-GLOBAL");
    let buffers: Vec<Vec<u8>> = vec![vec![], vec![0], vec![0xff; 4096], b"junk".to_vec()];
    for data in buffers {
        match validator.validate(&data) {
            ValidationAction::ProcessAndKeep(t) => assert_eq!(t, topic),
            ValidationAction::Discard => panic!("the validator may never discard"),
        }
    }
}

#[test]
fn n_outbound_yield_n_publishes() {
    let bridge = NetworkBridge::new();
    let outbound: Vec<ProofMessage> = (0..5u64).map(|i| msg(i, i as u8, vec![i as u8; 3])).collect();
    let out = bridge.poll_step(&vec![], &outbound, false);
    assert_eq!(out.publishes.len(), 5);
    for (i, p) in out.publishes.iter().enumerate() {
        assert_eq!(p.topic, bridge.topic);
        assert_eq!(p.data, encode_proof(&outbound[i]));
        assert!(!p.force_rebroadcast);
    }
    assert!(out.deliveries.is_empty());
    assert!(!out.done);
}

#[test]
fn outbound_concrete_publish() {
    let bridge = NetworkBridge::new();
    let m = msg(7, 0, vec![1, 2, 3]);
    let out = bridge.poll_step(&vec![], &vec![m.clone()], false);
    assert_eq!(out.publishes.len(), 1);
    let p = &out.publishes[0];
    assert_eq!(p.topic, blake2b_256(b"SASSAFRAS-PROOF-GLOBAL"));
    assert_eq!(p.data, encode_proof(&m));
    assert!(!p.force_rebroadcast);
}

#[test]
fn inbound_concrete_delivery() {
    let bridge = NetworkBridge::new();
    let m = msg(9, 0xff, vec![]);
    let raw = encode_proof(&m);
    let out = bridge.poll_step(&vec![raw], &vec![], false);
    assert_eq!(out.deliveries, vec![m]);
    assert!(out.publishes.is_empty());
}

#[test]
fn inbound_garbage_one_step() {
    let bridge = NetworkBridge::new();
    let out = bridge.poll_step(&vec![vec![1, 2, 3]], &vec![], false);
    assert!(out.deliveries.is_empty());
    assert!(out.publishes.is_empty());
    assert!(!out.done, "a garbage notification must not end the task");
}

#[test]
fn inbound_order_and_filtering() {
    let bridge = NetworkBridge::new();
    let first = msg(1, 1, vec![10]);
    let second = msg(2, 2, vec![20, 21]);
    let inbound = vec![
        vec![0xde, 0xad],
        encode_proof(&first),
        vec![],
        encode_proof(&second),
    ];
    let out = bridge.poll_step(&inbound, &vec![], false);
    assert_eq!(out.deliveries, vec![first, second]);
}

#[test]
fn both_directions_in_one_step() {
    let bridge = NetworkBridge::new();
    let incoming = msg(21, 1, vec![1]);
    let outgoing = msg(42, 2, vec![2]);
    let out = bridge.poll_step(
        &vec![encode_proof(&incoming), vec![0xba, 0xad]],
        &vec![outgoing.clone()],
        false,
    );
    assert_eq!(out.deliveries, vec![incoming]);
    assert_eq!(out.publishes.len(), 1);
    assert_eq!(out.publishes[0].data, encode_proof(&outgoing));
    assert_eq!(out.publishes[0].topic, bridge.topic);
    assert!(!out.publishes[0].force_rebroadcast);
}

#[test]
fn published_bytes_echoed_back_are_delivered() {
    // The relay round trip: what the bridge publishes for a proof comes back
    // through the inbound side as exactly that proof.
    let bridge = NetworkBridge::new();
    let m = msg(77, 0x11, vec![4, 5, 6, 7, 8]);
    let step_out = bridge.poll_step(&vec![], &vec![m.clone()], false);
    let echoed = step_out.publishes[0].data.clone();
    let step_in = bridge.poll_step(&vec![echoed], &vec![], false);
    assert_eq!(step_in.deliveries, vec![m]);
}

#[test]
fn done_mirrors_transport() {
    let bridge = NetworkBridge::new();
    assert!(!bridge.poll_step(&vec![], &vec![], false).done);
    assert!(bridge.poll_step(&vec![], &vec![], true).done);
}

#[test]
fn handle_inbound_accepts_exactly_encodings() {
    let bridge = NetworkBridge::new();
    let m = msg(11, 0x7f, vec![1; 100]);
    let raw = encode_proof(&m);
    assert_eq!(bridge.handle_inbound(&raw), Some(m));
    assert_eq!(bridge.handle_inbound(&raw[1..]), None);
    assert_eq!(bridge.handle_inbound(&[]), None);
}

#[test]
fn closed_channel_discard() {
    // The consumer of decoded proofs is dropped before a valid message
    // arrives; relaying the message is a silent discard, not a panic.
    let bridge = NetworkBridge::new();
    let (tx, rx) = unbounded::<ProofMessage>();
    drop(rx);
    let m = msg(3, 4, vec![5]);
    let out = bridge.poll_step(&vec![encode_proof(&m)], &vec![], false);
    assert_eq!(out.deliveries.len(), 1);
    for delivered in out.deliveries {
        let result = tx.unbounded_send(delivered);
        assert!(result.is_err(), "the send must fail quietly, not block");
    }
}
