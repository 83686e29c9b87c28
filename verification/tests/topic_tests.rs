use blake2::digest::consts::U32;
use blake2::Blake2b;
use blake2::Digest;
use sassafras_gossip::topic::proof_topic;
use sassafras_gossip::topic::protocol_name;

fn blake2b_256(data: &[u8]) -> Vec<u8> {
    let mut h = Blake2b::<U32>::new();
    h.update(data);
    h.finalize().to_vec()
}

#[test]
fn topic_is_block_hash_of_seed() {
    let topic = proof_topic();
    assert_eq!(topic.len(), 32);
    assert_eq!(topic, blake2b_256(b"SASSAFRAS-PROOF-GLOBAL"));
}

#[test]
fn topic_is_not_the_seed_itself() {
    let topic = proof_topic();
    assert_ne!(topic, b"SASSAFRAS-PROOF-GLOBAL".to_vec());
    assert_ne!(topic, blake2b_256(b""));
}

#[test]
fn protocol_name_bytes() {
    assert_eq!(protocol_name(), b"/paritytech/sassafras/1".to_vec());
}
