use vstd::prelude::*;

verus! {

/// The well-known byte string the single shared topic is derived from: the
/// ASCII bytes of `SASSAFRAS-PROOF-GLOBAL`.
pub open spec fn topic_seed() -> Seq<u8> {
    seq![
        0x53u8, 0x41, 0x53, 0x53, 0x41, 0x46, 0x52, 0x41, 0x53, 0x2d, 0x50, 0x52, 0x4f, 0x4f,
        0x46, 0x2d, 0x47, 0x4c, 0x4f, 0x42, 0x41, 0x4c,
    ]
}

/// The ASCII bytes of `/paritytech/sassafras/1`, the protocol name under
/// which the relay binds itself to the transport.
pub open spec fn protocol_name_spec() -> Seq<u8> {
    seq![
        0x2fu8, 0x70, 0x61, 0x72, 0x69, 0x74, 0x79, 0x74, 0x65, 0x63, 0x68, 0x2f, 0x73, 0x61,
        0x73, 0x73, 0x61, 0x66, 0x72, 0x61, 0x73, 0x2f, 0x31,
    ]
}

/// The 32-byte digest a byte string hashes to under the host chain's
/// block-hashing function.
pub uninterp spec fn blake2b_256_of(data: Seq<u8>) -> Seq<u8>;

/// Relies on `blake2::Blake2b` with 32-byte output: the digest has exactly
/// 32 bytes and depends on the input bytes alone.
#[verifier::external_body]
fn blake2b_256(data: &Vec<u8>) -> (r: Vec<u8>)
    ensures
        r@ == blake2b_256_of(data@),
        r@.len() == 32,
{
    let mut h = <blake2::Blake2b<blake2::digest::consts::U32> as blake2::Digest>::new();
    blake2::Digest::update(&mut h, data.as_slice());
    let out = blake2::Digest::finalize(h);
    out.to_vec()
}

/// The single fixed topic of all proof traffic: the block hash of the
/// well-known seed.  It is not per-epoch, per-round, or per-sender.
pub open spec fn topic_spec() -> Seq<u8> {
    blake2b_256_of(topic_seed())
}

/// Build the topic seed bytes.
fn topic_seed_bytes() -> (v: Vec<u8>)
    ensures
        v@ == topic_seed(),
{
    let mut v: Vec<u8> = Vec::new();
    v.push(0x53);
    v.push(0x41);
    v.push(0x53);
    v.push(0x53);
    v.push(0x41);
    v.push(0x46);
    v.push(0x52);
    v.push(0x41);
    v.push(0x53);
    v.push(0x2d);
    v.push(0x50);
    v.push(0x52);
    v.push(0x4f);
    v.push(0x4f);
    v.push(0x46);
    v.push(0x2d);
    v.push(0x47);
    v.push(0x4c);
    v.push(0x4f);
    v.push(0x42);
    v.push(0x41);
    v.push(0x4c);
    proof {
        assert(v@ =~= topic_seed());
    }
    v
}

/// The protocol name under which the relay binds itself to the transport.
pub fn protocol_name() -> (v: Vec<u8>)
    ensures
        v@ == protocol_name_spec(),
{
    let mut v: Vec<u8> = Vec::new();
    v.push(0x2f);
    v.push(0x70);
    v.push(0x61);
    v.push(0x72);
    v.push(0x69);
    v.push(0x74);
    v.push(0x79);
    v.push(0x74);
    v.push(0x65);
    v.push(0x63);
    v.push(0x68);
    v.push(0x2f);
    v.push(0x73);
    v.push(0x61);
    v.push(0x73);
    v.push(0x73);
    v.push(0x61);
    v.push(0x66);
    v.push(0x72);
    v.push(0x61);
    v.push(0x73);
    v.push(0x2f);
    v.push(0x31);
    proof {
        assert(v@ =~= protocol_name_spec());
    }
    v
}

/// Compute the fixed topic all proof traffic is routed under.
pub fn proof_topic() -> (t: Vec<u8>)
    ensures
        t@ == topic_spec(),
        t@.len() == 32,
{
    let seed = topic_seed_bytes();
    blake2b_256(&seed)
}

} // verus!
