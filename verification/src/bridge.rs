use vstd::prelude::*;

use crate::codec::decode_proof;
use crate::codec::decode_spec;
use crate::codec::encode_proof;
use crate::codec::encode_spec;
use crate::message::ProofMessage;
use crate::message::ProofMessageView;
use crate::topic::proof_topic;
use crate::topic::topic_spec;

verus! {

/// What the validator tells the transport to do with an incoming message.
#[derive(Clone, Debug, PartialEq, Eq)]
pub enum ValidationAction {
    /// Process the message and keep it for further propagation, filed under
    /// the given topic.
    ProcessAndKeep(Vec<u8>),
    /// Drop the message.
    Discard,
}

/// The permissive validator installed into the gossip transport.
///
/// It names the single fixed topic for every message and rejects none; all
/// real validation is deferred to the bridge's decode step.  It is stateless,
/// so the transport may call it from any context without synchronisation.
pub struct GossipValidator {
}

impl GossipValidator {
    /// Build the validator.
    pub fn new() -> Self {
        GossipValidator {}
    }

    /// Decide what the transport should do with an incoming message.
    ///
    /// Always "process and keep, on the fixed topic", for every sender and
    /// every buffer, the empty one included: no content inspection, no
    /// sender reputation, no deduplication.  It cannot reject.
    pub fn validate(&self, _data: &[u8]) -> (r: ValidationAction)
        ensures
            (match r {
                ValidationAction::ProcessAndKeep(t) => t@ == topic_spec(),
                ValidationAction::Discard => false,
            }),
    {
        ValidationAction::ProcessAndKeep(proof_topic())
    }
}

/// One publish the bridge asks the transport to perform.
#[derive(Clone, Debug, PartialEq, Eq)]
pub struct PublishCommand {
    /// The topic to publish under.
    pub topic: Vec<u8>,
    /// The canonical wire bytes of the message.
    pub data: Vec<u8>,
    /// Whether the transport must force a re-broadcast to all peers; the
    /// relay always publishes with this off.
    pub force_rebroadcast: bool,
}

/// Everything one cooperative scheduling step decided.
///
/// Within the step the inbound direction is drained first: `deliveries` is
/// settled before any element of `publishes`; across steps the two
/// directions are independent streams with no mutual ordering.
pub struct StepOutcome {
    /// Decoded inbound messages, in arrival order, for the local consumer.
    pub deliveries: Vec<ProofMessage>,
    /// Publishes to perform, in production order, one per outbound proof.
    pub publishes: Vec<PublishCommand>,
    /// Whether the bridge as a whole is finished; it mirrors what the
    /// transport's own progress step reported, since the bridge ends exactly
    /// when the transport does.
    pub done: bool,
}

/// The messages a batch of raw inbound notifications delivers: each
/// notification that decodes contributes its message, in arrival order; the
/// rest contribute nothing.
pub open spec fn delivered_of(raws: Seq<Seq<u8>>) -> Seq<ProofMessageView>
    decreases raws.len(),
{
    if raws.len() == 0 {
        Seq::<ProofMessageView>::empty()
    } else {
        delivered_of(raws.drop_last()) + (match decode_spec(raws.last()) {
            Some(m) => seq![m],
            None => Seq::<ProofMessageView>::empty(),
        })
    }
}

/// Appending one notification to a batch appends exactly its own
/// contribution to the deliveries.
proof fn lemma_delivered_of_push(s: Seq<Seq<u8>>, x: Seq<u8>)
    ensures
        delivered_of(s.push(x)) == delivered_of(s) + (match decode_spec(x) {
            Some(m) => seq![m],
            None => Seq::<ProofMessageView>::empty(),
        }),
{
    assert(s.push(x).drop_last() =~= s);
    assert(s.push(x).last() == x);
}

/// A notification that decodes to nothing delivers nothing: appending it to
/// any inbound batch leaves the batch's deliveries unchanged.
pub proof fn lemma_invalid_notification_delivers_nothing(raws: Seq<Seq<u8>>, b: Seq<u8>)
    requires
        decode_spec(b) is None,
    ensures
        delivered_of(raws.push(b)) == delivered_of(raws),
{
    lemma_delivered_of_push(raws, b);
    assert(delivered_of(raws) + Seq::<ProofMessageView>::empty() =~= delivered_of(raws));
}

/// Relay round trip: the bytes the bridge publishes for a proof, echoed back
/// by the transport as an inbound notification, are delivered to the local
/// consumer as exactly that proof.
pub proof fn lemma_relay_round_trip(raws: Seq<Seq<u8>>, m: ProofMessageView)
    requires
        m.wf(),
    ensures
        delivered_of(raws.push(encode_spec(m))) == delivered_of(raws).push(m),
{
    crate::codec::lemma_round_trip(m);
    lemma_delivered_of_push(raws, encode_spec(m));
    assert(delivered_of(raws) + seq![m] =~= delivered_of(raws).push(m));
}

/// Copy a byte vector.
fn copy_bytes(src: &Vec<u8>) -> (r: Vec<u8>)
    ensures
        r@ == src@,
{
    let mut out: Vec<u8> = Vec::new();
    let mut i: usize = 0;
    while i < src.len()
        invariant
            0 <= i <= src@.len(),
            out@ == src@.subrange(0, i as int),
        decreases src@.len() - i,
    {
        let byte = src[i];
        out.push(byte);
        i = i + 1;
        proof {
            assert(out@ =~= src@.subrange(0, i as int));
        }
    }
    proof {
        assert(src@.subrange(0, src@.len() as int) =~= src@);
    }
    out
}

/// The relay's verified core: the cached fixed topic, the validator it
/// registers, and the per-step decision logic that multiplexes the two
/// directions.
///
/// The transport handle and the two channel endpoints stay with the host
/// that drives the relay; this core holds only what its decisions need.
pub struct NetworkBridge {
    /// The validator registered with the transport binding.
    pub validator: GossipValidator,
    /// The fixed topic, computed once at construction and reused for the
    /// bridge's whole lifetime.
    pub topic: Vec<u8>,
}

impl NetworkBridge {
    /// Build the bridge: construct the validator and cache the fixed topic.
    pub fn new() -> (b: Self)
        ensures
            b.topic@ == topic_spec(),
            b.topic@.len() == 32,
    {
        let validator = GossipValidator::new();
        NetworkBridge { validator, topic: proof_topic() }
    }

    /// Decide what one inbound gossip notification yields: the decoded
    /// message for the local consumer, or nothing at all if the bytes are
    /// not a canonical encoding.  A failure never terminates the task.
    pub fn handle_inbound(&self, raw: &[u8]) -> (r: Option<ProofMessage>)
        ensures
            (match r {
                Some(m) => m@.wf() && decode_spec(raw@) == Some(m@),
                None => decode_spec(raw@) is None,
            }),
    {
        decode_proof(raw)
    }

    /// Turn one locally produced proof into the publish the transport must
    /// perform: canonical wire bytes, the fixed topic, re-propagation off.
    pub fn handle_outbound(&self, m: &ProofMessage) -> (c: PublishCommand)
        requires
            m@.wf(),
        ensures
            c.topic@ == self.topic@,
            c.data@ == encode_spec(m@),
            c.force_rebroadcast == false,
    {
        PublishCommand {
            topic: copy_bytes(&self.topic),
            data: encode_proof(m),
            force_rebroadcast: false,
        }
    }

    /// One cooperative scheduling step over the work that is already ready.
    ///
    /// `inbound` holds every currently available gossip notification for the
    /// topic, in arrival order; `outbound` every currently available locally
    /// produced proof, in production order; `transport_done` is what the
    /// transport's own progress step reported.  The step drains all of
    /// `inbound` first — each notification either decodes to a delivery or
    /// is discarded silently — then maps every outbound proof to exactly one
    /// publish on the fixed topic with re-propagation off, and finally
    /// mirrors the transport's completion as the bridge's own.
    pub fn poll_step(
        &self,
        inbound: &Vec<Vec<u8>>,
        outbound: &Vec<ProofMessage>,
        transport_done: bool,
    ) -> (out: StepOutcome)
        requires
            forall|i: int| 0 <= i < outbound@.len() ==> (#[trigger] outbound@[i])@.wf(),
        ensures
            out.deliveries@.map_values(|m: ProofMessage| m@) == delivered_of(
                inbound@.map_values(|v: Vec<u8>| v@),
            ),
            out.publishes@.len() == outbound@.len(),
            forall|i: int| 0 <= i < outbound@.len() ==> ((#[trigger] out.publishes@[i]).topic@
                == self.topic@ && out.publishes@[i].data@ == encode_spec(outbound@[i]@)
                && out.publishes@[i].force_rebroadcast == false),
            out.done == transport_done,
    {
        let ghost raws = inbound@.map_values(|v: Vec<u8>| v@);
        let mut deliveries: Vec<ProofMessage> = Vec::new();
        let mut i: usize = 0;
        while i < inbound.len()
            invariant
                0 <= i <= inbound@.len(),
                raws == inbound@.map_values(|v: Vec<u8>| v@),
                deliveries@.map_values(|m: ProofMessage| m@) == delivered_of(
                    raws.take(i as int),
                ),
            decreases inbound@.len() - i,
        {
            match decode_proof(inbound[i].as_slice()) {
                Some(m) => {
                    deliveries.push(m);
                },
                None => {},
            }
            i = i + 1;
            proof {
                assert(raws.take(i as int) =~= raws.take(i - 1).push(raws[i - 1]));
                lemma_delivered_of_push(raws.take(i - 1), raws[i - 1]);
                assert(raws[i - 1] == inbound@[i - 1]@);
                assert(deliveries@.map_values(|m: ProofMessage| m@) =~= delivered_of(
                    raws.take(i as int),
                ));
            }
        }
        proof {
            assert(raws.take(raws.len() as int) =~= raws);
        }
        let mut publishes: Vec<PublishCommand> = Vec::new();
        let mut j: usize = 0;
        while j < outbound.len()
            invariant
                0 <= j <= outbound@.len(),
                forall|k: int| 0 <= k < outbound@.len() ==> (#[trigger] outbound@[k])@.wf(),
                publishes@.len() == j,
                forall|k: int| 0 <= k < j ==> ((#[trigger] publishes@[k]).topic@ == self.topic@
                    && publishes@[k].data@ == encode_spec(outbound@[k]@)
                    && publishes@[k].force_rebroadcast == false),
            decreases outbound@.len() - j,
        {
            let cmd = self.handle_outbound(&outbound[j]);
            publishes.push(cmd);
            j = j + 1;
        }
        StepOutcome { deliveries, publishes, done: transport_done }
    }
}

} // verus!
