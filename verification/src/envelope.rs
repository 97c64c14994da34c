//! The channel envelope: the outer `{topic, event, payload}` wrapper around
//! every inbound message, and the split of a present payload into a push
//! reply (an acknowledgement of something this client sent) or a custom
//! domain event.
//!
//! The reply shape is recognised first, structurally: an object with a
//! string `status` and a `response`.  Anything else is tried as a domain
//! event, and a message matching neither shape decodes to nothing — the
//! session drops it rather than dying.

use vstd::prelude::*;

use crate::json::{
    ascii_u8, get_field, json_copy, json_field, json_str, parse_doc, parse_json, Json, JsonV,
};
use crate::schema::{req_str_of, stream_event_of_json, StreamEvent, StreamEventV};

verus! {

broadcast use vstd::string::group_string_axioms;

/// The payload of a server-originated message.
#[derive(Debug)]
pub enum Payload {
    /// A reply to a message this client sent; consumed, never surfaced.
    PushReply { status: Vec<u8>, response: Json },
    /// An application event.
    Custom(StreamEvent),
}

/// The mathematical shape of [`Payload`].
pub enum PayloadV {
    PushReply { status: Seq<u8>, response: JsonV },
    Custom(StreamEventV),
}

impl DeepView for Payload {
    type V = PayloadV;

    open spec fn deep_view(&self) -> PayloadV {
        match self {
            Payload::PushReply { status, response } => PayloadV::PushReply {
                status: status@,
                response: response.deep_view(),
            },
            Payload::Custom(e) => PayloadV::Custom(e.deep_view()),
        }
    }
}

/// Whether `v` has the push-reply shape: a string `status` and a
/// `response`, whatever it holds.
pub open spec fn is_reply_shape(v: JsonV) -> bool {
    &&& req_str_of(v, ascii_u8("status"@)) is Some
    &&& get_field(v, ascii_u8("response"@)) is Some
}

/// The payload denoted by a present envelope payload: the reply shape is
/// tried first, then the domain event shape.
pub open spec fn push_payload_of_json(v: JsonV) -> Option<PayloadV> {
    if is_reply_shape(v) {
        Some(
            PayloadV::PushReply {
                status: req_str_of(v, ascii_u8("status"@))->Some_0,
                response: get_field(v, ascii_u8("response"@))->Some_0,
            },
        )
    } else {
        match stream_event_of_json(v) {
            Some(e) => Some(PayloadV::Custom(e)),
            None => None,
        }
    }
}

/// One inbound channel message, decoded to the protocol level.
#[derive(Debug)]
pub struct Envelope {
    pub topic: Vec<u8>,
    pub event_name: Vec<u8>,
    pub payload: Option<Payload>,
}

/// The mathematical shape of [`Envelope`].
pub struct EnvelopeV {
    pub topic: Seq<u8>,
    pub event_name: Seq<u8>,
    pub payload: Option<PayloadV>,
}

impl DeepView for Envelope {
    type V = EnvelopeV;

    open spec fn deep_view(&self) -> EnvelopeV {
        EnvelopeV {
            topic: self.topic@,
            event_name: self.event_name@,
            payload: self.payload.deep_view(),
        }
    }
}

/// The envelope denoted by a parsed message value: a string `topic`, a
/// string `event`, and an absent, `null` or decodable `payload`.
pub open spec fn envelope_of_json(v: JsonV) -> Option<EnvelopeV> {
    match req_str_of(v, ascii_u8("topic"@)) {
        Some(topic) => match req_str_of(v, ascii_u8("event"@)) {
            Some(event_name) => match get_field(v, ascii_u8("payload"@)) {
                None => Some(EnvelopeV { topic, event_name, payload: None }),
                Some(JsonV::Null) => Some(EnvelopeV { topic, event_name, payload: None }),
                Some(p) => match push_payload_of_json(p) {
                    Some(pp) => Some(EnvelopeV { topic, event_name, payload: Some(pp) }),
                    None => None,
                },
            },
            None => None,
        },
        None => None,
    }
}

/// The envelope denoted by raw message text.
pub open spec fn envelope_of_text(s: Seq<u8>) -> Option<EnvelopeV> {
    match parse_doc(s) {
        Some(v) => envelope_of_json(v),
        None => None,
    }
}

/// The domain event a raw message surfaces: only a well-formed envelope
/// whose payload is a custom domain event yields one.  A push reply, a
/// malformed message and an unrecognised event type all yield nothing.
pub open spec fn event_of_text(s: Seq<u8>) -> Option<StreamEventV> {
    match envelope_of_text(s) {
        Some(env) => match env.payload {
            Some(PayloadV::Custom(e)) => Some(e),
            _ => None,
        },
        None => None,
    }
}

/// A fresh copy of byte text.
fn own_bytes(s: &Vec<u8>) -> (r: Vec<u8>)
    ensures
        r@ == s@,
{
    let r = crate::json::slice_range_to_vec(s.as_slice(), 0, s.len());
    proof {
        assert(r@ =~= s@);
    }
    r
}

impl Envelope {
    /// Decodes one raw inbound message into its envelope; exactly the
    /// texts [`envelope_of_text`] accepts are taken.
    pub fn decode(bytes: &[u8]) -> (r: Option<Envelope>)
        ensures
            match r {
                Some(env) => envelope_of_text(bytes@) == Some(env.deep_view()),
                None => envelope_of_text(bytes@) is None,
            },
    {
        proof {
            reveal_strlit("topic");
            reveal_strlit("event");
            reveal_strlit("payload");
            reveal_strlit("status");
            reveal_strlit("response");
        }
        let v = match parse_json(bytes) {
            Some(v) => v,
            None => {
                return None;
            },
        };
        let topic = match json_field(&v, "topic") {
            Some(f) => match json_str(f) {
                Some(s) => own_bytes(s),
                None => {
                    return None;
                },
            },
            None => {
                return None;
            },
        };
        let event_name = match json_field(&v, "event") {
            Some(f) => match json_str(f) {
                Some(s) => own_bytes(s),
                None => {
                    return None;
                },
            },
            None => {
                return None;
            },
        };
        let payload = match json_field(&v, "payload") {
            None => None,
            Some(p) => match p {
                Json::Null => None,
                _ => {
                    let is_reply = match json_field(p, "status") {
                        Some(sf) => match json_str(sf) {
                            Some(_) => match json_field(p, "response") {
                                Some(_) => true,
                                None => false,
                            },
                            None => false,
                        },
                        None => false,
                    };
                    if is_reply {
                        let status = match json_field(p, "status") {
                            Some(sf) => match json_str(sf) {
                                Some(s) => own_bytes(s),
                                None => {
                                    return None;
                                },
                            },
                            None => {
                                return None;
                            },
                        };
                        let response = match json_field(p, "response") {
                            Some(rf) => json_copy(rf),
                            None => {
                                return None;
                            },
                        };
                        Some(Payload::PushReply { status, response })
                    } else {
                        match StreamEvent::decode(p) {
                            Some(e) => Some(Payload::Custom(e)),
                            None => {
                                return None;
                            },
                        }
                    }
                },
            },
        };
        let env = Envelope { topic, event_name, payload };
        proof {
            let k = v@;
            assert(envelope_of_json(k) is Some);
            assert(env.deep_view().topic == req_str_of(k, ascii_u8("topic"@))->Some_0);
            assert(env.deep_view().event_name == req_str_of(k, ascii_u8("event"@))->Some_0);
            assert(env.deep_view().payload == envelope_of_json(k)->Some_0.payload);
        }
        Some(env)
    }
}

/// Decodes one raw inbound message and surfaces its domain event, if it
/// carries one; exactly per [`event_of_text`], so a push reply is never
/// surfaced.
pub fn decode_message(bytes: &[u8]) -> (r: Option<StreamEvent>)
    ensures
        match r {
            Some(e) => event_of_text(bytes@) == Some(e.deep_view()),
            None => event_of_text(bytes@) is None,
        },
{
    match Envelope::decode(bytes) {
        Some(env) => match env.payload {
            Some(Payload::Custom(e)) => Some(e),
            _ => None,
        },
        None => None,
    }
}

/// A message whose payload has the push-reply shape decodes to the reply,
/// never to a domain event: nothing of it is surfaced.
pub proof fn lemma_reply_never_surfaced(s: Seq<u8>, v: JsonV, p: JsonV)
    requires
        parse_doc(s) == Some(v),
        envelope_of_json(v) is Some,
        get_field(v, ascii_u8("payload"@)) == Some(p),
        is_reply_shape(p),
    ensures
        envelope_of_text(s)->Some_0.payload matches Some(PayloadV::PushReply { .. }),
        event_of_text(s) is None,
{
}

} // verus!