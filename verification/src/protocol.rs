//! The channel protocol around the domain events: subscribable topics, the
//! two fixed endpoints, the protocol-level event kinds, and the outbound
//! frames with their exact wire text.

use vstd::prelude::*;

verus! {

broadcast use vstd::string::group_string_axioms;

/// A collection whose events can be subscribed to.
#[derive(Debug, Clone)]
pub enum Collection {
    /// One collection, by slug.
    Collection(String),
    /// Every collection.
    All,
}

/// The topic a collection subscribes as: a specific slug subscribes as
/// `collection:<slug>`, the wildcard as `collection:*`.
pub open spec fn topic_of(c: Collection) -> Seq<char> {
    "collection:"@ + match c {
        Collection::Collection(s) => s@,
        Collection::All => "*"@,
    }
}

impl Collection {
    /// The topic text this collection subscribes as.
    pub fn topic_text(&self) -> (r: String)
        ensures
            r@ == topic_of(*self),
    {
        let mut out = String::from_str("collection:");
        match self {
            Collection::Collection(s) => {
                out.append(s.as_str());
            },
            Collection::All => {
                out.append("*");
            },
        }
        out
    }
}

/// The endpoint to connect to: the production feed or the test networks'
/// feed.
#[derive(PartialEq, Eq, Structural, Clone, Copy, Debug)]
pub enum Network {
    Mainnet,
    Testnet,
}

impl Network {
    /// The endpoint text of this network.
    pub fn url_text(&self) -> (r: String)
        ensures
            r@ == (match *self {
                Network::Mainnet => "wss://stream.openseabeta.com/socket/websocket"@,
                Network::Testnet => "wss://testnets-stream.openseabeta.com/socket/websocket"@,
            }),
{
        match self {
            Network::Mainnet => String::from_str("wss://stream.openseabeta.com/socket/websocket"),
            Network::Testnet => String::from_str(
                "wss://testnets-stream.openseabeta.com/socket/websocket",
            ),
        }
    }
}

/// The protocol-level kind of a received event, one per payload shape.
#[derive(PartialEq, Eq, Structural, Clone, Copy, Debug, Hash)]
pub enum Event {
    ItemListed,
    ItemSold,
    ItemTransferred,
    ItemMetadataUpdated,
    ItemCancelled,
    ItemReceivedOffer,
    ItemReceivedBid,
    CollectionOffer,
    TraitOffer,
    OrderInvalidate,
    OrderRevalidate,
}

/// An outbound protocol frame: the periodic liveness heartbeat, or a
/// topic-join request.
#[derive(Debug, Clone)]
pub enum PhoenixMessage {
    Heartbeat,
    Subscribe(Collection),
}

/// The exact wire text of the heartbeat frame.
pub open spec fn heartbeat_frame_text() -> Seq<char> {
    "{\"topic\": \"phoenix\", \"event\": \"heartbeat\", \"payload\": {}, \"ref\": 0}"@
}

/// The exact wire text of a topic-join frame.
pub open spec fn join_frame_text(c: Collection) -> Seq<char> {
    "{\"topic\": \""@ + topic_of(c) + "\", \"event\": \"phx_join\", \"payload\": {}, \"ref\": 0}"@
}

/// The exact wire text of a frame.
pub open spec fn frame_text_of(m: PhoenixMessage) -> Seq<char> {
    match m {
        PhoenixMessage::Heartbeat => heartbeat_frame_text(),
        PhoenixMessage::Subscribe(c) => join_frame_text(c),
    }
}

impl PhoenixMessage {
    /// Serialises the frame to the text that goes on the wire.
    pub fn frame_text(&self) -> (r: String)
        ensures
            r@ == frame_text_of(*self),
    {
        match self {
            PhoenixMessage::Heartbeat => String::from_str(
                "{\"topic\": \"phoenix\", \"event\": \"heartbeat\", \"payload\": {}, \"ref\": 0}",
            ),
            PhoenixMessage::Subscribe(c) => {
                let mut out = String::from_str("{\"topic\": \"");
                let topic = c.topic_text();
                out.append(topic.as_str());
                out.append("\", \"event\": \"phx_join\", \"payload\": {}, \"ref\": 0}");
                out
            },
        }
    }
}

} // verus!
