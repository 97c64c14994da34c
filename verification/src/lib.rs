//! Client-side core of a marketplace event feed delivered over a
//! Phoenix-style pub/sub channel protocol.
//!
//! The crate owns the full inbound pipeline: raw message text is parsed
//! into a JSON value ([`json`]), the channel envelope is recognised and
//! push replies are separated from application payloads ([`envelope`]), and
//! the application payload is decoded into one of eleven strongly typed
//! domain events ([`schema`]), using the field codecs of [`codec`] and the
//! network names of [`chain`].  The outbound side ([`protocol`]) renders
//! heartbeat and topic-join frames with their exact wire text, and
//! [`session`] is the state machine that ties both directions to a single
//! connection whose transport lives outside the crate.

pub mod chain;
pub mod codec;
pub mod envelope;
pub mod json;
pub mod protocol;
pub mod schema;
pub mod session;

use vstd::prelude::*;

verus! {

} // verus!
