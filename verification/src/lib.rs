//! Client-side building blocks for the Valve game-server query protocol
//! family: packet framing and reassembly, the A2S record codecs, the
//! request builders, and the master-server pagination logic.
//!
//! The library itself never touches a socket: it turns request parameters
//! into datagram bytes and datagram bytes into typed records, and leaves
//! `send`/`recv` to the caller that owns the transport.

pub mod cursor;
pub mod error;
pub mod a2s;
pub mod master;
pub mod packet;
pub mod types;

pub use a2s::Info;
pub use error::{Error, MultiHeader};
pub use master::{Addr, Filter, Region, Reply, ServerQuery};
pub use packet::{
    GoldsrcParser, MultiPacket, QueryDecoder, SourceParser, SplitVariant, DEFAULT_PACKET_SIZE,
};
pub use types::{
    ExtraData, InfoNew, InfoOld, ModData, Player, PlayersList, Rule, RulesList,
};
