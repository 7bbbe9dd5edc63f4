//! The Bancho wire format: its integers and strings, its packets, and a
//! body as a run of packets.

pub mod action;
pub mod country;
pub mod packet;
pub mod reader;
pub mod round_trip;
pub mod stream;
pub mod wire;
pub mod writer;

pub use action::UserAction;
pub use country::Country;
pub use packet::BanchoPacket;
pub use packet::BanchoPacketHeader;
pub use stream::decode_bancho_packets;
pub use stream::encode_bancho_packets;
pub use wire::OsuMessage;
pub use reader::OsuReader;
pub use writer::OsuWriter;
