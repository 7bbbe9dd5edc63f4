//! The core of a proxy that stands between an osu! client and its server:
//! the codec of the Bancho packet stream, and the rules by which the proxy
//! rewrites the packets that pass through it.
//!
//! - [`bancho`] is the wire format: ULEB128 integers, strings, packets, and
//!   a body as a run of packets, each with what it looks like in bytes and a
//!   proof that decoding undoes encoding.
//! - [`rewrite`] decides what becomes of each packet of a body under the
//!   user's [`preferences`].
//! - [`routing`] decides what the proxy does with a request and its
//!   response, [`updater`] whether another build is on offer, and [`setup`]
//!   what is needed once at the start.
//! - [`buffer`] and [`text`] hold the calls into `bytebuffer` and into the
//!   standard library's string functions, with the contracts that the rest
//!   is verified against. [`leb128`] is the arithmetic of the integers.

pub mod bancho;
pub mod buffer;
pub mod error;
pub mod leb128;
pub mod preferences;
pub mod rewrite;
pub mod routing;
pub mod setup;
pub mod text;
pub mod updater;
