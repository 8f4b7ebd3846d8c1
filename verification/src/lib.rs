//! The decisions of a Binance book-ticker relay, and of a race between spot endpoints.
//!
//! A relay keeps several WebSocket connections to the futures feed of one symbol. Each
//! connection has a reader ([`reader`]) and a processor ([`processor`]): the reader connects,
//! subscribes and receives, and hands over the latest frame; the processor decodes it
//! ([`payload`]), lets each update id through once ([`dedup`]), and has one UDP packet sent per
//! update ([`forward`], [`packet`]). A monitor ([`monitor`]) reports, and has the slowest
//! connection reconnect where it is too slow ([`latency`]).
//!
//! The race ([`race`], [`racer`]) finds out which spot endpoint delivers each update first.
//!
//! Sockets, tasks and files are the caller's: the library takes events in and says what to do.

pub mod clock;
pub mod config;
pub mod dedup;
pub mod endpoints;
pub mod forward;
pub mod json;
pub mod latency;
pub mod log;
pub mod median;
pub mod messages;
pub mod monitor;
pub mod packet;
pub mod payload;
pub mod processor;
pub mod race;
pub mod racer;
pub mod reader;
pub mod symbol;
pub mod text;
