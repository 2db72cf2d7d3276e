//! Verified core of a live video relay: an RTMP publisher comes in, its video is
//! re-encoded, and the result leaves over SRT while a browser dashboard watches.
//!
//! The decisions that the relay takes are here, as functions from plain values to
//! plain values with a contract. Sockets, the media framework, clocks and what rests
//! on floating point (smoothing, and judging loss and buffers) are left to the program
//! around the library.

pub mod text;
pub mod calendar;
pub mod buffer;
pub mod flv;
pub mod wsproto;
pub mod capture;
pub mod retention;
pub mod stats;
pub mod collector;
pub mod config;
pub mod adapt;
pub mod amf0;
pub mod chunks;
pub mod events;
pub mod pipeline;
pub mod encoder;
pub mod topology;
pub mod codec;
pub mod flatten;
pub mod bus;
pub mod preview;
pub mod ping;
pub mod web;
pub mod rtmp_session;
pub mod rtmp;
