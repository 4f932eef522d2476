//! Content distribution for a peer-to-peer tabletop: a content-addressed
//! store, a load coordinator, a single-slot chunked transfer manager and the
//! command relay that carries its traffic between peers.
//!
//! The library holds no clock, no socket and no disk. Each function takes
//! the state it works on and the events that came, and gives back the state
//! that follows and the events to send; what surrounds it performs them.
//!
//! - [`bank`]: the store, blobs keyed by generated identifiers.
//! - [`fileload`]: requests for content, answered from the store or queued.
//! - [`filetransfer`]: the download and the upload slot, sections, locks.
//! - [`rounds`]: that a transfer served with the bytes of the source ends
//!   with the source.
//! - [`networking`]: peers, channels, and orders as bytes.
//! - [`orders`]: the vocabulary of commands and their dispatch.
//! - [`files`]: the registries of maps, tokens and encounters.
//! - [`encounters`], [`maps`], [`tokens`], [`dd2vtt`], [`input`], [`ui`]:
//!   what of the table itself is plain data.

pub mod bank;
pub mod dd2vtt;
pub mod encounters;
pub mod fileload;
pub mod files;
pub mod filetransfer;
pub mod input;
pub mod maps;
pub mod networking;
pub mod orders;
pub mod rounds;
pub mod sequences;
pub mod tokens;
pub mod ui;
