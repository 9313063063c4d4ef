//! Peer discovery and single-slot remote-access brokering for compute nodes
//! on a shared overlay network.
//!
//! The crate has two halves. The discovery half keeps an advertisement record
//! for the local node, encodes it into self-describing datagram payloads, and
//! maintains a table of peers heard from on the network, evicting entries that
//! have gone stale. The broker half grants exactly one remote operator a
//! time-boxed ephemeral account per node, going through a privileged account
//! gateway for the actual host-account work.

use vstd::prelude::*;

pub mod advert;
pub mod broker;
pub mod client_state;
pub mod codec;
pub mod discovery;
pub mod gateway;
pub mod netaddr;
pub mod rental_state;

verus! {

/// Staleness window: a peer entry older than this many seconds is discarded
/// on receipt and evicted by the janitor.
pub const NODE_TIMEOUT_SECS: u64 = 120;

/// Period of the advertiser loop, in seconds.
pub const ADVERTISEMENT_INTERVAL_SECS: u64 = 30;

/// Fixed UDP port the discovery protocol runs on.
pub const DISCOVERY_PORT: u16 = 9999;

} // verus!
