//! What a Music Assistant companion decides, apart from how it talks to the
//! audio system, to Discord and to the network.
//!
//! * [`formats`]: the PCM formats that are offered for a device.
//! * [`devices`]: listing output devices and choosing one.
//! * [`volume`]: system volume control and the watcher for its changes.
//! * [`now_playing`]: what is playing, and who is told of it.
//! * [`discord_rpc`]: what Discord is told about what is playing.
//! * [`mdns_discovery`]: finding servers on the local network.
//! * [`protocol`]: messages to and from a Sendspin server.
//! * [`address`], [`text`], [`order`]: addresses, texts and ordered sequences.
use vstd::prelude::*;

pub mod address;
pub mod devices;
pub mod discord_rpc;
pub mod formats;
pub mod mdns_discovery;
pub mod now_playing;
pub mod order;
pub mod protocol;
pub mod text;
pub mod volume;
