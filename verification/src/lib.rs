//! A controller library for Sonos speakers on the local network: SSDP discovery, UPnP/SOAP
//! transport and rendering control, ContentDirectory browsing, and the Sonos music-service
//! API (SMAPI). The library builds every request and reads every answer; sending them over
//! the network is the caller's.
use vstd::prelude::*;

pub mod text;
pub mod bytes;
pub mod sort;
pub mod xml;
pub mod json;
pub mod urls;
pub mod regexes;
pub mod soap;
pub mod ssdp;
pub mod upnp;
pub mod music_services;

pub use ssdp::SonosDevice;

verus! {

/// The state the controller keeps between commands.
pub struct AppState {
    pub selected_device: Option<String>,
}

impl Default for AppState {
    fn default() -> (res: Self)
        ensures
            res.selected_device is None,
    {
        AppState { selected_device: None }
    }
}

} // verus!
