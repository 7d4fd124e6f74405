//! Native backend core for the Hearth desktop chat client.
//!
//! The heart of the crate is the deep-link router: a verified parser that
//! turns `hearth://` URLs into structured payloads for in-app navigation.
//! Around it stand the plain data types that the desktop shell produces
//! (activity, idle, audio, power, screenshot, file and update records) and
//! the explicit tray state that replaces process-wide flags.

pub mod activity;
pub mod audio;
pub mod deeplink;
pub mod files;
pub mod params;
pub mod power;
pub mod screenshot;
pub mod text;
pub mod tray;
pub mod updater;

pub use deeplink::parse_deep_link;
pub use deeplink::DeepLinkPayload;
pub use params::ParamMap;
pub use tray::TrayState;
