//! Event-routing core of an audio-reactive visual installation.
//!
//! Percussion trigger events and frequency-spectrum samples arrive as OSC
//! datagrams; this library decodes them, routes them to per-scene state
//! machines through a registry of trigger bindings, keeps a shared spectrum
//! snapshot, and applies hot-reloaded per-scene configuration. The host
//! process owns the sockets, threads, files and rendering around it.

pub mod manager;
pub mod osc;
pub mod params;
pub mod router;
pub mod scene;
pub mod sound;
pub mod spectrum;

pub use manager::{SceneBuilder, SceneInstance, SceneManager};
pub use params::ParamsData;
pub use sound::DirtSound;
pub use spectrum::Spectrum;
