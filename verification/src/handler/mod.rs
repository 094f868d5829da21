//! The popup: what keys do to it, what it shows, and what it owns on the screen.

pub mod accept;
pub mod config;
pub mod dispatch;
pub mod dynamic;
pub mod fingerprint;
pub mod keys;
pub mod lifecycle;
pub mod merge;
pub mod overlay;
pub mod quoting;
pub mod rank;
pub mod render;
pub mod screen;
pub mod site;
pub mod state;
pub mod trigger;

pub use keys::key_to_bytes;
pub use keys::parse_key_name;
pub use keys::KeyOutcome;
pub use keys::Keybindings;
pub use state::InputHandler;
pub use state::ShellKind;
pub use trigger::TriggerPrepared;
