//! An MQTT 3.1.1 client core for a memory-constrained handheld device.
//!
//! The crate covers the binary packet codec, the client protocol state
//! machine, the application event model parsed from JSON payloads, a
//! bounded circular event queue, and the view state of the two display
//! modes.  Transport (TCP), rendering and platform services are left to
//! the embedding application: the library consumes and produces plain
//! byte buffers and values.

pub mod chat_ui;
pub mod client;
pub mod events;
pub mod minimal;
pub mod packet;
pub mod remaining_length;
pub mod text;
pub mod ui;
pub mod wire;
