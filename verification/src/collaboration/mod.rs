//! The collaboration core: operational transform, registries and routing.
pub mod clock;
pub mod encoding;
pub mod error;
pub mod handler;
pub mod laws;
pub mod message;
pub mod ot;
pub mod ot_handler;
pub mod session;
pub mod state;
