//! Driver engine for a pressure-sensitive pen tablet: report decoding,
//! debounced button state, coordinate mapping, binding dispatch, the
//! connection state machine, the shared configuration store, and the
//! control-plane command handler, together with the JSON codec for the
//! configuration file and the control protocol.
pub mod actions;
pub mod area;
pub mod codec;
pub mod command;
pub mod config;
pub mod config_codec;
pub mod data;
pub mod device;
pub mod handler;
pub mod json;
pub mod keys;
pub mod lits;
pub mod mapper;
pub mod state;
pub mod store;
pub mod story;
