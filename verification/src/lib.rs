//! Decision core of a multi-board data-acquisition sampler.
//!
//! The crate holds the parts of the sampler that can be stated and proved:
//! the driver status taxonomy, the channel list that a board configuration
//! stands for, timestamp extraction, the multiplexer that fuses
//! per-board frames into unified records, and the stream lifecycle. Driver
//! calls, threads and queues live with the caller, which feeds these
//! functions plain values and carries out the actions they return.

pub mod boards;
pub mod config;
pub mod daq;
pub mod dataframe;
pub mod engine;
pub mod error;
pub mod lifecycle;
pub mod manager;
pub mod muxer;
pub mod results;
pub mod stream;

pub use config::Gain;
pub use error::DaqError;
pub use manager::SignalManager;
