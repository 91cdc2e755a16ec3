//! Backend dispatch for a language-model inference front-end: device
//! selection, backend resolution, sampling and logging settings, and the
//! ordering of a run's lifecycle stages.
pub mod backend;
pub mod context;
pub mod device;
pub mod driver;
pub mod error;
pub mod log_level;
pub mod sampling;
pub mod text;
