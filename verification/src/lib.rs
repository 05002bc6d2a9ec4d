//! Bounded inline data export and recoverable multi-participant retention
//! coordination: the request, configuration and decision logic of the
//! data-governance coordinator, with its contracts.

pub mod text;
pub mod contract;
pub mod config;
pub mod fault;
pub mod export;
pub mod plugin;
pub mod retention;
