//! Policy and envelope logic of the OpenHuman agent runtime.
pub mod agents;
pub mod ids;
pub mod json;
pub mod observability;
pub mod preflight;
pub mod rpc;
pub mod staging;
pub mod text;
pub mod tools;
pub mod workers;
