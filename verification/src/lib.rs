//! A type description language and a call protocol for exchanging structured
//! values between a host process and a sandboxed guest module that share only
//! a linear memory and integer registers.
pub mod call;
pub mod casing;
pub mod errors;
pub mod exchange;
pub mod functions;
pub mod mem;
pub mod pending;
pub mod primitives;
pub mod serializable;
pub mod serve;
mod strings;
pub mod types;
pub mod validate;
