pub mod json;
pub mod projection;
pub mod positions;
pub mod ordering;
pub mod config;
pub mod invocation;
pub mod mutation;
pub mod connector;
