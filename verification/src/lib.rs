pub mod headers;
pub mod json;
pub mod math;
pub mod rpc;
pub mod state;
pub mod ws;
