//! The decision logic of a TryCP server: port-range parsing, port
//! allocation, the registry of peer servers kept by a manager, and the
//! texts that the JSON-RPC methods answer with.

pub mod text;
pub mod port_range;
pub mod server_list;
pub mod request;
pub mod outside;
pub mod paths;
pub mod rpc;
pub mod server;
