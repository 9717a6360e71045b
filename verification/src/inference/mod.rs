//! Talking to inference engines: what is sent for a decision, how the reply is checked, and how
//! engines are found, certified and scheduled. Processes, files and the network stay outside.

pub mod contract;
pub mod wire;
pub mod parse;
pub mod wire_laws;
pub mod request;
pub mod request_laws;
pub mod recommend;
pub mod recommend_laws;
pub mod response;
pub mod response_laws;
pub mod session;
pub mod remote;
pub mod driver;
pub mod session_laws;
pub mod event_laws;
pub mod registry;
