//! The local HTTP interface of the agent: what a response looks like, how
//! a request is read, and which command a request stands for.

pub mod cmd;
pub mod events;
pub mod headers;
pub mod request;
pub mod response;
pub mod router;
