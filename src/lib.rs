//! Request classification and response framing for a minimal HTTP/1.1 server
//! that serves one page for the root request line and another for everything else.
pub mod request;
pub mod response;
pub mod laws;
