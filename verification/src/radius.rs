//! RADIUS (RFC 2865) packets, attribute numbers and the server's replies.
pub mod attributes;
pub mod packet;
pub mod server;
