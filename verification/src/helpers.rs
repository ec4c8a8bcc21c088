//! What a client makes of the responses it receives.

pub mod memweb;
pub mod tcpmem;
