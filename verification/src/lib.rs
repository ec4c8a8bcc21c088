//! Wire protocol, session logic and adapter rules of a remote process-memory service.

pub mod compression;
pub mod helpers;
pub mod memory;
pub mod process;
pub mod protocol;
pub mod session;
pub mod text;
pub mod wire;
