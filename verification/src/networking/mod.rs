pub mod framing;
pub mod session;
