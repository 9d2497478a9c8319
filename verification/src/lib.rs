//! Verified core of a TCP connection-quality monitor: grading of kernel
//! metrics, the per-connection history, the sorted and filtered table of
//! connections, and the byte-level decoding of netlink `INET_DIAG` replies.

pub mod health;
pub mod text;
pub mod addr;
pub mod wire;
pub mod order;
pub mod state;
pub mod view;
pub mod laws;
pub mod conn;
