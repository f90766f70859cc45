//! A transparent TCP relay: the listen-target grammar, the per-connection
//! lifecycle and the half-close-correct byte relay, as verified decision
//! functions driven by an I/O runtime.
pub mod addr;
pub mod listen;
pub mod relay;
pub mod handler;
