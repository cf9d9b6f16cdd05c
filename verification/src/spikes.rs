//! The experiments that shaped the library, each a small command line with
//! its own types and the functions that fill them.
pub mod t002;
pub mod spike_t003;
pub mod t004;
pub mod t005;
pub mod spike_t004;
pub mod spike_t006;
pub mod spike_t007;
pub mod spike_t009;
pub mod spike_t010;
pub mod spike_t011;
pub mod spike_t014;
