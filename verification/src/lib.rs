//! The packet filter of a user-space network for virtual machines.
//!
//! Every frame that travels between a virtual machine and its host passes
//! through this library, which decides whether it may go on. The modules here
//! hold the decisions: what a packet is, what a lease permits, what the rules
//! say, which flows are known, and how the control socket's requests change the
//! rules. Reading and writing sockets is left to the program around it.

pub mod addr;
pub mod cli;
pub mod clock;
pub mod descriptor;
pub mod dhcp;
pub mod dhcp_options;
pub mod dhcp_snooper;
pub mod dhcp_snooper_global;
pub mod host;
pub mod laws;
pub mod net;
pub mod poller;
pub mod proxy;
pub mod text;
pub mod wire;

pub use crate::host::NetType;
