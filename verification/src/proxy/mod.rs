//! The filter between a virtual machine and its host.

pub mod conntrack;
pub mod conntrack_tcp;
pub mod conntrack_udp;
pub mod control;
pub mod flow_map;
pub mod flows;
pub mod host;
pub mod laws;
pub mod policy;
pub mod rpc;
pub mod rule;
pub mod rules;
pub mod session;
pub mod state;
pub mod stream;
pub mod udp_packet_helper;
pub mod vm;

pub use self::rule::{Direction, Rule, Target};
pub use self::state::Proxy;
