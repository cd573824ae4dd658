//! Which UDP datagrams belong to the name service and to DHCP.

use crate::wire::UdpPacket;
use vstd::prelude::*;

verus! {

pub const DNS_PORT: u16 = 53;

pub const BOOTPS_PORT: u16 = 67;

pub const BOOTPC_PORT: u16 = 68;

/// The ports of a DHCP request: from client to server.
pub open spec fn request_ports(src_port: u16, dst_port: u16) -> bool {
    src_port == BOOTPC_PORT && dst_port == BOOTPS_PORT
}

/// The ports of a DHCP reply: from server to client.
pub open spec fn response_ports(src_port: u16, dst_port: u16) -> bool {
    src_port == BOOTPS_PORT && dst_port == BOOTPC_PORT
}

impl<'a> UdpPacket<'a> {
    pub fn is_dns_request(&self) -> (r: bool)
        ensures
            r == (self.dst_port == DNS_PORT),
    {
        self.dst_port == DNS_PORT
    }

    pub fn is_dhcp_request(&self) -> (r: bool)
        ensures
            r == request_ports(self.src_port, self.dst_port),
    {
        self.src_port == BOOTPC_PORT && self.dst_port == BOOTPS_PORT
    }

    pub fn is_dhcp_response(&self) -> (r: bool)
        ensures
            r == response_ports(self.src_port, self.dst_port),
    {
        self.src_port == BOOTPS_PORT && self.dst_port == BOOTPC_PORT
    }
}

} // verus!
