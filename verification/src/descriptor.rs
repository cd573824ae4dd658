//! Which file descriptors can be used for what.

use crate::text::{push_signed, signed_decimal};
use vstd::prelude::*;

verus! {

/// What a descriptor is for.
#[derive(Clone, Copy, Debug, PartialEq, Eq, Structural)]
pub enum Role {
    /// To exchange frames with the virtual machine, over a Unix datagram socket.
    Vm,
    /// To be told the policy, over a connected Unix stream socket.
    Control,
}

/// The numbers that stand for kinds of sockets on this system.
#[derive(Clone, Copy, Debug, PartialEq, Eq, Structural)]
pub struct SocketNumbers {
    pub datagram: i32,
    pub stream: i32,
    pub unix_family: i32,
}

/// The address that a socket is bound to.
#[derive(Clone, Copy, Debug, PartialEq, Eq, Structural)]
pub struct SocketAddress {
    pub len: u32,
    pub family: i32,
}

/// What the system says about a descriptor. Nothing is said where a question failed.
#[derive(Clone, Copy, Debug, PartialEq, Eq, Structural)]
pub struct Probe {
    /// The descriptor is open.
    pub open: bool,
    pub socket_type: Option<i32>,
    pub address: Option<SocketAddress>,
    /// The socket is connected.
    pub connected: bool,
}

/// Why a descriptor cannot be used.
#[derive(Clone, Copy, Debug, PartialEq, Eq, Structural)]
pub enum DescriptorError {
    Negative,
    NotDuplicated,
    NotOpen,
    NotASocket,
    WrongType,
    NoAddress,
    NotUnix,
    NotConnected,
}

/// The first thing that keeps an open descriptor from being used. The descriptor of the virtual
/// machine must be a datagram socket. That of the control socket must be a connected stream
/// socket; one without a name may report an address of no length.
pub open spec fn flaw(role: Role, numbers: SocketNumbers, probe: Probe) -> Option<DescriptorError> {
    let wanted = match role {
        Role::Vm => numbers.datagram,
        Role::Control => numbers.stream,
    };
    if role is Vm && !probe.open {
        Some(DescriptorError::NotOpen)
    } else if probe.socket_type is None {
        Some(DescriptorError::NotASocket)
    } else if probe.socket_type != Some(wanted) {
        Some(DescriptorError::WrongType)
    } else if probe.address is None {
        Some(DescriptorError::NoAddress)
    } else if probe.address->0.family != numbers.unix_family && !(role is Control
        && probe.address->0.len == 0) {
        Some(DescriptorError::NotUnix)
    } else if role is Control && !probe.connected {
        Some(DescriptorError::NotConnected)
    } else {
        None
    }
}

/// Looks for what keeps the descriptor of the virtual machine from being used.
pub fn validate_vm_fd(numbers: SocketNumbers, probe: Probe) -> (r: Result<(), DescriptorError>)
    ensures
        match r {
            Ok(_) => flaw(Role::Vm, numbers, probe) is None,
            Err(e) => flaw(Role::Vm, numbers, probe) == Some(e),
        },
{
    if !probe.open {
        return Err(DescriptorError::NotOpen);
    }
    let socket_type: i32 = match probe.socket_type {
        Some(socket_type) => socket_type,
        None => {
            return Err(DescriptorError::NotASocket);
        },
    };
    if socket_type != numbers.datagram {
        return Err(DescriptorError::WrongType);
    }
    match probe.address {
        None => Err(DescriptorError::NoAddress),
        Some(address) => if address.family != numbers.unix_family {
            Err(DescriptorError::NotUnix)
        } else {
            Ok(())
        },
    }
}

/// Looks for what keeps the descriptor of the control socket from being used.
pub fn validate_control_fd(numbers: SocketNumbers, probe: Probe) -> (r: Result<(), DescriptorError>)
    ensures
        match r {
            Ok(_) => flaw(Role::Control, numbers, probe) is None,
            Err(e) => flaw(Role::Control, numbers, probe) == Some(e),
        },
{
    let socket_type: i32 = match probe.socket_type {
        Some(socket_type) => socket_type,
        None => {
            return Err(DescriptorError::NotASocket);
        },
    };
    if socket_type != numbers.stream {
        return Err(DescriptorError::WrongType);
    }
    match probe.address {
        None => {
            return Err(DescriptorError::NoAddress);
        },
        Some(address) => {
            // An unnamed socket, such as one of a pair, may have an address of no length.
            if address.len != 0 && address.family != numbers.unix_family {
                return Err(DescriptorError::NotUnix);
            }
        },
    }
    if !probe.connected {
        return Err(DescriptorError::NotConnected);
    }
    Ok(())
}

/// A number that can stand for a descriptor.
pub fn check_fd(fd: i32) -> (r: Result<(), DescriptorError>)
    ensures
        r == if fd < 0 {
            Err::<(), DescriptorError>(DescriptorError::Negative)
        } else {
            Ok(())
        },
{
    if fd < 0 {
        Err(DescriptorError::Negative)
    } else {
        Ok(())
    }
}

pub open spec fn role_text(role: Role) -> Seq<char> {
    match role {
        Role::Vm => "VM file descriptor "@,
        Role::Control => "control file descriptor "@,
    }
}

/// What stands before the name of a descriptor in the description of an error.
pub open spec fn error_head(e: DescriptorError) -> Seq<char> {
    match e {
        DescriptorError::Negative => "invalid "@,
        DescriptorError::NotDuplicated => "failed to duplicate "@,
        DescriptorError::NotOpen => "failed to inspect "@,
        DescriptorError::NoAddress => "failed to inspect the address family of "@,
        _ => ""@,
    }
}

/// What stands behind the number of a descriptor in the description of an error.
pub open spec fn error_tail(role: Role, e: DescriptorError) -> Seq<char> {
    match e {
        DescriptorError::Negative => ": value must be non-negative"@,
        DescriptorError::NotASocket => " is not a socket"@,
        DescriptorError::WrongType => match role {
            Role::Vm => " is not a Unix datagram socket"@,
            Role::Control => " is not a Unix stream socket"@,
        },
        DescriptorError::NotUnix => " is not a Unix socket"@,
        DescriptorError::NotConnected => " is not a connected Unix stream socket"@,
        _ => ""@,
    }
}

/// The description of an error.
pub open spec fn error_text(role: Role, fd: i32, e: DescriptorError) -> Seq<char> {
    error_head(e) + role_text(role) + signed_decimal(fd as int) + error_tail(role, e)
}

impl DescriptorError {
    /// The error as text.
    pub fn message(&self, role: Role, fd: i32) -> (r: String)
        ensures
            r@ == error_text(role, fd, *self),
    {
        let mut text = String::from_str(
            match self {
                DescriptorError::Negative => "invalid ",
                DescriptorError::NotDuplicated => "failed to duplicate ",
                DescriptorError::NotOpen => "failed to inspect ",
                DescriptorError::NoAddress => "failed to inspect the address family of ",
                _ => "",
            },
        );
        text.append(
            match role {
                Role::Vm => "VM file descriptor ",
                Role::Control => "control file descriptor ",
            },
        );
        push_signed(&mut text, fd);
        text.append(
            match self {
                DescriptorError::Negative => ": value must be non-negative",
                DescriptorError::NotASocket => " is not a socket",
                DescriptorError::WrongType => match role {
                    Role::Vm => " is not a Unix datagram socket",
                    Role::Control => " is not a Unix stream socket",
                },
                DescriptorError::NotUnix => " is not a Unix socket",
                DescriptorError::NotConnected => " is not a connected Unix stream socket",
                _ => "",
            },
        );
        text
    }
}

} // verus!
