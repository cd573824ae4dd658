//! What the poller's events mean, and what follows from them.

use vstd::prelude::*;

verus! {

pub const KEY_VM: usize = 0;

pub const KEY_HOST: usize = 1;

pub const KEY_CONTROL: usize = 2;

pub const KEY_INTERRUPT: usize = 3;

/// The packets after which reading from the virtual machine gives way to the control socket.
pub const PACKETS_PER_TURN: u32 = 128;

/// What is ready.
#[derive(Clone, Copy, Debug, PartialEq, Eq, Structural)]
pub struct Readiness {
    pub vm_readable: bool,
    pub host_readable: bool,
    pub control_ready: bool,
    pub interrupt: bool,
}

fn has_key(keys: &Vec<usize>, key: usize) -> (r: bool)
    ensures
        r == keys@.contains(key),
{
    let mut i: usize = 0;
    while i < keys.len()
        invariant
            i <= keys.len(),
            forall|j: int| 0 <= j < i ==> keys@[j] != key,
        decreases keys.len() - i,
    {
        if keys[i] == key {
            assert(keys@[i as int] == key);
            return true;
        }
        i = i + 1;
    }
    false
}

impl Readiness {
    /// What is ready, given the keys of the events that have occurred.
    pub fn from_keys(keys: &Vec<usize>) -> (r: Readiness)
        ensures
            r == (Readiness {
                vm_readable: keys@.contains(KEY_VM),
                host_readable: keys@.contains(KEY_HOST),
                control_ready: keys@.contains(KEY_CONTROL),
                interrupt: keys@.contains(KEY_INTERRUPT),
            }),
    {
        Readiness {
            vm_readable: has_key(keys, KEY_VM),
            host_readable: has_key(keys, KEY_HOST),
            control_ready: has_key(keys, KEY_CONTROL),
            interrupt: has_key(keys, KEY_INTERRUPT),
        }
    }

    /// Neither side has sent anything, and no interrupt has come: there is time for upkeep.
    pub fn is_timeout(&self) -> (r: bool)
        ensures
            r == (!self.vm_readable && !self.host_readable && !self.interrupt),
    {
        !self.vm_readable && !self.host_readable && !self.interrupt
    }
}

/// Counts packets between two looks at the control socket.
#[derive(Clone, Copy, Debug, PartialEq, Eq, Structural)]
pub struct PacketTurn {
    pub packets_read: u32,
}

impl PacketTurn {
    pub open spec fn wf(&self) -> bool {
        self.packets_read < PACKETS_PER_TURN
    }

    pub fn new() -> (r: PacketTurn)
        ensures
            r.wf(),
            r.packets_read == 0,
    {
        PacketTurn { packets_read: 0 }
    }

    /// Counts a packet, and says whether the control socket has its turn.
    pub fn count(&mut self) -> (r: bool)
        requires
            old(self).wf(),
        ensures
            final(self).wf(),
            r == (old(self).packets_read + 1 == PACKETS_PER_TURN),
            final(self).packets_read == if r {
                0
            } else {
                old(self).packets_read + 1
            },
    {
        self.packets_read = self.packets_read + 1;
        if self.packets_read == PACKETS_PER_TURN {
            self.packets_read = 0;
            true
        } else {
            false
        }
    }
}

} // verus!
