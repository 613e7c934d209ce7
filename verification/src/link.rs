//! The state of one link between the two tunnel ends, which reconnects
//! whenever the far side goes away.

use vstd::prelude::*;

verus! {

/// Whether a link is usable. While it is not, reads and writes on it do no
/// I/O and report zero bytes, until a reconnection has completed.
pub struct LinkState {
    pub connected: bool,
}

impl LinkState {
    /// The state of a link that has just been established.
    pub fn new() -> (s: Self)
        ensures
            s.connected,
    {
        LinkState { connected: true }
    }

    /// Whether a read or write may go to the socket now.
    pub fn may_transfer(&self) -> (ok: bool)
        ensures
            ok == self.connected,
    {
        self.connected
    }

    /// Records the outcome of writing `requested` bytes of which `written`
    /// went out; a short write means that the far side is gone. Returns
    /// whether a reconnection must start.
    pub fn after_write(&mut self, requested: usize, written: usize) -> (reconnect: bool)
        ensures
            reconnect == (written != requested),
            final(self).connected == (old(self).connected && !reconnect),
    {
        let reconnect: bool = written != requested;
        if reconnect {
            self.connected = false;
        }
        reconnect
    }

    /// Records the outcome of a read that returned `read` bytes; an empty
    /// read means that the far side is gone. Returns whether a reconnection
    /// must start.
    pub fn after_read(&mut self, read: usize) -> (reconnect: bool)
        ensures
            reconnect == (read == 0),
            final(self).connected == (old(self).connected && !reconnect),
    {
        let reconnect: bool = read == 0;
        if reconnect {
            self.connected = false;
        }
        reconnect
    }

    /// Records that a new socket has replaced the lost one.
    pub fn reconnected(&mut self)
        ensures
            final(self).connected,
    {
        self.connected = true;
    }
}

} // verus!
