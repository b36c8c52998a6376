//! A vestigial index cycler kept beside the strategies: it hands out
//! registry positions in turn, without reading any request data.

use vstd::prelude::*;

verus! {

/// Cycles through `len` registry positions.
pub struct SourceIpHash {
    pub current_server: usize,
    pub len: usize,
}

impl SourceIpHash {
    /// Hands out the current position and steps to the next one.
    pub fn server(&mut self) -> (r: usize)
        requires
            old(self).len > 0,
            old(self).current_server < old(self).len,
        ensures
            r == old(self).current_server,
            final(self).len == old(self).len,
            final(self).current_server == (old(self).current_server + 1) % (old(self).len as int),
    {
        let i = self.current_server;
        self.current_server = (self.current_server + 1) % self.len;
        i
    }
}

} // verus!
