//! Shared application state that is plain bookkeeping: which clipboard
//! write the vault made last, and how many protocol requests are served.
use vstd::prelude::*;

verus! {

/// The clipboard write the vault made last: its generation and the digest
/// of what it wrote.
pub struct ClipboardTracker {
    next_generation: u64,
    last_write: Option<(u64, [u8; 32])>,
}

impl ClipboardTracker {
    /// The generation last handed out.
    pub closed spec fn generation(&self) -> u64 {
        self.next_generation
    }

    /// The recorded write, if any: generation and digest.
    pub closed spec fn last_write(&self) -> Option<(u64, Seq<u8>)> {
        match self.last_write {
            Some((g, d)) => Some((g, d@)),
            None => None,
        }
    }

    /// A tracker that has seen no write.
    pub fn new() -> (result: Self)
        ensures
            result.generation() == 0,
            result.last_write() is None,
    {
        ClipboardTracker { next_generation: 0, last_write: None }
    }

    /// Records a clipboard write with the given digest and gives its new
    /// generation, the previous one plus one (wrapping).
    pub fn track(&mut self, digest: [u8; 32]) -> (result: u64)
        ensures
            result == (if old(self).generation() == u64::MAX {
                0
            } else {
                (old(self).generation() + 1) as u64
            }),
            final(self).generation() == result,
            final(self).last_write() == Some((result, digest@)),
    {
        let generation = self.next_generation.wrapping_add(1);
        self.next_generation = generation;
        self.last_write = Some((generation, digest));
        generation
    }

    /// The recorded write, if any.
    pub fn current(&self) -> (result: Option<(u64, [u8; 32])>)
        ensures
            match result {
                Some((g, d)) => self.last_write() == Some((g, d@)),
                None => self.last_write() is None,
            },
    {
        self.last_write
    }

    /// Whether `generation` is the recorded write.
    pub fn is_current(&self, generation: u64) -> (result: bool)
        ensures
            result == (self.last_write() matches Some((g, _)) && g == generation),
    {
        match self.last_write {
            Some((g, _)) => g == generation,
            None => false,
        }
    }

    /// Forgets the recorded write if it has this generation; a later write
    /// stays recorded.
    pub fn clear_if_generation(&mut self, generation: u64)
        ensures
            final(self).generation() == old(self).generation(),
            (old(self).last_write() matches Some((g, _)) && g == generation) ==> final(self).last_write() is None,
            !(old(self).last_write() matches Some((g, _)) && g == generation) ==> final(self).last_write()
                == old(self).last_write(),
    {
        let matches = match self.last_write {
            Some((g, _)) => g == generation,
            None => false,
        };
        if matches {
            self.last_write = None;
        }
    }
}

/// A token for one protocol request in service.
pub struct ProtocolPermit {
    pub slot: usize,
}

/// Counts the protocol requests in service against a limit.
pub struct ProtocolPermits {
    pub active: usize,
    pub limit: usize,
}

impl ProtocolPermits {
    /// No request in service, at most `limit` at once.
    pub fn new(limit: usize) -> (result: Self)
        ensures
            result.active == 0,
            result.limit == limit,
    {
        ProtocolPermits { active: 0, limit }
    }

    /// Admits a request when fewer than `limit` are in service.
    pub fn try_protocol_permit(&mut self) -> (result: Option<ProtocolPermit>)
        ensures
            final(self).limit == old(self).limit,
            old(self).active < old(self).limit ==> (result is Some && final(self).active
                == old(self).active + 1),
            old(self).active >= old(self).limit ==> (result is None && final(self).active
                == old(self).active),
    {
        if self.active >= self.limit {
            return None;
        }
        let slot = self.active;
        self.active = self.active + 1;
        Some(ProtocolPermit { slot })
    }

    /// Ends a request's service.
    pub fn release(&mut self, permit: ProtocolPermit)
        ensures
            final(self).limit == old(self).limit,
            final(self).active == if old(self).active > 0 {
                (old(self).active - 1) as usize
            } else {
                0
            },
    {
        if self.active > 0 {
            self.active = self.active - 1;
        }
    }
}

} // verus!
