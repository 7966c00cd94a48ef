//! The registry of active voice sessions, one playback queue per guild.
//!
//! The invariant of the registry is that a guild never has two sessions at
//! once. A caller borrows a guild's queue by taking it out, runs a command
//! handler on it, and puts it back.

use vstd::prelude::*;
use crate::queue::PlayQueue;
use crate::queue::QueueEntry;

verus! {

/// One guild's active voice session: its playback queue.
struct VoiceSession {
    guild_id: u64,
    queue: PlayQueue,
}

/// Every active voice session, keyed by guild identifier.
pub struct SessionManager {
    sessions: Vec<VoiceSession>,
}

impl SessionManager {
    /// At most one session per guild at a time.
    #[verifier::type_invariant]
    spec fn unique_guilds(self) -> bool {
        forall|i: int, j: int|
            0 <= i < j < self.sessions@.len() ==> self.sessions@[i].guild_id
                != self.sessions@[j].guild_id
    }

    /// Whether guild `g` has an active session.
    pub closed spec fn has(self, g: u64) -> bool {
        exists|i: int| 0 <= i < self.sessions@.len() && self.sessions@[i].guild_id == g
    }

    spec fn idx(self, g: u64) -> int {
        choose|i: int| 0 <= i < self.sessions@.len() && self.sessions@[i].guild_id == g
    }

    /// The entries of guild `g`'s queue.
    pub closed spec fn queue_of(self, g: u64) -> Seq<QueueEntry> {
        self.sessions@[self.idx(g)].queue@
    }

    pub fn new() -> (m: SessionManager)
        ensures
            forall|g: u64| !m.has(g),
    {
        SessionManager { sessions: Vec::new() }
    }

    pub fn has_session(&self, g: u64) -> (b: bool)
        ensures
            b == self.has(g),
    {
        match self.find_index(g) {
            Some(_) => true,
            None => false,
        }
    }

    fn find_index(&self, g: u64) -> (r: Option<usize>)
        ensures
            r matches Some(i) ==> i < self.sessions@.len() && self.sessions@[i as int].guild_id
                == g,
            r is None ==> !self.has(g),
            r is Some ==> self.has(g),
    {
        let n = self.sessions.len();
        let mut i: usize = 0;
        while i < n
            invariant
                i <= n,
                n == self.sessions@.len(),
                forall|j: int| 0 <= j < i ==> self.sessions@[j].guild_id != g,
            decreases n - i,
        {
            if self.sessions[i].guild_id == g {
                return Some(i);
            }
            i = i + 1;
        }
        None
    }

    /// Register a session for guild `g` with the handed-in queue. No other
    /// guild's session changes.
    pub fn put_queue(&mut self, g: u64, q: PlayQueue)
        requires
            !old(self).has(g),
        ensures
            final(self).queue_of(g) == q@,
            forall|h: u64| #[trigger] final(self).has(h) == (old(self).has(h) || h == g),
            forall|h: u64|
                h != g && old(self).has(h) ==> final(self).queue_of(h) == old(self).queue_of(
                    h,
                ),
    {
        proof {
            use_type_invariant(&*self);
        }
        let ghost before = self.sessions@;
        let mut v: Vec<VoiceSession> = Vec::new();
        core::mem::swap(&mut v, &mut self.sessions);
        v.push(VoiceSession { guild_id: g, queue: q });
        proof {
            assert(forall|i: int|
                0 <= i < before.len() ==> #[trigger] before[i].guild_id != g);
        }
        self.sessions = v;
        proof {
            let after = self.sessions@;
            let n = before.len() as int;
            assert(after[n].guild_id == g);
            assert(final(self).has(g));
            assert(final(self).idx(g) == n) by {
                let i = final(self).idx(g);
                assert(0 <= i <= n && after[i].guild_id == g);
            }
            assert forall|h: u64| h != g && old(self).has(h) implies final(self).has(h)
                && final(self).queue_of(h) == old(self).queue_of(h) by {
                let i0 = old(self).idx(h);
                assert(0 <= i0 < n && before[i0].guild_id == h);
                assert(after[i0].guild_id == h);
                assert(final(self).has(h));
                let i1 = final(self).idx(h);
                assert(0 <= i1 <= n && after[i1].guild_id == h);
                assert(i1 == i0);
            }
            assert forall|h: u64| h != g && final(self).has(h) implies old(self).has(h) by {
                let i1 = final(self).idx(h);
                assert(0 <= i1 <= n && after[i1].guild_id == h);
                assert(i1 < n);
                assert(before[i1].guild_id == h);
            }
        }
    }

    /// Take guild `g`'s queue out of the registry, leaving the guild without
    /// a session until the queue is put back. No other guild's session
    /// changes.
    pub fn take_queue(&mut self, g: u64) -> (q: PlayQueue)
        requires
            old(self).has(g),
        ensures
            q@ == old(self).queue_of(g),
            !final(self).has(g),
            forall|h: u64| h != g ==> #[trigger] final(self).has(h) == old(self).has(h),
            forall|h: u64|
                h != g && old(self).has(h) ==> final(self).queue_of(h) == old(self).queue_of(
                    h,
                ),
    {
        proof {
            use_type_invariant(&*self);
        }
        let found = self.find_index(g);
        let i = match found {
            Some(i) => i,
            None => {
                proof {
                    assert(false);
                }
                0
            },
        };
        let ghost before = self.sessions@;
        let mut v: Vec<VoiceSession> = Vec::new();
        core::mem::swap(&mut v, &mut self.sessions);
        let s = v.remove(i);
        self.sessions = v;
        proof {
            let after = self.sessions@;
            assert(after =~= before.remove(i as int));
            assert(forall|j: int|
                0 <= j < after.len() ==> #[trigger] after[j] == (if j < i {
                    before[j]
                } else {
                    before[j + 1]
                }));
            assert(old(self).idx(g) == i) by {
                let i0 = old(self).idx(g);
                assert(0 <= i0 < before.len() && before[i0].guild_id == g);
            }
            assert(s == before[i as int]);
            assert forall|j: int| 0 <= j < after.len() implies #[trigger] after[j].guild_id
                != g by {
                if j < i {
                    assert(after[j] == before[j]);
                } else {
                    assert(after[j] == before[j + 1]);
                }
            }
            assert(!final(self).has(g));
            assert forall|h: u64| h != g && old(self).has(h) implies final(self).has(h)
                && final(self).queue_of(h) == old(self).queue_of(h) by {
                let i0 = old(self).idx(h);
                assert(0 <= i0 < before.len() && before[i0].guild_id == h);
                assert(i0 != i);
                if i0 < i {
                    assert(after[i0] == before[i0]);
                } else {
                    assert(after[i0 - 1] == before[i0]);
                }
                assert(final(self).has(h));
                let i1 = final(self).idx(h);
                assert(0 <= i1 < after.len() && after[i1].guild_id == h);
                let i1b: int = if i1 < i {
                    i1
                } else {
                    i1 + 1
                };
                assert(before[i1b].guild_id == h);
                assert(i1b == i0);
                assert(after[i1].queue@ == before[i0].queue@);
            }
            assert forall|h: u64| h != g && final(self).has(h) implies old(self).has(h) by {
                let i1 = final(self).idx(h);
                assert(0 <= i1 < after.len() && after[i1].guild_id == h);
                if i1 < i {
                    assert(before[i1].guild_id == h);
                } else {
                    assert(before[i1 + 1].guild_id == h);
                }
            }
        }
        s.queue
    }

    /// Look a guild's session up, creating an empty one first if the guild
    /// has none: afterwards the guild has a session either way, with its
    /// queue kept as it was, or empty when it is new.
    pub fn ensure_session(&mut self, g: u64)
        ensures
            final(self).has(g),
            old(self).has(g) ==> *final(self) == *old(self),
            !old(self).has(g) ==> final(self).queue_of(g) == Seq::<QueueEntry>::empty(),
            forall|h: u64| #[trigger] final(self).has(h) == (old(self).has(h) || h == g),
            forall|h: u64|
                h != g && old(self).has(h) ==> final(self).queue_of(h) == old(self).queue_of(
                    h,
                ),
    {
        if !self.has_session(g) {
            let q = PlayQueue::new();
            self.put_queue(g, q);
        }
    }
}

} // verus!
