//! The playback queue of one voice session: an ordered sequence of enqueued
//! audio sources. The first entry is the one currently playing.

use vstd::prelude::*;
use vstd::seq_lib::lemma_multiset_commutative;
use vstd::seq_lib::to_multiset_len;

verus! {

/// One enqueued audio source: its URL and how long it has played so far.
pub struct QueueEntry {
    pub url: String,
    pub play_time_ms: u64,
}

impl QueueEntry {
    /// A freshly enqueued source has played for no time at all.
    pub fn new(url: String) -> (e: QueueEntry)
        ensures
            e.url == url,
            e.play_time_ms == 0,
    {
        QueueEntry { url, play_time_ms: 0 }
    }
}

/// The URLs of a sequence of entries, in queue order.
pub open spec fn urls_of(s: Seq<QueueEntry>) -> Seq<Seq<char>> {
    s.map_values(|e: QueueEntry| e.url@)
}

/// A guild's playback queue. Entries stay in insertion order except for an
/// explicit shuffle, which never moves the first (currently playing) entry.
pub struct PlayQueue {
    entries: Vec<QueueEntry>,
}

impl View for PlayQueue {
    type V = Seq<QueueEntry>;

    closed spec fn view(&self) -> Seq<QueueEntry> {
        self.entries@
    }
}

impl PlayQueue {
    pub fn new() -> (q: PlayQueue)
        ensures
            q@ == Seq::<QueueEntry>::empty(),
    {
        PlayQueue { entries: Vec::new() }
    }

    pub fn len(&self) -> (n: usize)
        ensures
            n == self@.len(),
    {
        self.entries.len()
    }

    pub fn is_empty(&self) -> (b: bool)
        ensures
            b == (self@.len() == 0),
    {
        self.entries.len() == 0
    }

    /// Append one entry at the back of the queue.
    pub fn enqueue(&mut self, e: QueueEntry)
        ensures
            final(self)@ == old(self)@.push(e),
    {
        self.entries.push(e);
    }

    /// Drop the first `min(requested, length)` entries, as skipping a track
    /// drops the entry that was playing, and report how many were dropped.
    pub fn skip_n(&mut self, requested: usize) -> (removed: usize)
        ensures
            removed == vstd::math::min(requested as int, old(self)@.len() as int),
            final(self)@ == old(self)@.skip(removed as int),
    {
        let to_skip = if requested < self.entries.len() {
            requested
        } else {
            self.entries.len()
        };
        let mut k: usize = 0;
        while k < to_skip
            invariant
                k <= to_skip,
                to_skip == vstd::math::min(requested as int, old(self)@.len() as int),
                self.entries@ == old(self)@.skip(k as int),
            decreases to_skip - k,
        {
            self.entries.remove(0);
            proof {
                assert(old(self)@.skip(k as int).remove(0) =~= old(self)@.skip(k + 1));
            }
            k = k + 1;
        }
        to_skip
    }

    /// Randomize the order of every entry but the first, which keeps playing.
    /// A queue of at most two entries is left exactly as it was.
    pub fn shuffle(&mut self)
        ensures
            final(self)@.len() == old(self)@.len(),
            old(self)@.len() > 0 ==> final(self)@[0] == old(self)@[0],
            final(self)@.to_multiset() == old(self)@.to_multiset(),
            final(self)@.skip(1).to_multiset() == old(self)@.skip(1).to_multiset(),
            old(self)@.len() <= 2 ==> final(self)@ == old(self)@,
    {
        if self.entries.len() > 2 {
            let ghost o = self.entries@;
            let mut tail = self.entries.split_off(1);
            shuffle_entries(&mut tail);
            let ghost t1 = tail@;
            self.entries.append(&mut tail);
            proof {
                let head = o.subrange(0, 1);
                let t0 = o.subrange(1, o.len() as int);
                assert(o =~= head + t0);
                assert(self.entries@ == head + t1);
                lemma_multiset_commutative(head, t0);
                lemma_multiset_commutative(head, t1);
                to_multiset_len(t0);
                to_multiset_len(t1);
                assert(o.skip(1) =~= t0);
                assert(self.entries@.skip(1) =~= t1);
                assert(final(self)@.to_multiset() =~= old(self)@.to_multiset());
            }
        }
    }

    /// Construct a fresh entry for each URL, in the order handed in, and
    /// append them all at the back of the queue.
    pub fn enqueue_urls(&mut self, urls: Vec<String>)
        ensures
            final(self)@.len() == old(self)@.len() + urls@.len(),
            urls_of(final(self)@) == urls_of(old(self)@) + urls.deep_view(),
            forall|j: int|
                0 <= j < old(self)@.len() ==> final(self)@[j] == old(self)@[j],
            forall|j: int|
                old(self)@.len() <= j < final(self)@.len() ==> final(self)@[j].play_time_ms
                    == 0,
    {
        let n = urls.len();
        let mut i: usize = 0;
        while i < n
            invariant
                i <= n,
                n == urls@.len(),
                self.entries@.len() == old(self)@.len() + i,
                forall|j: int| 0 <= j < old(self)@.len() ==> self.entries@[j] == old(self)@[j],
                forall|j: int|
                    0 <= j < i ==> (#[trigger] self.entries@[old(self)@.len() + j]).url
                        == urls@[j],
                forall|j: int|
                    0 <= j < i ==> (#[trigger] self.entries@[old(self)@.len()
                        + j]).play_time_ms == 0,
            decreases n - i,
        {
            let e = QueueEntry::new(urls[i].clone());
            self.entries.push(e);
            i = i + 1;
        }
        proof {
            let oldlen = old(self)@.len() as int;
            assert forall|j: int|
                oldlen <= j < final(self)@.len() implies final(self)@[j].play_time_ms == 0 by {
                assert(final(self)@[oldlen + (j - oldlen)].play_time_ms == 0);
            }
            assert forall|j: int| oldlen <= j < final(self)@.len() implies final(self)@[j].url@
                == urls.deep_view()[j - oldlen] by {
                assert(final(self)@[oldlen + (j - oldlen)].url == urls@[j - oldlen]);
            }
            assert(urls_of(final(self)@) =~= urls_of(old(self)@) + urls.deep_view());
        }
    }

    /// The URL of the entry at position `i`.
    pub fn url_at(&self, i: usize) -> (r: String)
        requires
            i < self@.len(),
        ensures
            r == self@[i as int].url,
    {
        self.entries[i].url.clone()
    }

    /// How long the entry at position `i` has played, in milliseconds.
    pub fn play_time_at(&self, i: usize) -> (t: u64)
        requires
            i < self@.len(),
        ensures
            t == self@[i as int].play_time_ms,
    {
        self.entries[i].play_time_ms
    }
}

/// Relies on rand::seq::SliceRandom::shuffle, driven by rand::rng(): it
/// permutes the slice in place, so the entries afterwards are exactly the
/// entries before, in some order.
#[verifier::external_body]
fn shuffle_entries(v: &mut Vec<QueueEntry>)
    ensures
        final(v)@.to_multiset() == old(v)@.to_multiset(),
{
    let mut rng = rand::rng();
    rand::seq::SliceRandom::shuffle(v.as_mut_slice(), &mut rng);
}

/// Law: enqueuing a batch of entries one at a time, in whatever order the
/// scheduler lets the concurrent enqueue tasks reach the queue's lock, loses
/// nothing and invents nothing: the queue grows by exactly the batch's
/// length, and afterwards holds exactly the old entries plus the batch's.
pub proof fn lemma_concurrent_enqueue(
    before: Seq<QueueEntry>,
    batch: Seq<QueueEntry>,
    arrival: Seq<QueueEntry>,
)
    requires
        arrival.to_multiset() == batch.to_multiset(),
    ensures
        (before + arrival).len() == before.len() + batch.len(),
        (before + arrival).to_multiset() == before.to_multiset().add(batch.to_multiset()),
{
    to_multiset_len(arrival);
    to_multiset_len(batch);
    lemma_multiset_commutative(before, arrival);
}

} // verus!
