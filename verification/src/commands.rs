//! The command handlers: each turns what a user asked for, and what the
//! gateway reports about the guild, into one queue change and one reply.
//!
//! The caller owns the transport: it looks up the guild's voice session,
//! runs the listing tool, joins channels. The handlers decide everything
//! else.

use vstd::prelude::*;
use crate::listing::kept_lines;
use crate::listing::resolve_listing;
use crate::listing::ListingError;
use crate::queue::urls_of;
use crate::queue::PlayQueue;
use crate::queue::QueueEntry;

verus! {

/// What a handler answers in chat. The caller renders the wording.
#[derive(PartialEq, Eq, Structural, Clone, Copy, Debug)]
pub enum Reply {
    /// Playback started at once: the queue was empty before.
    Started,
    /// The track went to the back of the queue, at this position behind the
    /// playing entry.
    QueuedAt(usize),
    /// There is nothing in the queue to skip.
    NothingToSkip,
    /// This many tracks were skipped.
    Skipped(usize),
    /// The order behind the playing entry was randomized.
    Shuffled,
    /// The playlist listing tool failed.
    PlaylistFetchFailed,
    /// The playlist was empty or invalid.
    PlaylistEmpty,
    /// This many playlist tracks were enqueued.
    PlaylistLoaded(usize),
}

/// How a play or playlist command reaches a voice session.
#[derive(PartialEq, Eq, Structural, Clone, Copy, Debug)]
pub enum ConnectPlan {
    /// The guild already has a session: use it.
    UseExisting,
    /// No session yet: join the voice channel the user sits in.
    Join(u64),
    /// No session, and the user is in no voice channel: refuse.
    RefuseNotInVoice,
}

/// Decide how to reach the guild's voice session: an existing session is
/// always used; otherwise the bot may only join the channel the user is in.
pub fn plan_connection(has_session: bool, voice_channel: Option<u64>) -> (p: ConnectPlan)
    ensures
        has_session ==> p == ConnectPlan::UseExisting,
        !has_session && voice_channel is None ==> p == ConnectPlan::RefuseNotInVoice,
        !has_session ==> (voice_channel matches Some(c) ==> p == ConnectPlan::Join(c)),
{
    if has_session {
        ConnectPlan::UseExisting
    } else {
        match voice_channel {
            Some(c) => ConnectPlan::Join(c),
            None => ConnectPlan::RefuseNotInVoice,
        }
    }
}

/// Enqueue one track. An empty queue starts playing at once; otherwise the
/// reply names the new entry's position behind the playing one.
pub fn handle_play(q: &mut PlayQueue, url: String) -> (r: Reply)
    ensures
        final(q)@.len() == old(q)@.len() + 1,
        forall|j: int| 0 <= j < old(q)@.len() ==> final(q)@[j] == old(q)@[j],
        final(q)@[old(q)@.len() as int].url == url,
        final(q)@[old(q)@.len() as int].play_time_ms == 0,
        old(q)@.len() == 0 ==> r == Reply::Started,
        old(q)@.len() > 0 ==> r == Reply::QueuedAt(old(q)@.len() as usize),
{
    let pos = q.len();
    q.enqueue(QueueEntry::new(url));
    if pos == 0 {
        Reply::Started
    } else {
        Reply::QueuedAt(pos)
    }
}

/// Skip tracks: drop the first `count` entries (one if no count is given),
/// or all of them if fewer are queued, and report how many actually went.
pub fn handle_skip(q: &mut PlayQueue, count: Option<usize>) -> (r: Reply)
    ensures
        old(q)@.len() == 0 ==> final(q)@ == old(q)@ && r == Reply::NothingToSkip,
        old(q)@.len() > 0 ==> ({
            let requested: int = match count {
                Some(c) => c as int,
                None => 1,
            };
            let removed = vstd::math::min(requested, old(q)@.len() as int);
            &&& final(q)@ == old(q)@.skip(removed)
            &&& r == Reply::Skipped(removed as usize)
        }),
{
    if q.is_empty() {
        Reply::NothingToSkip
    } else {
        let requested = match count {
            Some(c) => c,
            None => 1,
        };
        let removed = q.skip_n(requested);
        Reply::Skipped(removed)
    }
}

/// Shuffle the queue: the playing entry stays put, the rest keep exactly
/// their membership but in a random order.
pub fn handle_shuffle(q: &mut PlayQueue) -> (r: Reply)
    ensures
        r == Reply::Shuffled,
        final(q)@.len() == old(q)@.len(),
        old(q)@.len() > 0 ==> final(q)@[0] == old(q)@[0],
        final(q)@.to_multiset() == old(q)@.to_multiset(),
        final(q)@.skip(1).to_multiset() == old(q)@.skip(1).to_multiset(),
{
    q.shuffle();
    Reply::Shuffled
}

/// What the queue command reports.
#[derive(Debug)]
pub enum QueueStatus {
    /// No voice session is playing in this guild.
    NotPlaying,
    /// The session's queue holds nothing.
    Empty,
    /// The play time of each queued entry, in order, the playing one first.
    Listing(Vec<u64>),
}

/// Inspect the guild's queue, if the guild has a session at all.
pub fn handle_queue_status(session: Option<&PlayQueue>) -> (r: QueueStatus)
    ensures
        session is None ==> r is NotPlaying,
        session matches Some(q) ==> ({
            &&& q@.len() == 0 ==> r is Empty
            &&& q@.len() > 0 ==> (r matches QueueStatus::Listing(v) && v@ == q@.map_values(
                |e: QueueEntry| e.play_time_ms,
            ))
        }),
{
    match session {
        None => QueueStatus::NotPlaying,
        Some(q) => {
            if q.is_empty() {
                QueueStatus::Empty
            } else {
                let n = q.len();
                let mut times: Vec<u64> = Vec::new();
                let mut i: usize = 0;
                while i < n
                    invariant
                        i <= n,
                        n == q@.len(),
                        times@.len() == i,
                        forall|j: int| 0 <= j < i ==> times@[j] == q@[j].play_time_ms,
                    decreases n - i,
                {
                    let t = q.play_time_at(i);
                    times.push(t);
                    i = i + 1;
                }
                proof {
                    assert(times@ =~= q@.map_values(|e: QueueEntry| e.play_time_ms));
                }
                QueueStatus::Listing(times)
            }
        },
    }
}

/// Ingest a playlist from one run of the listing tool: a failed run, and a
/// run that named no track, enqueue nothing; otherwise every named track is
/// enqueued and the reply counts them.
pub fn handle_playlist(q: &mut PlayQueue, success: bool, stdout: &str) -> (r: Reply)
    ensures
        !success ==> final(q)@ == old(q)@ && r == Reply::PlaylistFetchFailed,
        success && kept_lines(stdout@).len() == 0 ==> final(q)@ == old(q)@ && r
            == Reply::PlaylistEmpty,
        success && kept_lines(stdout@).len() > 0 ==> ({
            let urls = kept_lines(stdout@);
            &&& final(q)@.len() == old(q)@.len() + urls.len()
            &&& urls_of(final(q)@) == urls_of(old(q)@) + urls
            &&& forall|j: int| 0 <= j < old(q)@.len() ==> final(q)@[j] == old(q)@[j]
            &&& forall|j: int|
                old(q)@.len() <= j < final(q)@.len() ==> (#[trigger] final(q)@[j]).play_time_ms
                    == 0
            &&& r == Reply::PlaylistLoaded(urls.len() as usize)
        }),
{
    match resolve_listing(success, stdout) {
        Err(ListingError::ToolFailed) => Reply::PlaylistFetchFailed,
        Err(ListingError::EmptyPlaylist) => Reply::PlaylistEmpty,
        Ok(urls) => {
            let total = urls.len();
            q.enqueue_urls(urls);
            Reply::PlaylistLoaded(total)
        },
    }
}

} // verus!
