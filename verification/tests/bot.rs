use chanson::commands::handle_play;
use chanson::commands::handle_playlist;
use chanson::commands::handle_queue_status;
use chanson::commands::handle_shuffle;
use chanson::commands::handle_skip;
use chanson::commands::plan_connection;
use chanson::commands::ConnectPlan;
use chanson::commands::QueueStatus;
use chanson::commands::Reply;
use chanson::listing::resolve_listing;
use chanson::listing::split_listing;
use chanson::listing::ListingError;
use chanson::queue::PlayQueue;
use chanson::queue::QueueEntry;
use chanson::session::SessionManager;

fn queue_of(urls: &[&str]) -> PlayQueue {
    let mut q = PlayQueue::new();
    for u in urls {
        q.enqueue(QueueEntry::new((*u).to_string()));
    }
    q
}

fn urls_in(q: &PlayQueue) -> Vec<String> {
    let mut v = Vec::new();
    for i in 0..q.len() {
        v.push(q.url_at(i));
    }
    v
}

#[test]
fn play_starts_on_empty_queue() {
    let mut q = PlayQueue::new();
    let r = handle_play(&mut q, "https://example.com/a".to_string());
    assert_eq!(r, Reply::Started);
    assert_eq!(q.len(), 1);
    assert_eq!(q.url_at(0), "https://example.com/a");
    assert_eq!(q.play_time_at(0), 0);
}

#[test]
fn play_reports_position_behind_playing_entry() {
    let mut q = queue_of(&["a"]);
    let r = handle_play(&mut q, "b".to_string());
    assert_eq!(r, Reply::QueuedAt(1));
    let r = handle_play(&mut q, "c".to_string());
    assert_eq!(r, Reply::QueuedAt(2));
    assert_eq!(urls_in(&q), vec!["a", "b", "c"]);
}

#[test]
fn skip_on_empty_queue_reports_nothing() {
    let mut q = PlayQueue::new();
    assert_eq!(handle_skip(&mut q, None), Reply::NothingToSkip);
    assert_eq!(handle_skip(&mut q, Some(3)), Reply::NothingToSkip);
}

#[test]
fn skip_without_count_drops_one() {
    let mut q = queue_of(&["a", "b", "c"]);
    assert_eq!(handle_skip(&mut q, None), Reply::Skipped(1));
    assert_eq!(urls_in(&q), vec!["b", "c"]);
}

#[test]
fn skip_removes_min_of_count_and_length() {
    let mut q = queue_of(&["a", "b", "c"]);
    assert_eq!(handle_skip(&mut q, Some(2)), Reply::Skipped(2));
    assert_eq!(urls_in(&q), vec!["c"]);

    let mut q = queue_of(&["a", "b"]);
    assert_eq!(handle_skip(&mut q, Some(5)), Reply::Skipped(2));
    assert_eq!(q.len(), 0);
}

#[test]
fn shuffle_keeps_first_and_permutes_rest() {
    let before: Vec<&str> = vec!["a", "b", "c", "d", "e", "f", "g", "h"];
    let mut q = queue_of(&before);
    let r = handle_shuffle(&mut q);
    assert_eq!(r, Reply::Shuffled);
    let after = urls_in(&q);
    assert_eq!(after.len(), before.len());
    assert_eq!(after[0], "a");
    let mut rest_before: Vec<String> = before[1..].iter().map(|s| s.to_string()).collect();
    let mut rest_after: Vec<String> = after[1..].to_vec();
    rest_before.sort();
    rest_after.sort();
    assert_eq!(rest_before, rest_after);
}

#[test]
fn shuffle_leaves_two_or_fewer_entries_alone() {
    let mut q = queue_of(&["a", "b"]);
    handle_shuffle(&mut q);
    assert_eq!(urls_in(&q), vec!["a", "b"]);

    let mut q = PlayQueue::new();
    assert_eq!(handle_shuffle(&mut q), Reply::Shuffled);
    assert_eq!(q.len(), 0);
}

#[test]
fn queue_status_without_session() {
    assert!(matches!(handle_queue_status(None), QueueStatus::NotPlaying));
}

#[test]
fn queue_status_of_empty_queue() {
    let q = PlayQueue::new();
    assert!(matches!(handle_queue_status(Some(&q)), QueueStatus::Empty));
}

#[test]
fn queue_status_lists_play_times_in_order() {
    let mut q = queue_of(&["a", "b", "c"]);
    match handle_queue_status(Some(&q)) {
        QueueStatus::Listing(times) => assert_eq!(times, vec![0, 0, 0]),
        other => panic!("expected a listing, got {:?}", other),
    }
    let r = handle_skip(&mut q, Some(1));
    assert_eq!(r, Reply::Skipped(1));
    match handle_queue_status(Some(&q)) {
        QueueStatus::Listing(times) => assert_eq!(times.len(), 2),
        other => panic!("expected a listing, got {:?}", other),
    }
}

#[test]
fn split_listing_keeps_nonblank_lines_without_cr() {
    let out = split_listing("https://a\r\nhttps://b\n\n   \nhttps://c");
    assert_eq!(out, vec!["https://a", "https://b", "https://c"]);
}

#[test]
fn split_listing_of_blank_text_is_empty() {
    assert_eq!(split_listing(""), Vec::<String>::new());
    assert_eq!(split_listing("\n\n \t \n"), Vec::<String>::new());
}

#[test]
fn split_listing_keeps_inner_whitespace() {
    let out = split_listing("a b\n\rc\n");
    assert_eq!(out, vec!["a b", "\rc"]);
}

#[test]
fn resolve_listing_fails_on_bad_exit() {
    let r = resolve_listing(false, "https://a\nhttps://b\n");
    assert_eq!(r, Err(ListingError::ToolFailed));
}

#[test]
fn resolve_listing_fails_on_empty_output() {
    assert_eq!(resolve_listing(true, ""), Err(ListingError::EmptyPlaylist));
    assert_eq!(resolve_listing(true, " \n\t\n"), Err(ListingError::EmptyPlaylist));
}

#[test]
fn resolve_listing_returns_urls_in_print_order() {
    let r = resolve_listing(true, "u1\nu2\nu3\n");
    assert_eq!(r, Ok(vec!["u1".to_string(), "u2".to_string(), "u3".to_string()]));
}

#[test]
fn playlist_with_failed_tool_enqueues_nothing() {
    let mut q = queue_of(&["a"]);
    let r = handle_playlist(&mut q, false, "u1\nu2\n");
    assert_eq!(r, Reply::PlaylistFetchFailed);
    assert_eq!(urls_in(&q), vec!["a"]);
}

#[test]
fn playlist_with_empty_listing_enqueues_nothing() {
    let mut q = queue_of(&["a"]);
    let r = handle_playlist(&mut q, true, "\n  \n");
    assert_eq!(r, Reply::PlaylistEmpty);
    assert_eq!(urls_in(&q), vec!["a"]);
}

#[test]
fn playlist_enqueues_every_listed_track() {
    let mut q = queue_of(&["old"]);
    let r = handle_playlist(&mut q, true, "u1\nu2\nu3\r\n");
    assert_eq!(r, Reply::PlaylistLoaded(3));
    assert_eq!(urls_in(&q), vec!["old", "u1", "u2", "u3"]);
    for i in 0..q.len() {
        assert_eq!(q.play_time_at(i), 0);
    }
}

#[test]
fn concurrent_enqueue_of_k_urls_yields_k_entries() {
    // One arrival order of the same batch per task interleaving: whatever
    // the order, the count must match and nothing may be lost.
    let batch = vec!["u1", "u2", "u3", "u4", "u5"];
    let arrivals: Vec<Vec<&str>> = vec![
        vec!["u1", "u2", "u3", "u4", "u5"],
        vec!["u5", "u4", "u3", "u2", "u1"],
        vec!["u3", "u1", "u5", "u2", "u4"],
    ];
    for arrival in arrivals {
        let mut q = queue_of(&["playing"]);
        q.enqueue_urls(arrival.iter().map(|s| s.to_string()).collect());
        assert_eq!(q.len(), 1 + batch.len());
        let mut got = urls_in(&q)[1..].to_vec();
        let mut want: Vec<String> = batch.iter().map(|s| s.to_string()).collect();
        got.sort();
        want.sort();
        assert_eq!(got, want);
    }
}

#[test]
fn plan_connection_cases() {
    assert_eq!(plan_connection(true, None), ConnectPlan::UseExisting);
    assert_eq!(plan_connection(true, Some(7)), ConnectPlan::UseExisting);
    assert_eq!(plan_connection(false, Some(7)), ConnectPlan::Join(7));
    assert_eq!(plan_connection(false, None), ConnectPlan::RefuseNotInVoice);
}

#[test]
fn session_manager_keeps_one_queue_per_guild() {
    let mut m = SessionManager::new();
    assert!(!m.has_session(1));
    m.ensure_session(1);
    assert!(m.has_session(1));
    assert!(!m.has_session(2));

    let mut q = m.take_queue(1);
    assert!(!m.has_session(1));
    handle_play(&mut q, "a".to_string());
    m.put_queue(1, q);
    assert!(m.has_session(1));

    m.ensure_session(1);
    let q = m.take_queue(1);
    assert_eq!(urls_in(&q), vec!["a"]);
    m.put_queue(1, q);

    m.ensure_session(2);
    let q2 = m.take_queue(2);
    assert_eq!(q2.len(), 0);
    m.put_queue(2, q2);
    let q1 = m.take_queue(1);
    assert_eq!(urls_in(&q1), vec!["a"]);
}
