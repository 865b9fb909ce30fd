use post_x::chain::ThreadRun;
use post_x::engine::{make_post_result, XError};
use post_x::identity::{IdentityCache, MeData};

#[test]
fn empty_chain_rejected_before_any_posting() {
    let r = ThreadRun::start(0, 500).unwrap_err();
    assert!(r.posted.is_empty());
    assert_eq!(r.error.as_deref(), Some("Thread must contain at least one tweet"));
}

#[test]
fn oversized_chain_rejected_before_any_posting() {
    let r = ThreadRun::start(26, 500).unwrap_err();
    assert!(r.posted.is_empty());
    assert_eq!(r.error.as_deref(), Some("Thread exceeds maximum of 25 tweets"));
}

#[test]
fn chain_of_25_accepted() {
    let run = ThreadRun::start(25, 500).unwrap();
    assert_eq!(run.total, 25);
    assert!(run.posted.is_empty());
}

#[test]
fn failure_at_item_2_of_3_keeps_one_post() {
    let mut run = ThreadRun::start(3, 0).unwrap();
    assert!(run.reply_target().is_none());
    assert_eq!(run.pause_before_next(), 0);
    run.record_success(make_post_result("100".to_string(), "alice"));
    assert_eq!(run.reply_target().as_deref(), Some("100"));
    assert_eq!(run.next_index(), 1);
    let result = run.fail("X API error (500): oops");
    assert_eq!(result.posted.len(), 1);
    assert_eq!(result.posted[0].tweet_id, "100");
    let msg = result.error.unwrap();
    assert_eq!(msg, "Tweet 2 of 3 failed: X API error (500): oops");
    assert!(msg.contains("2"));
    assert!(msg.contains("3"));
}

#[test]
fn full_chain_success_threads_replies_in_order() {
    let mut run = ThreadRun::start(2, 500).unwrap();
    assert_eq!(run.pause_before_next(), 0);
    run.record_success(make_post_result("1".to_string(), "alice"));
    assert_eq!(run.pause_before_next(), 500);
    assert_eq!(run.reply_target().as_deref(), Some("1"));
    assert!(run.wants_more());
    run.record_success(make_post_result("2".to_string(), "alice"));
    assert!(!run.wants_more());
    let result = run.finish();
    assert_eq!(result.posted.len(), 2);
    assert_eq!(result.posted[0].tweet_id, "1");
    assert_eq!(result.posted[1].tweet_id, "2");
    assert!(result.error.is_none());
}

fn me(username: &str) -> MeData {
    MeData { id: "9".to_string(), name: "Alice".to_string(), username: username.to_string() }
}

#[test]
fn identity_cache_hit_after_one_success() {
    let mut cache = IdentityCache::new();
    assert!(cache.lookup().is_none());
    let got = cache.resolve_fetched(Ok(me("alice"))).unwrap();
    assert_eq!(got, "alice");
    // second request: a hit, no fetch owed
    assert_eq!(cache.lookup().as_deref(), Some("alice"));
}

#[test]
fn identity_cache_untouched_by_fetch_failure() {
    let mut cache = IdentityCache::new();
    let e = cache
        .resolve_fetched(Err(XError::Transport { message: "HTTP request failed: x".to_string() }))
        .unwrap_err();
    assert_eq!(e.render(), "HTTP request failed: x");
    // still empty: the next request retries the fetch
    assert!(cache.lookup().is_none());
    let _ = cache.resolve_fetched(Ok(me("bob")));
    assert_eq!(cache.lookup().as_deref(), Some("bob"));
}

#[test]
fn record_refreshes_cache() {
    let mut cache = IdentityCache::new();
    cache.record("alice");
    assert_eq!(cache.lookup().as_deref(), Some("alice"));
    cache.record("alice2");
    assert_eq!(cache.lookup().as_deref(), Some("alice2"));
}
