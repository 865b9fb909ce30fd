//! The chain orchestrator's decisions: length bounds, reply threading,
//! pacing, and partial-failure reporting. A driver performs the network
//! calls and hands each outcome back to this state machine.

use vstd::prelude::*;
use crate::engine::PostResult;
use crate::numbers::dec_of;

verus! {

/// The most items one chain may hold.
pub const MAX_THREAD_LENGTH: usize = 25;

/// The outcome of a chain: every post created so far, in order, and the
/// terminal error, if one stopped the chain. Created posts are permanent;
/// an error beside a non-empty `posted` is a partial success.
#[derive(Debug)]
pub struct ThreadResult {
    /// The successfully created posts, in posting order.
    pub posted: Vec<PostResult>,
    /// The terminal error text, when the chain did not complete.
    pub error: Option<String>,
}

/// The orchestrator's state between posts: how many items the chain has,
/// what was created, which post the next item must reply to, and the pause
/// owed between consecutive posts.
#[derive(Debug)]
pub struct ThreadRun {
    /// How many items the accepted chain holds.
    pub total: usize,
    /// The posts created so far, in order.
    pub posted: Vec<PostResult>,
    /// The identifier the next post replies to: the last created post's.
    pub reply_to: Option<String>,
    /// Milliseconds to pause between consecutive posts.
    pub pause_ms: u64,
}

impl ThreadRun {
    /// Accept or reject a chain by its length, before any network call:
    /// an empty chain and one over the maximum are rejected outright.
    pub fn start(total: usize, pause_ms: u64) -> (r: Result<ThreadRun, ThreadResult>)
        ensures
            ({
                if total == 0 {
                    r matches Err(t) && t.posted@.len() == 0 && (t.error matches Some(m) && m@
                        == "Thread must contain at least one tweet"@)
                } else if total > MAX_THREAD_LENGTH {
                    r matches Err(t) && t.posted@.len() == 0 && (t.error matches Some(m) && m@
                        == "Thread exceeds maximum of 25 tweets"@)
                } else {
                    r matches Ok(run) && run.total == total && run.posted@.len() == 0
                        && run.reply_to is None && run.pause_ms == pause_ms
                }
            }),
    {
        if total == 0 {
            return Err(
                ThreadResult {
                    posted: Vec::new(),
                    error: Some("Thread must contain at least one tweet".to_owned()),
                },
            );
        }
        if total > MAX_THREAD_LENGTH {
            return Err(
                ThreadResult {
                    posted: Vec::new(),
                    error: Some("Thread exceeds maximum of 25 tweets".to_owned()),
                },
            );
        }
        Ok(ThreadRun { total, posted: Vec::new(), reply_to: None, pause_ms })
    }

    /// Whether another item is owed a post.
    pub fn wants_more(&self) -> (r: bool)
        ensures
            r == (self.posted@.len() < self.total),
    {
        self.posted.len() < self.total
    }

    /// The position (zero-based) of the item to post next.
    pub fn next_index(&self) -> (r: usize)
        ensures
            r == self.posted@.len(),
    {
        self.posted.len()
    }

    /// The pause owed before the next post: the configured pacing between
    /// consecutive posts, none before the first.
    pub fn pause_before_next(&self) -> (r: u64)
        ensures
            r == if self.posted@.len() > 0 {
                self.pause_ms
            } else {
                0
            },
    {
        if self.posted.len() > 0 {
            self.pause_ms
        } else {
            0
        }
    }

    /// The identifier the next post must reply to, if any: each item after
    /// the first replies to the immediately preceding created post.
    pub fn reply_target(&self) -> (r: &Option<String>)
        ensures
            r == &self.reply_to,
    {
        &self.reply_to
    }

    /// Record one created post: it joins the results in order and becomes
    /// the reply target of the next item.
    pub fn record_success(&mut self, post: PostResult)
        requires
            old(self).posted@.len() < old(self).total,
        ensures
            final(self).total == old(self).total,
            final(self).pause_ms == old(self).pause_ms,
            final(self).posted@ == old(self).posted@.push(post),
            final(self).reply_to matches Some(id) && id@ == post.tweet_id@,
    {
        self.reply_to = Some(post.tweet_id.clone());
        self.posted.push(post);
    }

    /// Stop at the first failure: keep everything already created and name
    /// the one-based position and the chain's size beside the cause. No
    /// created post is rolled back.
    pub fn fail(self, cause: &str) -> (r: ThreadResult)
        requires
            self.posted@.len() < self.total,
        ensures
            r.posted@ == self.posted@,
            r.error matches Some(m) && m@ == "Tweet "@ + dec_of((self.posted@.len() + 1) as nat)
                + " of "@ + dec_of(self.total as nat) + " failed: "@ + cause@,
    {
        let mut m = "Tweet ".to_owned();
        m.push_str(crate::numbers::usize_to_string(self.posted.len() + 1).as_str());
        m.push_str(" of ");
        m.push_str(crate::numbers::usize_to_string(self.total).as_str());
        m.push_str(" failed: ");
        m.push_str(cause);
        ThreadResult { posted: self.posted, error: Some(m) }
    }

    /// Finish a fully posted chain: one result per item, in order, and no
    /// error.
    pub fn finish(self) -> (r: ThreadResult)
        requires
            self.posted@.len() == self.total,
        ensures
            r.posted@ == self.posted@,
            r.posted@.len() == self.total,
            r.error is None,
    {
        ThreadResult { posted: self.posted, error: None }
    }
}

} // verus!
