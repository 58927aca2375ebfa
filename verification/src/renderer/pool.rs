//! The book-keeping of the browser pool: which browsers wait for reuse, how many are lent out,
//! and when a browser is old or worn enough to be closed and replaced.
//!
//! The pool holds at most `MAX_CONCURRENT_BROWSERS` browsers, waiting or lent out together;
//! the program waits for a free place before it asks for a browser. A browser is reused last in,
//! first out, and one that has lived longer than `BROWSER_MAX_AGE_SECS` seconds or rendered
//! `BROWSER_MAX_RENDERS` pages is closed instead of being lent again or kept.
use vstd::prelude::*;

verus! {

/// Maximum concurrent browser instances for batch processing.
pub const MAX_CONCURRENT_BROWSERS: usize = 3;

/// Maximum age of a pooled browser before it should be recycled (5 minutes).
pub const BROWSER_MAX_AGE_SECS: u64 = 300;

/// Maximum number of pages rendered before recycling a browser.
pub const BROWSER_MAX_RENDERS: u64 = 50;

/// A browser is due for replacement once it is older than the age limit or has rendered the
/// maximum number of pages.
pub open spec fn recycle_due(age_secs: u64, render_count: u64) -> bool {
    age_secs > BROWSER_MAX_AGE_SECS || render_count >= BROWSER_MAX_RENDERS
}

/// Determines if a browser instance should be closed and replaced.
pub fn should_recycle(age_secs: u64, render_count: u64) -> (r: bool)
    ensures
        r == recycle_due(age_secs, render_count),
{
    age_secs > BROWSER_MAX_AGE_SECS || render_count >= BROWSER_MAX_RENDERS
}

/// The seconds between `launched_at` and `now` on the program's monotonic clock (none when the
/// clock reads earlier than the launch).
pub open spec fn age_at(launched_at: u64, now: u64) -> u64 {
    if now >= launched_at {
        (now - launched_at) as u64
    } else {
        0
    }
}

/// A browser instance with its lifecycle metadata.
pub struct PooledEntry<B> {
    /// The browser handle.
    pub browser: B,
    /// When the browser was launched, in seconds on the program's monotonic clock.
    pub launched_at: u64,
    /// Number of documents rendered by this instance.
    pub render_count: u64,
}

impl<B> PooledEntry<B> {
    /// A freshly launched browser, which has rendered nothing yet.
    pub fn new(browser: B, launched_at: u64) -> (r: Self)
        ensures
            r.browser == browser,
            r.launched_at == launched_at,
            r.render_count == 0,
    {
        PooledEntry { browser, launched_at, render_count: 0 }
    }

    /// The browser is due for replacement at time `now`.
    pub open spec fn due_at(&self, now: u64) -> bool {
        recycle_due(age_at(self.launched_at, now), self.render_count)
    }

    /// Whether the browser should be closed and replaced at time `now`.
    pub fn should_recycle(&self, now: u64) -> (r: bool)
        ensures
            r == self.due_at(now),
    {
        let age = if now >= self.launched_at {
            now - self.launched_at
        } else {
            0
        };
        should_recycle(age, self.render_count)
    }

    /// Informs the entry that a rendering operation was performed.
    pub fn mark_used(&mut self)
        requires
            old(self).render_count < u64::MAX,
        ensures
            final(self).render_count == old(self).render_count + 1,
            final(self).launched_at == old(self).launched_at,
            final(self).browser == old(self).browser,
    {
        self.render_count = self.render_count + 1;
    }
}

/// What the program is to do to lend out a browser.
pub enum Checkout<B> {
    /// Lend out this waiting browser.
    Reuse(PooledEntry<B>),
    /// Close this waiting browser, which is due for replacement, and lend out a new one.
    Replace(PooledEntry<B>),
    /// No browser waits: lend out a new one.
    Launch,
}

/// What lending out a browser at time `now` does, given the waiting browsers.
pub open spec fn checkout_outcome<B>(waiting: Seq<PooledEntry<B>>, now: u64) -> Checkout<B> {
    if waiting.len() == 0 {
        Checkout::Launch
    } else if waiting.last().due_at(now) {
        Checkout::Replace(waiting.last())
    } else {
        Checkout::Reuse(waiting.last())
    }
}

/// The waiting browsers after one is lent out.
pub open spec fn after_checkout<B>(waiting: Seq<PooledEntry<B>>) -> Seq<PooledEntry<B>> {
    if waiting.len() == 0 {
        waiting
    } else {
        waiting.drop_last()
    }
}

/// The waiting browsers after `entry` is returned at time `now`.
pub open spec fn after_checkin<B>(waiting: Seq<PooledEntry<B>>, entry: PooledEntry<B>, now: u64) -> Seq<
    PooledEntry<B>,
> {
    if entry.due_at(now) {
        waiting
    } else {
        waiting.push(entry)
    }
}

/// The pool's book-keeping: the browsers waiting for reuse, the most recently returned last,
/// and the number of browsers lent out.
pub struct PoolLedger<B> {
    available: Vec<PooledEntry<B>>,
    in_use: usize,
}

impl<B> PoolLedger<B> {
    /// The browsers waiting for reuse, the most recently returned last.
    pub closed spec fn waiting(&self) -> Seq<PooledEntry<B>> {
        self.available@
    }

    /// The number of browsers lent out.
    pub closed spec fn lent(&self) -> nat {
        self.in_use as nat
    }

    /// The pool never holds more than the maximum number of browsers, waiting and lent out
    /// together.
    pub open spec fn wf(&self) -> bool {
        self.waiting().len() + self.lent() <= MAX_CONCURRENT_BROWSERS
    }

    /// Creates a new, empty pool.
    pub fn new() -> (r: Self)
        ensures
            r.wf(),
            r.waiting() == Seq::<PooledEntry<B>>::empty(),
            r.lent() == 0,
    {
        PoolLedger { available: Vec::new(), in_use: 0 }
    }

    /// Whether a browser can be lent out now, or the program must wait for one to be returned.
    pub fn has_room(&self) -> (r: bool)
        requires
            self.wf(),
        ensures
            r == (self.lent() < MAX_CONCURRENT_BROWSERS),
    {
        self.in_use < MAX_CONCURRENT_BROWSERS
    }

    /// Lends out a browser at time `now`: the most recently returned one when it is still fit,
    /// a new one in place of it when it is due for replacement, or a new one when none waits.
    pub fn checkout(&mut self, now: u64) -> (r: Checkout<B>)
        requires
            old(self).wf(),
            old(self).lent() < MAX_CONCURRENT_BROWSERS,
        ensures
            final(self).wf(),
            final(self).lent() == old(self).lent() + 1,
            r == checkout_outcome(old(self).waiting(), now),
            final(self).waiting() == after_checkout(old(self).waiting()),
    {
        self.in_use = self.in_use + 1;
        match self.available.pop() {
            Some(entry) => {
                if entry.should_recycle(now) {
                    Checkout::Replace(entry)
                } else {
                    Checkout::Reuse(entry)
                }
            },
            None => Checkout::Launch,
        }
    }

    /// Takes back a lent-out browser at time `now`: it waits for reuse unless it is due for
    /// replacement, in which case it is handed back to be closed.
    pub fn checkin(&mut self, entry: PooledEntry<B>, now: u64) -> (r: Option<PooledEntry<B>>)
        requires
            old(self).wf(),
            old(self).lent() > 0,
        ensures
            final(self).wf(),
            final(self).lent() == old(self).lent() - 1,
            r == (if entry.due_at(now) {
                Some(entry)
            } else {
                None
            }),
            final(self).waiting() == after_checkin(old(self).waiting(), entry, now),
    {
        self.in_use = self.in_use - 1;
        if entry.should_recycle(now) {
            Some(entry)
        } else {
            self.available.push(entry);
            None
        }
    }

    /// Gives a lent-out browser's place back without returning the browser (it was lost).
    pub fn forfeit(&mut self)
        requires
            old(self).wf(),
            old(self).lent() > 0,
        ensures
            final(self).wf(),
            final(self).lent() == old(self).lent() - 1,
            final(self).waiting() == old(self).waiting(),
    {
        self.in_use = self.in_use - 1;
    }

    /// Removes every waiting browser, to be closed when the pool shuts down.
    pub fn drain(&mut self) -> (r: Vec<PooledEntry<B>>)
        requires
            old(self).wf(),
        ensures
            final(self).wf(),
            r@ == old(self).waiting(),
            final(self).waiting() == Seq::<PooledEntry<B>>::empty(),
            final(self).lent() == old(self).lent(),
    {
        let mut taken: Vec<PooledEntry<B>> = Vec::new();
        std::mem::swap(&mut taken, &mut self.available);
        taken
    }

    /// Current pool statistics: the number of waiting browsers and the number lent out.
    pub fn stats(&self) -> (r: (usize, usize))
        requires
            self.wf(),
        ensures
            r.0 == self.waiting().len(),
            r.1 == self.lent(),
    {
        (self.available.len(), self.in_use)
    }
}

/// A browser returned to the pool is the next one lent out, unchanged, when it is still fit at
/// that time and no other browser is returned in between; the other waiting browsers stay as
/// they were.
pub proof fn lemma_returned_browser_is_reused<B>(
    waiting: Seq<PooledEntry<B>>,
    entry: PooledEntry<B>,
    returned_at: u64,
    now: u64,
)
    requires
        returned_at <= now,
        !entry.due_at(now),
    ensures
        checkout_outcome(after_checkin(waiting, entry, returned_at), now) == Checkout::Reuse(entry),
        after_checkout(after_checkin(waiting, entry, returned_at)) == waiting,
{
    if entry.due_at(returned_at) {
        lemma_due_stays_due(
            entry.launched_at,
            returned_at,
            now,
            entry.render_count,
            entry.render_count,
        );
    }
    assert(waiting.push(entry).drop_last() =~= waiting);
}

/// A browser due for replacement is never lent out again: lending out either launches a new
/// browser or hands over one that is fit at that time.
pub proof fn lemma_no_worn_browser_is_lent<B>(waiting: Seq<PooledEntry<B>>, now: u64)
    ensures
        checkout_outcome(waiting, now) matches Checkout::Reuse(e) ==> !e.due_at(now),
        checkout_outcome(waiting, now) matches Checkout::Replace(e) ==> e.due_at(now),
{
}

/// A browser never gets older: one that is due for replacement stays due as time goes on and as
/// it renders more pages.
pub proof fn lemma_due_stays_due(launched_at: u64, t1: u64, t2: u64, c1: u64, c2: u64)
    requires
        t1 <= t2,
        c1 <= c2,
        recycle_due(age_at(launched_at, t1), c1),
    ensures
        recycle_due(age_at(launched_at, t2), c2),
{
}

/// The most recently returned browser is lent again when it was launched at most five minutes
/// ago and has rendered fewer than fifty pages; one older than five minutes, or with fifty
/// renders, is replaced by a new one.
pub proof fn lemma_reuse_window<B>(waiting: Seq<PooledEntry<B>>, now: u64)
    requires
        waiting.len() > 0,
    ensures
        waiting.last().launched_at <= now <= waiting.last().launched_at + 300
            && waiting.last().render_count < 50 ==> checkout_outcome(waiting, now)
            == Checkout::Reuse(waiting.last()),
        (now > waiting.last().launched_at + 300 || waiting.last().render_count >= 50)
            ==> checkout_outcome(waiting, now) == Checkout::Replace(waiting.last()),
        after_checkout(waiting) == waiting.drop_last(),
{
}

/// With no browser waiting, lending one out launches a new browser.
pub proof fn lemma_empty_pool_launches<B>(waiting: Seq<PooledEntry<B>>, now: u64)
    requires
        waiting.len() == 0,
    ensures
        checkout_outcome(waiting, now) is Launch,
{
}

} // verus!
