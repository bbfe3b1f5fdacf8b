//! The reporter's tally of echoes confirmed by the clients.
use vstd::prelude::*;

verus! {

/// Message from a client to the reporter: `count` more echoes were confirmed.
#[derive(Debug)]
pub struct ReportUpdate {
    pub count: u64,
}

/// What reaches the reporter.
pub enum ReportEvent {
    /// A client confirmed more echoes.
    Update(ReportUpdate),
    /// Every client has let go of the report channel.
    Closed,
}

/// Running total of confirmed echoes against the number the run waits for.
pub struct ReportTally {
    total: u64,
    max_total: u64,
}

/// The reporter stops once the total reaches the target.
pub open spec fn tally_done(total: int, max_total: int) -> bool {
    total >= max_total
}

/// The reporter is done exactly when the total has reached the target: a
/// total below the target never ends it, and one at or above always does.
pub proof fn lemma_done_exactly_at_target(total: int, max_total: int)
    ensures
        total < max_total ==> !tally_done(total, max_total),
        total >= max_total ==> tally_done(total, max_total),
        tally_done(max_total, max_total),
        !tally_done(max_total - 1, max_total),
{
}

impl ReportTally {
    /// Echoes counted so far.
    pub closed spec fn total_spec(&self) -> u64 {
        self.total
    }

    /// Echoes the run waits for.
    pub closed spec fn max_total_spec(&self) -> u64 {
        self.max_total
    }

    /// A tally at zero that waits for `max_total` echoes.
    pub fn new(max_total: u64) -> (tally: Self)
        ensures
            tally.total_spec() == 0,
            tally.max_total_spec() == max_total,
    {
        ReportTally { total: 0, max_total }
    }

    /// Echoes counted so far.
    pub fn total(&self) -> (total: u64)
        ensures
            total == self.total_spec(),
    {
        self.total
    }

    /// Echoes the run waits for.
    pub fn max_total(&self) -> (max_total: u64)
        ensures
            max_total == self.max_total_spec(),
    {
        self.max_total
    }

    /// Takes what reached the reporter. An update is added to the total; the
    /// reporter finishes, yielding its total, once the total reaches the
    /// target or when no client is left to send updates.
    pub fn step(&mut self, event: ReportEvent) -> (finished: Option<u64>)
        requires
            old(self).total_spec() + match event {
                ReportEvent::Update(u) => u.count,
                ReportEvent::Closed => 0,
            } <= u64::MAX,
        ensures
            final(self).max_total_spec() == old(self).max_total_spec(),
            match event {
                ReportEvent::Update(u) => {
                    &&& final(self).total_spec() == old(self).total_spec() + u.count
                    &&& (finished is Some <==> final(self).total_spec() >= final(self).max_total_spec())
                    &&& (finished matches Some(t) ==> t == final(self).total_spec())
                    &&& finished == if tally_done(final(self).total_spec() as int, final(self).max_total_spec() as int) {
                        Some(final(self).total_spec())
                    } else {
                        None
                    }
                },
                ReportEvent::Closed => {
                    &&& final(self).total_spec() == old(self).total_spec()
                    &&& finished == Some(old(self).total_spec())
                },
            },
    {
        match event {
            ReportEvent::Update(update) => {
                self.total = self.total + update.count;
                if self.total >= self.max_total {
                    Some(self.total)
                } else {
                    None
                }
            },
            ReportEvent::Closed => Some(self.total),
        }
    }
}

} // verus!
