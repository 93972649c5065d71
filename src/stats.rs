//! Per-backend call statistics: totals, per-tool and per-client counts, and
//! a bounded list of the most recent calls.
use vstd::prelude::*;

use crate::table::KeyedTable;

verus! {

/// How many recent calls are kept per backend.
pub const MAX_RECENT_CALLS: usize = 200;

/// How often, in calls, the statistics are written out.
pub const PERSIST_EVERY: u64 = 10;

/// Counts of the calls of one tool.
#[derive(Debug, Clone, Copy, PartialEq, Eq, Structural)]
pub struct ToolStats {
    pub total_calls: u64,
    pub errors: u64,
    pub total_duration_ms: u64,
}

/// One call, as the recent-call list keeps it.
#[derive(Debug, Clone)]
pub struct ToolCallEntry {
    pub tool: String,
    pub client: String,
    pub duration_ms: u64,
    pub is_error: bool,
    /// Seconds since the Unix epoch.
    pub timestamp: u64,
}

/// The statistics of one backend.
pub struct ServerStats {
    pub total_calls: u64,
    pub errors: u64,
    pub total_duration_ms: u64,
    pub tools: KeyedTable<ToolStats>,
    pub clients: KeyedTable<u64>,
    pub recent_calls: Vec<ToolCallEntry>,
}

/// `a + b`, held at the largest `u64`.
pub open spec fn sat_add(a: u64, b: u64) -> u64 {
    if a + b > u64::MAX {
        u64::MAX
    } else {
        (a + b) as u64
    }
}

fn add_sat(a: u64, b: u64) -> (r: u64)
    ensures
        r == sat_add(a, b),
{
    a.saturating_add(b)
}

/// The counts after one more call.
pub open spec fn counted(t: ToolStats, duration_ms: u64, is_error: bool) -> ToolStats {
    ToolStats {
        total_calls: sat_add(t.total_calls, 1),
        errors: if is_error {
            sat_add(t.errors, 1)
        } else {
            t.errors
        },
        total_duration_ms: sat_add(t.total_duration_ms, duration_ms),
    }
}

/// The recent-call list after `e` is added: the oldest beyond the bound go.
pub open spec fn pushed_recent(r: Seq<ToolCallEntry>, e: ToolCallEntry) -> Seq<ToolCallEntry> {
    let s = r.push(e);
    if s.len() > MAX_RECENT_CALLS {
        s.subrange(s.len() - MAX_RECENT_CALLS, s.len() as int)
    } else {
        s
    }
}

impl ToolStats {
    pub fn zero() -> (r: Self)
        ensures
            r == (ToolStats { total_calls: 0, errors: 0, total_duration_ms: 0 }),
    {
        ToolStats { total_calls: 0, errors: 0, total_duration_ms: 0 }
    }

    /// Counts one more call.
    pub fn count(&mut self, duration_ms: u64, is_error: bool)
        ensures
            *final(self) == counted(*old(self), duration_ms, is_error),
    {
        self.total_calls = add_sat(self.total_calls, 1);
        if is_error {
            self.errors = add_sat(self.errors, 1);
        }
        self.total_duration_ms = add_sat(self.total_duration_ms, duration_ms);
    }
}

impl ServerStats {
    pub open spec fn wf(&self) -> bool {
        self.tools.wf() && self.clients.wf() && self.recent_calls@.len() <= MAX_RECENT_CALLS
    }

    /// The totals of this backend, as tool counts.
    pub open spec fn totals(&self) -> ToolStats {
        ToolStats {
            total_calls: self.total_calls,
            errors: self.errors,
            total_duration_ms: self.total_duration_ms,
        }
    }

    pub fn new() -> (r: Self)
        ensures
            r.wf(),
            r.totals() == ToolStats::zero_spec(),
            r.tools@ == Map::<Seq<char>, ToolStats>::empty(),
            r.clients@ == Map::<Seq<char>, u64>::empty(),
            r.recent_calls@ == Seq::<ToolCallEntry>::empty(),
    {
        ServerStats {
            total_calls: 0,
            errors: 0,
            total_duration_ms: 0,
            tools: KeyedTable::new(),
            clients: KeyedTable::new(),
            recent_calls: Vec::new(),
        }
    }

    /// Adds a call to the recent list; beyond `MAX_RECENT_CALLS` the oldest
    /// entries are dropped.
    pub fn push_call(&mut self, entry: ToolCallEntry)
        requires
            old(self).wf(),
        ensures
            final(self).wf(),
            final(self).recent_calls@ == pushed_recent(old(self).recent_calls@, entry),
            final(self).totals() == old(self).totals(),
            final(self).tools@ == old(self).tools@,
            final(self).clients@ == old(self).clients@,
    {
        let ghost s = self.recent_calls@.push(entry);
        self.recent_calls.push(entry);
        if self.recent_calls.len() > MAX_RECENT_CALLS {
            let _ = self.recent_calls.remove(0);
            assert(self.recent_calls@ =~= s.subrange(s.len() - MAX_RECENT_CALLS, s.len() as int));
        }
    }

    /// Records one call of `tool` by `client` (an empty client is not counted
    /// per client).
    pub fn record(
        &mut self,
        tool: &str,
        client: &str,
        duration_ms: u64,
        is_error: bool,
        timestamp: u64,
    )
        requires
            old(self).wf(),
        ensures
            final(self).wf(),
            final(self).totals() == counted(old(self).totals(), duration_ms, is_error),
            final(self).tools@ == old(self).tools@.insert(
                tool@,
                counted(
                    if old(self).tools@.contains_key(tool@) {
                        old(self).tools@[tool@]
                    } else {
                        ToolStats::zero_spec()
                    },
                    duration_ms,
                    is_error,
                ),
            ),
            client@.len() == 0 ==> final(self).clients@ == old(self).clients@,
            client@.len() > 0 ==> final(self).clients@ == old(self).clients@.insert(
                client@,
                sat_add(
                    if old(self).clients@.contains_key(client@) {
                        old(self).clients@[client@]
                    } else {
                        0
                    },
                    1,
                ),
            ),
            final(self).recent_calls@.len() > 0,
            final(self).recent_calls@ == pushed_recent(
                old(self).recent_calls@,
                final(self).recent_calls@.last(),
            ),
            final(self).recent_calls@.last().tool@ == tool@,
            final(self).recent_calls@.last().client@ == client@,
            final(self).recent_calls@.last().duration_ms == duration_ms,
            final(self).recent_calls@.last().is_error == is_error,
            final(self).recent_calls@.last().timestamp == timestamp,
    {
        let mut totals = ToolStats {
            total_calls: self.total_calls,
            errors: self.errors,
            total_duration_ms: self.total_duration_ms,
        };
        totals.count(duration_ms, is_error);
        self.total_calls = totals.total_calls;
        self.errors = totals.errors;
        self.total_duration_ms = totals.total_duration_ms;

        let mut t = match self.tools.get(tool) {
            Some(t) => *t,
            None => ToolStats::zero(),
        };
        t.count(duration_ms, is_error);
        self.tools.insert(tool.to_owned(), t);

        if !client.is_empty() {
            let n = match self.clients.get(client) {
                Some(n) => *n,
                None => 0,
            };
            self.clients.insert(client.to_owned(), add_sat(n, 1));
        }
        let entry = ToolCallEntry {
            tool: tool.to_owned(),
            client: client.to_owned(),
            duration_ms,
            is_error,
            timestamp,
        };
        self.push_call(entry);
    }
}

impl ToolStats {
    pub open spec fn zero_spec() -> ToolStats {
        ToolStats { total_calls: 0, errors: 0, total_duration_ms: 0 }
    }
}

/// Whether the statistics are to be written out after this many calls.
pub fn should_persist(total_calls: u64) -> (r: bool)
    ensures
        r == (total_calls % PERSIST_EVERY == 0),
{
    total_calls % PERSIST_EVERY == 0
}

/// Relies on `SystemTime::now` and `duration_since(UNIX_EPOCH)`: seconds
/// since the epoch (0 for a clock set before it).
#[verifier::external_body]
pub fn unix_now() -> (r: u64) {
    std::time::SystemTime::now()
        .duration_since(std::time::UNIX_EPOCH)
        .map(|d| d.as_secs())
        .unwrap_or(0)
}

} // verus!
