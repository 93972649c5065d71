//! The bookkeeping of a transport that runs a backend as a child process:
//! request ids, output split into lines, the diagnostic stream's levels and
//! its recent errors, and failing every outstanding request on exit.
use vstd::prelude::*;

use crate::error::AppError;
use crate::pending::PendingTable;
use crate::rpc::WireId;
use crate::text::{
    chars_of, concat, contains, copy_range, find, find_spec, has_prefix, has_substring,
    starts_with, string_of, trim, trim_chars,
};

verus! {

/// How many recent error lines of the diagnostic stream are kept.
pub const STDERR_BUFFER_SIZE: usize = 10;

/// Relies on `str::to_uppercase`: the result depends on the characters alone.
pub uninterp spec fn upper_of(s: Seq<char>) -> Seq<char>;

/// Relies on `str::to_uppercase` (Unicode upper-case mapping).
#[verifier::external_body]
fn to_upper(s: &str) -> (r: Vec<char>)
    ensures
        r@ == upper_of(s@),
{
    s.to_uppercase().chars().collect()
}

/// The level that an upper-cased diagnostic line reads as.
pub open spec fn level_of(u: Seq<char>) -> Seq<char> {
    if contains(u, " ERROR "@) || contains(u, "TRACEBACK"@) || contains(u, "ERROR:"@) || has_prefix(
        u,
        "ERROR "@,
    ) || contains(u, "THROW ERR"@) {
        "error"@
    } else if contains(u, "WARNING"@) || contains(u, "USERWARNING"@) {
        "warn"@
    } else if contains(u, " INFO "@) || contains(u, "LEVEL=INFO"@) || has_prefix(u, "INFO "@)
        || contains(u, " DEBUG "@) {
        "info"@
    } else {
        "warn"@
    }
}

/// The level of an upper-cased diagnostic line: `error`, `warn` or `info`.
pub fn level_of_upper(u: &[char]) -> (r: &'static str)
    ensures
        r@ == level_of(u@),
{
    if has_substring(u, chars_of(" ERROR ").as_slice()) || has_substring(
        u,
        chars_of("TRACEBACK").as_slice(),
    ) || has_substring(u, chars_of("ERROR:").as_slice()) || starts_with(
        u,
        chars_of("ERROR ").as_slice(),
    ) || has_substring(u, chars_of("THROW ERR").as_slice()) {
        "error"
    } else if has_substring(u, chars_of("WARNING").as_slice()) || has_substring(
        u,
        chars_of("USERWARNING").as_slice(),
    ) {
        "warn"
    } else if has_substring(u, chars_of(" INFO ").as_slice()) || has_substring(
        u,
        chars_of("LEVEL=INFO").as_slice(),
    ) || starts_with(u, chars_of("INFO ").as_slice()) || has_substring(
        u,
        chars_of(" DEBUG ").as_slice(),
    ) {
        "info"
    } else {
        "warn"
    }
}

/// Whether an upper-cased diagnostic line reads as an error.
pub fn reads_as_error(u: &[char]) -> (r: bool)
    ensures
        r == (level_of(u@) == "error"@),
{
    proof {
        reveal_strlit("error");
        reveal_strlit("warn");
        reveal_strlit("info");
        assert("warn"@.len() == 4);
        assert("error"@.len() == 5);
        assert("info"@.len() == 4);
    }
    has_substring(u, chars_of(" ERROR ").as_slice()) || has_substring(
        u,
        chars_of("TRACEBACK").as_slice(),
    ) || has_substring(u, chars_of("ERROR:").as_slice()) || starts_with(
        u,
        chars_of("ERROR ").as_slice(),
    ) || has_substring(u, chars_of("THROW ERR").as_slice())
}

/// The level of a diagnostic line. Many servers write all their logging to
/// the diagnostic stream, so the level is read from the text itself.
pub fn detect_log_level(text: &str) -> (r: &'static str)
    ensures
        r@ == level_of(upper_of(text@)),
{
    let upper = to_upper(text);
    level_of_upper(upper.as_slice())
}

/// The next non-blank line of the output buffer, trimmed, and what is left
/// of the buffer; blank lines before it are consumed.
pub open spec fn next_line_spec(b: Seq<char>) -> (Option<Seq<char>>, Seq<char>)
    decreases b.len(),
{
    match find_spec(b, "\n"@) {
        Some(p) => if 0 <= p < b.len() {
            let l = trim(b.subrange(0, p));
            let rest = b.subrange(p + 1, b.len() as int);
            if l.len() == 0 {
                next_line_spec(rest)
            } else {
                (Some(l), rest)
            }
        } else {
            (None, b)
        },
        None => (None, b),
    }
}

/// `ring` after `x` is added, the oldest line dropped beyond `cap` lines.
pub open spec fn push_bounded(ring: Seq<Seq<char>>, x: Seq<char>, cap: int) -> Seq<Seq<char>> {
    if ring.len() + 1 > cap {
        ring.push(x).subrange(1, ring.len() + 1 as int)
    } else {
        ring.push(x)
    }
}

/// Lines joined with newlines.
pub open spec fn join_lines(ls: Seq<Seq<char>>) -> Seq<char>
    decreases ls.len(),
{
    if ls.len() == 0 {
        Seq::empty()
    } else if ls.len() == 1 {
        ls[0]
    } else {
        join_lines(ls.drop_last()) + "\n"@ + ls.last()
    }
}

/// The message with which outstanding requests fail when the process is
/// gone: its recent error lines, or the fallback when there are none.
pub open spec fn exit_text(ring: Seq<Seq<char>>) -> Seq<char> {
    if ring.len() == 0 {
        "Server process exited unexpectedly"@
    } else {
        join_lines(ring)
    }
}

/// When the process has left error lines behind, the failure of its
/// outstanding requests ends with the latest of them.
pub proof fn lemma_exit_text_ends_with_last_error(ring: Seq<Seq<char>>)
    requires
        ring.len() > 0,
    ensures
        crate::text::has_suffix(exit_text(ring), ring.last()),
{
    let t = exit_text(ring);
    let l = ring.last();
    if ring.len() == 1 {
        assert(t == l);
        assert(t.subrange(t.len() - l.len(), t.len() as int) =~= l);
    } else {
        assert(t == join_lines(ring.drop_last()) + "\n"@ + l);
        assert(t.subrange(t.len() - l.len(), t.len() as int) =~= l);
    }
}

/// The state of a process transport. `S` is the slot through which a
/// waiting caller is completed.
pub struct StdioSession<S> {
    next_id: u64,
    pending: PendingTable<S>,
    stdout: Vec<char>,
    recent_stderr: Vec<Vec<char>>,
}

pub open spec fn line_views(v: Seq<Vec<char>>) -> Seq<Seq<char>> {
    v.map_values(|x: Vec<char>| x@)
}

impl<S> StdioSession<S> {
    pub closed spec fn wf(&self) -> bool {
        self.pending.wf() && self.recent_stderr@.len() <= STDERR_BUFFER_SIZE
    }

    /// The requests that await a response.
    pub closed spec fn pending_view(&self) -> Map<u64, S> {
        self.pending@
    }

    /// The id the next request gets.
    pub closed spec fn next_id_view(&self) -> u64 {
        self.next_id
    }

    /// Output received and not yet split into lines.
    pub closed spec fn stdout_view(&self) -> Seq<char> {
        self.stdout@
    }

    /// The recent error lines of the diagnostic stream, oldest first.
    pub closed spec fn stderr_view(&self) -> Seq<Seq<char>> {
        line_views(self.recent_stderr@)
    }

    pub fn new() -> (r: Self)
        ensures
            r.wf(),
            r.pending_view() == Map::<u64, S>::empty(),
            r.next_id_view() == 1,
            r.stdout_view() == Seq::<char>::empty(),
            r.stderr_view() == Seq::<Seq<char>>::empty(),
    {
        let r = StdioSession {
            next_id: 1,
            pending: PendingTable::new(),
            stdout: Vec::new(),
            recent_stderr: Vec::new(),
        };
        assert(line_views(r.recent_stderr@) =~= Seq::<Seq<char>>::empty());
        r
    }

    /// Gives a request its id and registers its slot before it is sent.
    pub fn begin_request(&mut self, slot: S) -> (r: u64)
        requires
            old(self).wf(),
        ensures
            final(self).wf(),
            r == old(self).next_id_view(),
            final(self).next_id_view() == (if r == u64::MAX { 0 } else { (r + 1) as u64 }),
            final(self).pending_view() == old(self).pending_view().insert(r, slot),
            final(self).stdout_view() == old(self).stdout_view(),
            final(self).stderr_view() == old(self).stderr_view(),
    {
        let id = self.next_id;
        self.next_id = if id == u64::MAX { 0 } else { id + 1 };
        let _ = self.pending.insert(id, slot);
        id
    }

    /// Drops a request that timed out; a late response then finds nothing.
    pub fn cancel(&mut self, id: u64) -> (r: Option<S>)
        requires
            old(self).wf(),
        ensures
            final(self).wf(),
            final(self).pending_view() == old(self).pending_view().remove(id),
            r == (if old(self).pending_view().contains_key(id) {
                Some(old(self).pending_view()[id])
            } else {
                None
            }),
            final(self).next_id_view() == old(self).next_id_view(),
            final(self).stderr_view() == old(self).stderr_view(),
            final(self).stdout_view() == old(self).stdout_view(),
    {
        self.pending.take(id)
    }

    /// The slot of the request that a response answers; a response whose id
    /// is not an outstanding number is a notification and finds none.
    pub fn deliver(&mut self, id: &WireId) -> (r: Option<S>)
        requires
            old(self).wf(),
        ensures
            final(self).wf(),
            match *id {
                WireId::Number(n) => final(self).pending_view() == old(self).pending_view().remove(
                    n,
                ) && r == (if old(self).pending_view().contains_key(n) {
                    Some(old(self).pending_view()[n])
                } else {
                    None
                }),
                _ => r is None && final(self).pending_view() == old(self).pending_view(),
            },
            final(self).next_id_view() == old(self).next_id_view(),
            final(self).stderr_view() == old(self).stderr_view(),
            final(self).stdout_view() == old(self).stdout_view(),
    {
        match id {
            WireId::Number(n) => self.pending.take(*n),
            _ => None,
        }
    }

    /// Appends a chunk of the process's output.
    pub fn push_stdout(&mut self, chunk: &str)
        requires
            old(self).wf(),
        ensures
            final(self).wf(),
            final(self).stdout_view() == old(self).stdout_view() + chunk@,
            final(self).pending_view() == old(self).pending_view(),
            final(self).next_id_view() == old(self).next_id_view(),
            final(self).stderr_view() == old(self).stderr_view(),
    {
        let c = chars_of(chunk);
        self.stdout = concat(self.stdout.as_slice(), c.as_slice());
    }

    /// The next complete non-blank output line, trimmed.
    pub fn next_line(&mut self) -> (r: Option<String>)
        requires
            old(self).wf(),
        ensures
            final(self).wf(),
            match next_line_spec(old(self).stdout_view()).0 {
                Some(l) => r matches Some(s) && s@ == l,
                None => r is None,
            },
            final(self).stdout_view() == next_line_spec(old(self).stdout_view()).1,
            final(self).pending_view() == old(self).pending_view(),
            final(self).next_id_view() == old(self).next_id_view(),
            final(self).stderr_view() == old(self).stderr_view(),
    {
        let nl = chars_of("\n");
        proof {
            reveal_strlit("\n");
        }
        loop
            invariant
                self.wf(),
                nl@ == "\n"@,
                next_line_spec(old(self).stdout_view()) == next_line_spec(self.stdout@),
                self.pending@ == old(self).pending_view(),
                self.next_id == old(self).next_id_view(),
                line_views(self.recent_stderr@) == old(self).stderr_view(),
            decreases self.stdout@.len(),
        {
            match find(self.stdout.as_slice(), nl.as_slice()) {
                None => {
                    return None;
                },
                Some(p) => {
                    assert(self.stdout@.len() == self.stdout.len());
                    assert(p + nl@.len() <= self.stdout@.len());
                    proof {
                        reveal_strlit("\n");
                    }
                    assert(nl@.len() == 1);
                    let raw = copy_range(self.stdout.as_slice(), 0, p);
                    let line = trim_chars(raw.as_slice());
                    let rest = copy_range(self.stdout.as_slice(), p + 1, self.stdout.len());
                    self.stdout = rest;
                    if line.len() > 0 {
                        return Some(string_of(line.as_slice()));
                    }
                },
            }
        }
    }

    /// Takes in one chunk of the diagnostic stream and returns its level;
    /// error lines are kept, the last `STDERR_BUFFER_SIZE` of them.
    pub fn record_stderr(&mut self, text: &str) -> (r: Option<&'static str>)
        requires
            old(self).wf(),
        ensures
            final(self).wf(),
            trim(text@).len() == 0 ==> r is None && final(self).stderr_view() == old(
                self,
            ).stderr_view(),
            trim(text@).len() > 0 ==> (r matches Some(l) && l@ == level_of(upper_of(trim(text@)))),
            trim(text@).len() > 0 && level_of(upper_of(trim(text@))) == "error"@
                ==> final(self).stderr_view() == push_bounded(
                old(self).stderr_view(),
                trim(text@),
                STDERR_BUFFER_SIZE as int,
            ),
            trim(text@).len() > 0 && level_of(upper_of(trim(text@))) != "error"@
                ==> final(self).stderr_view() == old(self).stderr_view(),
            final(self).pending_view() == old(self).pending_view(),
            final(self).next_id_view() == old(self).next_id_view(),
            final(self).stdout_view() == old(self).stdout_view(),
    {
        let t = trim_chars(chars_of(text).as_slice());
        if t.len() == 0 {
            return None;
        }
        let s = string_of(t.as_slice());
        let upper = to_upper(s.as_str());
        let level = level_of_upper(upper.as_slice());
        if reads_as_error(upper.as_slice()) {
            let ghost before = line_views(self.recent_stderr@);
            self.recent_stderr.push(t);
            assert(line_views(self.recent_stderr@) =~= before.push(s@));
            if self.recent_stderr.len() > STDERR_BUFFER_SIZE {
                let _ = self.recent_stderr.remove(0);
                assert(line_views(self.recent_stderr@) =~= before.push(s@).subrange(
                    1,
                    before.len() + 1 as int,
                ));
            }
        }
        Some(level)
    }

    /// The error with which requests fail once the process has exited.
    pub fn exit_error(&self) -> (r: AppError)
        requires
            self.wf(),
        ensures
            r matches AppError::Transport(m) && m@ == exit_text(self.stderr_view()),
    {
        if self.recent_stderr.len() == 0 {
            return AppError::Transport(
                string_of(chars_of("Server process exited unexpectedly").as_slice()),
            );
        }
        let mut out = copy_range(self.recent_stderr[0].as_slice(), 0, self.recent_stderr[0].len());
        let mut i: usize = 1;
        let ghost ring = line_views(self.recent_stderr@);
        assert(ring.subrange(0, 1).drop_last() =~= Seq::<Seq<char>>::empty());
        assert(join_lines(ring.subrange(0, 1)) == ring[0]);
        while i < self.recent_stderr.len()
            invariant
                1 <= i <= self.recent_stderr@.len(),
                ring == line_views(self.recent_stderr@),
                out@ == join_lines(ring.subrange(0, i as int)),
            decreases self.recent_stderr@.len() - i,
        {
            let with_nl = concat(out.as_slice(), chars_of("\n").as_slice());
            out = concat(with_nl.as_slice(), self.recent_stderr[i].as_slice());
            assert(ring.subrange(0, i + 1).drop_last() =~= ring.subrange(0, i as int));
            i = i + 1;
        }
        assert(ring.subrange(0, i as int) =~= ring);
        AppError::Transport(string_of(out.as_slice()))
    }

    /// The process has exited: every outstanding request is handed back at
    /// once, to be failed with `exit_error` rather than wait for its timeout.
    pub fn terminate(&mut self) -> (r: Vec<(u64, S)>)
        requires
            old(self).wf(),
        ensures
            final(self).wf(),
            final(self).pending_view() == Map::<u64, S>::empty(),
            r@.len() == old(self).pending_view().dom().len(),
            forall|id: u64| #[trigger] old(self).pending_view().contains_key(id) ==> exists|i: int|
                0 <= i < r@.len() && #[trigger] r@[i].0 == id,
            forall|i: int|
                #![auto]
                0 <= i < r@.len() ==> old(self).pending_view().contains_key(r@[i].0) && old(
                    self,
                ).pending_view()[r@[i].0] == r@[i].1,
            final(self).stderr_view() == old(self).stderr_view(),
            final(self).next_id_view() == old(self).next_id_view(),
    {
        self.pending.drain()
    }
}

} // verus!
