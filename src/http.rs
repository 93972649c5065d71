//! The decisions of the HTTP transport: which mode a URL takes, the headers
//! of each request, how a status or body is read, the session id, and the
//! state of a legacy event-stream connection.
use vstd::prelude::*;

use crate::error::AppError;
use crate::pending::PendingTable;
use crate::rpc::{key_of, response_key, WireId};
use crate::sse::{
    block_payload, extract_json_from_sse, lf_only, message_payload, next_event_block,
    normalize_newlines, sse_json,
};
use crate::text::{
    cat, chars_of, concat, contains, ends_with, find_spec, has_substring, has_suffix, string_of,
};

verus! {

/// A URL that ends in `/sse` names a legacy event-stream endpoint.
pub fn is_legacy_sse_url(url: &str) -> (r: bool)
    ensures
        r == has_suffix(url@, "/sse"@),
{
    ends_with(chars_of(url).as_slice(), chars_of("/sse").as_slice())
}

pub open spec fn hdr(k: Seq<char>, v: Seq<char>) -> (Seq<char>, Seq<char>) {
    (k, v)
}

pub open spec fn header_views(h: Seq<(String, String)>) -> Seq<(Seq<char>, Seq<char>)> {
    h.map_values(|x: (String, String)| (x.0@, x.1@))
}

pub open spec fn opt_str(o: Option<&str>) -> Option<Seq<char>> {
    match o {
        Some(s) => Some(s@),
        None => None,
    }
}

/// The headers of a POST: JSON in, JSON or an event stream out, the
/// configured extra headers, the bearer token and the session id if any.
pub open spec fn post_headers_spec(
    extra: Seq<(Seq<char>, Seq<char>)>,
    token: Option<Seq<char>>,
    session: Option<Seq<char>>,
) -> Seq<(Seq<char>, Seq<char>)> {
    seq![
        hdr("Content-Type"@, "application/json"@),
        hdr("Accept"@, "application/json, text/event-stream"@),
    ] + extra + match token {
        Some(t) => seq![hdr("Authorization"@, "Bearer "@ + t)],
        None => Seq::empty(),
    } + match session {
        Some(s) => seq![hdr("Mcp-Session-Id"@, s)],
        None => Seq::empty(),
    }
}

/// The headers of the GET that opens a legacy stream.
pub open spec fn stream_headers_spec(extra: Seq<(Seq<char>, Seq<char>)>, token: Option<Seq<char>>) -> Seq<(Seq<char>, Seq<char>)> {
    seq![hdr("Accept"@, "text/event-stream"@)] + extra + match token {
        Some(t) => seq![hdr("Authorization"@, "Bearer "@ + t)],
        None => Seq::empty(),
    }
}

fn push_header(v: &mut Vec<(String, String)>, k: &str, val: String)
    ensures
        header_views(final(v)@) == header_views(old(v)@).push(hdr(k@, val@)),
{
    let ghost before = header_views(v@);
    v.push((k.to_owned(), val));
    assert(header_views(v@) =~= before.push(hdr(k@, val@)));
}

fn push_extra(v: &mut Vec<(String, String)>, extra: &Vec<(String, String)>)
    ensures
        header_views(final(v)@) == header_views(old(v)@) + header_views(extra@),
{
    let mut i: usize = 0;
    let ghost start = header_views(v@);
    while i < extra.len()
        invariant
            i <= extra@.len(),
            header_views(v@) == start + header_views(extra@).subrange(0, i as int),
        decreases extra@.len() - i,
    {
        let ghost before = header_views(v@);
        v.push((extra[i].0.clone(), extra[i].1.clone()));
        assert(header_views(v@) =~= before.push(hdr(extra@[i as int].0@, extra@[i as int].1@)));
        assert(header_views(extra@).subrange(0, i + 1) =~= header_views(extra@).subrange(0, i as int).push(
            header_views(extra@)[i as int],
        ));
        assert(start + header_views(extra@).subrange(0, i + 1) =~= (start + header_views(extra@).subrange(0, i as int)).push(
            header_views(extra@)[i as int],
        ));
        i = i + 1;
    }
    assert(header_views(extra@).subrange(0, i as int) =~= header_views(extra@));
}

/// The headers of a POST (see `post_headers_spec`).
pub fn post_headers(extra: &Vec<(String, String)>, token: Option<&str>, session: Option<&str>) -> (r: Vec<(String, String)>)
    ensures
        header_views(r@) == post_headers_spec(header_views(extra@), opt_str(token), opt_str(session)),
{
    let mut v: Vec<(String, String)> = Vec::new();
    assert(header_views(v@) =~= Seq::<(Seq<char>, Seq<char>)>::empty());
    push_header(&mut v, "Content-Type", "application/json".to_owned());
    push_header(&mut v, "Accept", "application/json, text/event-stream".to_owned());
    push_extra(&mut v, extra);
    if let Some(t) = token {
        push_header(&mut v, "Authorization", cat("Bearer ", t));
    }
    if let Some(s) = session {
        push_header(&mut v, "Mcp-Session-Id", s.to_owned());
    }
    assert(header_views(v@) =~= post_headers_spec(header_views(extra@), opt_str(token), opt_str(session)));
    v
}

/// The headers of the GET that opens a legacy stream.
pub fn stream_headers(extra: &Vec<(String, String)>, token: Option<&str>) -> (r: Vec<(String, String)>)
    ensures
        header_views(r@) == stream_headers_spec(header_views(extra@), opt_str(token)),
{
    let mut v: Vec<(String, String)> = Vec::new();
    assert(header_views(v@) =~= Seq::<(Seq<char>, Seq<char>)>::empty());
    push_header(&mut v, "Accept", "text/event-stream".to_owned());
    push_extra(&mut v, extra);
    if let Some(t) = token {
        push_header(&mut v, "Authorization", cat("Bearer ", t));
    }
    assert(header_views(v@) =~= stream_headers_spec(header_views(extra@), opt_str(token)));
    v
}

/// The session id to send next: a newly issued one replaces the old.
pub fn next_session(current: Option<String>, issued: Option<String>) -> (r: Option<String>)
    ensures
        r == (if issued is Some {
            issued
        } else {
            current
        }),
{
    match issued {
        Some(s) => Some(s),
        None => current,
    }
}

/// Reads the status of a POST answer: 401 asks for authorization (naming
/// the URL); any other status outside 2xx is a transport failure.
pub fn check_post_status(status: u16, status_text: &str, method: &str, url: &str) -> (r: Result<(), AppError>)
    ensures
        status == 401 ==> (r matches Err(AppError::AuthRequired(u)) && u@ == url@),
        status != 401 && !(200 <= status < 300) ==> (r matches Err(AppError::Transport(m)) && m@
            == "HTTP request for "@ + method@ + " returned status "@ + status_text@),
        200 <= status < 300 ==> r is Ok,
{
    if status == 401 {
        Err(AppError::AuthRequired(url.to_owned()))
    } else if !(200 <= status && status < 300) {
        let a = cat("HTTP request for ", method);
        let b = cat(a.as_str(), " returned status ");
        Err(AppError::Transport(cat(b.as_str(), status_text)))
    } else {
        Ok(())
    }
}

/// Reads the status of the GET that opens a legacy stream.
pub fn check_stream_status(status: u16, status_text: &str, url: &str) -> (r: Result<(), AppError>)
    ensures
        status == 401 ==> (r matches Err(AppError::AuthRequired(u)) && u@ == url@),
        status != 401 && !(200 <= status < 300) ==> (r matches Err(AppError::Transport(m)) && m@
            == "SSE endpoint returned status "@ + status_text@),
        200 <= status < 300 ==> r is Ok,
{
    if status == 401 {
        Err(AppError::AuthRequired(url.to_owned()))
    } else if !(200 <= status && status < 300) {
        Err(AppError::Transport(cat("SSE endpoint returned status ", status_text)))
    } else {
        Ok(())
    }
}

/// The JSON-RPC text of a streamable answer: the body itself, or, for an
/// event-stream content type, the last message data in it.
pub fn response_json_text(content_type: &str, body: String) -> (r: Result<String, AppError>)
    ensures
        !contains(content_type@, "text/event-stream"@) ==> r == Ok::<String, AppError>(body),
        contains(content_type@, "text/event-stream"@) ==> match sse_json(body@) {
            Some(t) => r matches Ok(s) && s@ == t,
            None => r matches Err(AppError::Transport(m)) && m@
                == "No JSON data found in SSE response"@,
        },
{
    if has_substring(chars_of(content_type).as_slice(), chars_of("text/event-stream").as_slice()) {
        extract_json_from_sse(body.as_str())
    } else {
        Ok(body)
    }
}

/// The state of a legacy event-stream connection: the data read and not
/// yet parsed, and the requests that await their answer on the stream.
pub struct LegacyStream<S> {
    buffer: Vec<char>,
    pending: PendingTable<S>,
}

impl<S> LegacyStream<S> {
    pub closed spec fn wf(&self) -> bool {
        self.pending.wf()
    }

    pub closed spec fn buffer_view(&self) -> Seq<char> {
        self.buffer@
    }

    pub closed spec fn pending_view(&self) -> Map<u64, S> {
        self.pending@
    }

    /// Starts from what was read past the `endpoint` event.
    pub fn new(remaining: &str) -> (r: Self)
        ensures
            r.wf(),
            r.buffer_view() == remaining@,
            r.pending_view() == Map::<u64, S>::empty(),
    {
        LegacyStream { buffer: chars_of(remaining), pending: PendingTable::new() }
    }

    /// Appends a chunk of the stream, with its line breaks made plain.
    pub fn feed(&mut self, chunk: &str)
        requires
            old(self).wf(),
        ensures
            final(self).wf(),
            final(self).buffer_view() == old(self).buffer_view() + lf_only(chunk@),
            final(self).pending_view() == old(self).pending_view(),
    {
        let c = normalize_newlines(chars_of(chunk).as_slice());
        self.buffer = concat(self.buffer.as_slice(), c.as_slice());
    }

    /// Takes the next complete event block off the buffer: `None` when there
    /// is none yet, else the JSON-RPC text it carries, if any.
    pub fn next_payload(&mut self) -> (r: Option<Option<String>>)
        requires
            old(self).wf(),
        ensures
            final(self).wf(),
            final(self).pending_view() == old(self).pending_view(),
            match find_spec(old(self).buffer_view(), "\n\n"@) {
                Some(e) => final(self).buffer_view() == old(self).buffer_view().subrange(
                    e + "\n\n"@.len(),
                    old(self).buffer_view().len() as int,
                ) && (r matches Some(p) && match block_payload(old(self).buffer_view().subrange(0, e)) {
                    Some(t) => p matches Some(s) && s@ == t,
                    None => p is None,
                }),
                None => r is None && final(self).buffer_view() == old(self).buffer_view(),
            },
    {
        match next_event_block(&mut self.buffer) {
            None => None,
            Some(block) => match message_payload(block.as_slice()) {
                Some(p) => Some(Some(string_of(p.as_slice()))),
                None => Some(None),
            },
        }
    }

    /// Registers a request's slot before the request is posted.
    pub fn register(&mut self, id: u64, slot: S)
        requires
            old(self).wf(),
        ensures
            final(self).wf(),
            final(self).pending_view() == old(self).pending_view().insert(id, slot),
            final(self).buffer_view() == old(self).buffer_view(),
    {
        let _ = self.pending.insert(id, slot);
    }

    /// The slot of the request that a response answers. A response whose id
    /// is unknown, already answered or timed out finds none and is dropped.
    pub fn complete(&mut self, id: &WireId) -> (r: Option<S>)
        requires
            old(self).wf(),
        ensures
            final(self).wf(),
            final(self).buffer_view() == old(self).buffer_view(),
            match key_of(*id) {
                Some(k) => final(self).pending_view() == old(self).pending_view().remove(k) && r == (
                if old(self).pending_view().contains_key(k) {
                    Some(old(self).pending_view()[k])
                } else {
                    None
                }),
                None => r is None && final(self).pending_view() == old(self).pending_view(),
            },
    {
        match response_key(id) {
            Some(k) => self.pending.take(k),
            None => None,
        }
    }

    /// Drops a request whose wait timed out or whose post failed.
    pub fn cancel(&mut self, id: u64) -> (r: Option<S>)
        requires
            old(self).wf(),
        ensures
            final(self).wf(),
            final(self).buffer_view() == old(self).buffer_view(),
            final(self).pending_view() == old(self).pending_view().remove(id),
            r == (if old(self).pending_view().contains_key(id) {
                Some(old(self).pending_view()[id])
            } else {
                None
            }),
    {
        self.pending.take(id)
    }

    /// The stream closed: every waiting request is handed back to be failed.
    pub fn close(&mut self) -> (r: Vec<(u64, S)>)
        requires
            old(self).wf(),
        ensures
            final(self).wf(),
            final(self).pending_view() == Map::<u64, S>::empty(),
            r@.len() == old(self).pending_view().dom().len(),
            forall|id: u64| #[trigger] old(self).pending_view().contains_key(id) ==> exists|i: int|
                0 <= i < r@.len() && #[trigger] r@[i].0 == id,
            forall|i: int|
                #![auto]
                0 <= i < r@.len() ==> old(self).pending_view().contains_key(r@[i].0) && old(
                    self,
                ).pending_view()[r@[i].0] == r@[i].1,
    {
        self.pending.drain()
    }
}

/// A legacy-stream request is completed once: when its answer arrives it is
/// handed its slot, and any later event with the same id finds nothing.
pub proof fn lemma_answered_once<S>(m: Map<u64, S>, id: u64, slot: S)
    ensures
        m.insert(id, slot).contains_key(id),
        m.insert(id, slot)[id] == slot,
        !m.insert(id, slot).remove(id).contains_key(id),
{
}

} // verus!
