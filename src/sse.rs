//! Event-stream parsing: `event:` / `data:` lines, the `endpoint` event of a
//! legacy stream, and complete event blocks cut from a growing buffer.
use vstd::prelude::*;

use crate::error::AppError;
use crate::text::{
    chars_of, concat, copy_range, eq_chars, find, find_spec, has_prefix, lines_of, split_lines,
    starts_with, string_of, trim, trim_chars, views,
};

verus! {

pub open spec fn is_event_line(l: Seq<char>) -> bool {
    has_prefix(l, "event:"@)
}

/// A `data:` line (a line is read as an event line first).
pub open spec fn is_data_line(l: Seq<char>) -> bool {
    !is_event_line(l) && has_prefix(l, "data:"@)
}

/// The trimmed text after a field's tag.
pub open spec fn field_value(l: Seq<char>, tag: Seq<char>) -> Seq<char> {
    trim(l.subrange(tag.len() as int, l.len() as int))
}

/// The event type in effect at line `i`: the value of the latest `event:`
/// line of its event, or empty. A blank line ends an event, so the type
/// does not carry over to the next one.
pub open spec fn event_in_effect(ls: Seq<Seq<char>>, i: int) -> Seq<char>
    decreases i,
{
    if i <= 0 {
        Seq::empty()
    } else if ls[i - 1].len() == 0 {
        Seq::empty()
    } else if is_event_line(ls[i - 1]) {
        field_value(ls[i - 1], "event:"@)
    } else {
        event_in_effect(ls, i - 1)
    }
}

/// An event type that carries a JSON-RPC message: none, or `message`.
pub open spec fn is_message_type(e: Seq<char>) -> bool {
    e.len() == 0 || e == "message"@
}

pub open spec fn message_data_at(ls: Seq<Seq<char>>, i: int) -> bool {
    is_data_line(ls[i]) && is_message_type(event_in_effect(ls, i))
}

/// The last line among the first `n` that carries message data.
pub open spec fn last_message_data(ls: Seq<Seq<char>>, n: int) -> Option<int>
    decreases n,
{
    if n <= 0 {
        None
    } else if message_data_at(ls, n - 1) {
        Some(n - 1)
    } else {
        last_message_data(ls, n - 1)
    }
}

/// What a streamable-HTTP event-stream body yields as its JSON-RPC text:
/// the last message data, or nothing.
pub open spec fn sse_json(body: Seq<char>) -> Option<Seq<char>> {
    let ls = lines_of(body);
    match last_message_data(ls, ls.len() as int) {
        Some(j) => Some(field_value(ls[j], "data:"@)),
        None => None,
    }
}

fn field_after(line: &Vec<char>, tag: &Vec<char>) -> (r: Vec<char>)
    requires
        tag@.len() <= line@.len(),
    ensures
        r@ == field_value(line@, tag@),
{
    let rest = copy_range(line.as_slice(), tag.len(), line.len());
    trim_chars(rest.as_slice())
}

proof fn lemma_views_index(v: Seq<Vec<char>>, i: int)
    requires
        0 <= i < v.len(),
    ensures
        views(v)[i] == v[i]@,
        views(v).len() == v.len(),
{
}

/// The JSON-RPC text of an event-stream response body: the last `data:`
/// value of an unnamed or `message` event. Intermediate events are progress.
pub fn extract_json_from_sse(body: &str) -> (r: Result<String, AppError>)
    ensures
        match sse_json(body@) {
            Some(t) => r matches Ok(s) && s@ == t,
            None => r matches Err(AppError::Transport(m)) && m@
                == "No JSON data found in SSE response"@,
        },
{
    let chars = chars_of(body);
    let lines = split_lines(chars.as_slice());
    let ghost ls = lines_of(body@);
    let ev_tag = chars_of("event:");
    let data_tag = chars_of("data:");
    let message = chars_of("message");
    let mut current: Vec<char> = Vec::new();
    let mut last: Option<Vec<char>> = None;
    let mut i: usize = 0;
    while i < lines.len()
        invariant
            i <= lines@.len(),
            views(lines@) == ls,
            ev_tag@ == "event:"@,
            data_tag@ == "data:"@,
            message@ == "message"@,
            current@ == event_in_effect(ls, i as int),
            match last_message_data(ls, i as int) {
                Some(j) => last matches Some(v) && v@ == field_value(ls[j], "data:"@),
                None => last is None,
            },
        decreases lines@.len() - i,
    {
        proof {
            lemma_views_index(lines@, i as int);
        }
        let line = &lines[i];
        if line.len() == 0 {
            proof {
                reveal_strlit("data:");
                assert(!has_prefix(line@, "data:"@));
            }
            current = Vec::new();
        } else if starts_with(line.as_slice(), ev_tag.as_slice()) {
            current = field_after(line, &ev_tag);
        } else if starts_with(line.as_slice(), data_tag.as_slice()) {
            if current.len() == 0 || eq_chars(current.as_slice(), message.as_slice()) {
                last = Some(field_after(line, &data_tag));
            }
        }
        i = i + 1;
    }
    match last {
        Some(v) => Ok(string_of(v.as_slice())),
        None => Err(AppError::Transport(string_of(chars_of("No JSON data found in SSE response").as_slice()))),
    }
}

/// Line `i` carries the data of an `endpoint` event.
pub open spec fn endpoint_data_at(ls: Seq<Seq<char>>, i: int) -> bool {
    is_data_line(ls[i]) && event_in_effect(ls, i) == "endpoint"@
}

pub open spec fn is_absolute_url(ep: Seq<char>) -> bool {
    has_prefix(ep, "http://"@) || has_prefix(ep, "https://"@)
}

/// `k` is the last slash of `base` before its final character.
pub open spec fn is_last_inner_slash(base: Seq<char>, k: int) -> bool {
    0 <= k < base.len() - 1 && base[k] == '/' && forall|m: int|
        k < m < base.len() - 1 ==> base[m] != '/'
}

pub open spec fn has_inner_slash(base: Seq<char>) -> bool {
    exists|k: int| 0 <= k < base.len() - 1 && base[k] == '/'
}

/// Where the origin of `base` ends: at the first slash after `://`, else at
/// its end; with no `://`, at its last slash before its final character.
pub open spec fn origin_end(base: Seq<char>) -> int {
    match find_spec(base, "://"@) {
        Some(i) => match find_spec(base.subrange(i + "://"@.len(), base.len() as int), "/"@) {
            Some(j) => i + "://"@.len() + j,
            None => base.len() as int,
        },
        None => choose|k: int| is_last_inner_slash(base, k),
    }
}

/// An endpoint path with a leading slash.
pub open spec fn rooted(ep: Seq<char>) -> Seq<char> {
    if has_prefix(ep, "/"@) {
        ep
    } else {
        "/"@ + ep
    }
}

/// The URL to post to, from the `endpoint` event's data and the stream's URL.
pub open spec fn resolve_endpoint(ep: Seq<char>, base: Seq<char>) -> Seq<char> {
    if is_absolute_url(ep) {
        ep
    } else if has_inner_slash(base) {
        base.subrange(0, origin_end(base)) + rooted(ep)
    } else {
        base + "/"@ + ep
    }
}

fn last_inner_slash(base: &[char]) -> (r: Option<usize>)
    ensures
        match r {
            Some(k) => is_last_inner_slash(base@, k as int),
            None => !has_inner_slash(base@),
        },
{
    if base.len() < 2 {
        return None;
    }
    let mut k: usize = base.len() - 1;
    while k > 0
        invariant
            k <= base@.len() - 1,
            forall|m: int| k <= m < base@.len() - 1 ==> base@[m] != '/',
        decreases k,
    {
        if base[k - 1] == '/' {
            return Some(k - 1);
        }
        k = k - 1;
    }
    None
}

/// The URL that an `endpoint` event's data names, resolved against `base`.
pub fn resolve_endpoint_url(ep: &[char], base: &[char]) -> (r: Vec<char>)
    ensures
        r@ == resolve_endpoint(ep@, base@),
{
    let http = chars_of("http://");
    let https = chars_of("https://");
    if starts_with(ep, http.as_slice()) || starts_with(ep, https.as_slice()) {
        return copy_range(ep, 0, ep.len());
    }
    let slash = chars_of("/");
    match last_inner_slash(base) {
        None => {
            let b = concat(base, slash.as_slice());
            concat(b.as_slice(), ep)
        },
        Some(k) => {
            let sep = chars_of("://");
            let end: usize = match find(base, sep.as_slice()) {
                Some(i) => {
                    assert(base@.len() == base.len());
                    assert(i + sep@.len() <= base@.len());
                    let rest = copy_range(base, i + sep.len(), base.len());
                    match find(rest.as_slice(), slash.as_slice()) {
                        Some(j) => i + sep.len() + j,
                        None => base.len(),
                    }
                },
                None => {
                    proof {
                        let c = choose|c: int| is_last_inner_slash(base@, c);
                        assert(is_last_inner_slash(base@, k as int));
                        if c < k as int {
                            assert(base@[k as int] != '/');
                        } else if c > k as int {
                            assert(base@[c] != '/');
                        }
                    }
                    k
                },
            };
            let origin = copy_range(base, 0, end);
            if starts_with(ep, slash.as_slice()) {
                concat(origin.as_slice(), ep)
            } else {
                let path = concat(slash.as_slice(), ep);
                concat(origin.as_slice(), path.as_slice())
            }
        },
    }
}

/// The first line that carries an `endpoint` event's data.
pub open spec fn first_endpoint_line(ls: Seq<Seq<char>>) -> int {
    choose|i: int|
        0 <= i < ls.len() && endpoint_data_at(ls, i) && forall|k: int|
            0 <= k < i ==> !endpoint_data_at(ls, k)
}

proof fn lemma_first_endpoint(ls: Seq<Seq<char>>, i: int)
    requires
        0 <= i < ls.len(),
        endpoint_data_at(ls, i),
        forall|k: int| 0 <= k < i ==> !endpoint_data_at(ls, k),
    ensures
        first_endpoint_line(ls) == i,
        exists|j: int| 0 <= j < ls.len() && endpoint_data_at(ls, j),
{
    let c = first_endpoint_line(ls);
    if c < i {
        assert(!endpoint_data_at(ls, c));
    } else if c > i {
        assert(!endpoint_data_at(ls, i));
    }
}

/// The URL of the first `endpoint` event's data, resolved against `base_url`.
pub open spec fn endpoint_of(body: Seq<char>, base: Seq<char>) -> Option<Seq<char>> {
    let ls = lines_of(body);
    if exists|i: int| 0 <= i < ls.len() && endpoint_data_at(ls, i) {
        Some(resolve_endpoint(field_value(ls[first_endpoint_line(ls)], "data:"@), base))
    } else {
        None
    }
}

/// Finds the `endpoint` event of a legacy stream and the URL to post to.
pub fn parse_endpoint_from_sse(body: &str, base_url: &str) -> (r: Result<String, AppError>)
    ensures
        match endpoint_of(body@, base_url@) {
            Some(u) => r matches Ok(s) && s@ == u,
            None => r matches Err(AppError::Transport(m)) && m@
                == "No 'endpoint' event found in SSE stream"@,
        },
{
    let chars = chars_of(body);
    let lines = split_lines(chars.as_slice());
    let ghost ls = lines_of(body@);
    match first_endpoint_data(&lines) {
        Some(ep) => {
            let base = chars_of(base_url);
            let url = resolve_endpoint_url(ep.as_slice(), base.as_slice());
            Ok(string_of(url.as_slice()))
        },
        None => Err(
            AppError::Transport(
                string_of(chars_of("No 'endpoint' event found in SSE stream").as_slice()),
            ),
        ),
    }
}

fn first_endpoint_data(lines: &Vec<Vec<char>>) -> (r: Option<Vec<char>>)
    ensures
        match r {
            Some(ep) => (exists|j: int| 0 <= j < lines@.len() && endpoint_data_at(views(lines@), j))
                && ep@ == field_value(views(lines@)[first_endpoint_line(views(lines@))], "data:"@),
            None => !exists|j: int| 0 <= j < lines@.len() && endpoint_data_at(views(lines@), j),
        },
{
    let ghost ls = views(lines@);
    let ev_tag = chars_of("event:");
    let data_tag = chars_of("data:");
    let endpoint = chars_of("endpoint");
    let mut current: Vec<char> = Vec::new();
    let mut i: usize = 0;
    while i < lines.len()
        invariant
            i <= lines@.len(),
            views(lines@) == ls,
            ev_tag@ == "event:"@,
            data_tag@ == "data:"@,
            endpoint@ == "endpoint"@,
            current@ == event_in_effect(ls, i as int),
            forall|k: int| 0 <= k < i ==> !endpoint_data_at(ls, k),
        decreases lines@.len() - i,
    {
        proof {
            lemma_views_index(lines@, i as int);
        }
        let line = &lines[i];
        if line.len() == 0 {
            proof {
                reveal_strlit("data:");
                assert(!has_prefix(line@, "data:"@));
            }
            current = Vec::new();
        } else if starts_with(line.as_slice(), ev_tag.as_slice()) {
            current = field_after(line, &ev_tag);
        } else if starts_with(line.as_slice(), data_tag.as_slice()) {
            if eq_chars(current.as_slice(), endpoint.as_slice()) {
                let ep = field_after(line, &data_tag);
                proof {
                    lemma_first_endpoint(ls, i as int);
                }
                return Some(ep);
            }
        }
        i = i + 1;
    }
    None
}

/// The index just past the event that opens at the first `marker`, if the
/// buffer holds more after it.
pub open spec fn drain_point(b: Seq<char>, marker: Seq<char>) -> Option<int> {
    match find_spec(b, marker) {
        Some(idx) => match find_spec(b.subrange(idx, b.len() as int), "\n\n"@) {
            Some(end) => if idx + end + "\n\n"@.len() < b.len() {
                Some(idx + end + "\n\n"@.len())
            } else {
                None
            },
            None => None,
        },
        None => None,
    }
}

/// What follows the `endpoint` event in a buffer: data still to be read.
pub open spec fn drained(b: Seq<char>) -> Seq<char> {
    match drain_point(b, "event: endpoint"@) {
        Some(a) => b.subrange(a, b.len() as int),
        None => match drain_point(b, "event:endpoint"@) {
            Some(a) => b.subrange(a, b.len() as int),
            None => Seq::empty(),
        },
    }
}

fn drain_point_of(b: &[char], marker: &[char]) -> (r: Option<usize>)
    ensures
        r matches Some(x) ==> drain_point(b@, marker@) == Some(x as int) && x < b@.len(),
        r is None ==> drain_point(b@, marker@) is None,
{
    let blank = chars_of("\n\n");
    match find(b, marker) {
        Some(idx) => {
            let rest = copy_range(b, idx, b.len());
            match find(rest.as_slice(), blank.as_slice()) {
                Some(end) => {
                    if idx + end + blank.len() < b.len() {
                        Some(idx + end + blank.len())
                    } else {
                        None
                    }
                },
                None => None,
            }
        },
        None => None,
    }
}

/// After the `endpoint` event was found, the data of the buffer that follows
/// that event, for the stream's reader to go on with.
pub fn drain_consumed_events(buffer: &str) -> (r: String)
    ensures
        r@ == drained(buffer@),
{
    let b = chars_of(buffer);
    match drain_point_of(b.as_slice(), chars_of("event: endpoint").as_slice()) {
        Some(a) => string_of(copy_range(b.as_slice(), a, b.len()).as_slice()),
        None => match drain_point_of(b.as_slice(), chars_of("event:endpoint").as_slice()) {
            Some(a) => string_of(copy_range(b.as_slice(), a, b.len()).as_slice()),
            None => string_of(Vec::new().as_slice()),
        },
    }
}

/// How many of the first `n` lines are data lines.
pub open spec fn data_count(ls: Seq<Seq<char>>, n: int) -> nat
    decreases n,
{
    if n <= 0 {
        0
    } else if is_data_line(ls[n - 1]) {
        data_count(ls, n - 1) + 1
    } else {
        data_count(ls, n - 1)
    }
}

/// The values of the data lines among the first `n` lines, joined.
pub open spec fn data_joined(ls: Seq<Seq<char>>, n: int) -> Seq<char>
    decreases n,
{
    if n <= 0 {
        Seq::empty()
    } else if is_data_line(ls[n - 1]) {
        data_joined(ls, n - 1) + field_value(ls[n - 1], "data:"@)
    } else {
        data_joined(ls, n - 1)
    }
}

/// The JSON-RPC text that one event block carries: its data lines joined,
/// when its type is a message type and it has data.
pub open spec fn block_payload(block: Seq<char>) -> Option<Seq<char>> {
    let ls = lines_of(block);
    if is_message_type(event_in_effect(ls, ls.len() as int)) && data_count(ls, ls.len() as int)
        > 0 {
        Some(data_joined(ls, ls.len() as int))
    } else {
        None
    }
}

/// The JSON-RPC text of an event block, if it carries one.
pub fn message_payload(block: &[char]) -> (r: Option<Vec<char>>)
    ensures
        match block_payload(block@) {
            Some(p) => r matches Some(v) && v@ == p,
            None => r is None,
        },
{
    let lines = split_lines(block);
    let ghost ls = lines_of(block@);
    let ev_tag = chars_of("event:");
    let data_tag = chars_of("data:");
    let message = chars_of("message");
    let mut current: Vec<char> = Vec::new();
    let mut joined: Vec<char> = Vec::new();
    let mut count: usize = 0;
    let mut i: usize = 0;
    while i < lines.len()
        invariant
            i <= lines@.len(),
            views(lines@) == ls,
            ev_tag@ == "event:"@,
            data_tag@ == "data:"@,
            current@ == event_in_effect(ls, i as int),
            joined@ == data_joined(ls, i as int),
            count == data_count(ls, i as int),
            count <= i,
        decreases lines@.len() - i,
    {
        proof {
            lemma_views_index(lines@, i as int);
        }
        let line = &lines[i];
        if line.len() == 0 {
            proof {
                reveal_strlit("data:");
                assert(!has_prefix(line@, "data:"@));
            }
            current = Vec::new();
        } else if starts_with(line.as_slice(), ev_tag.as_slice()) {
            current = field_after(line, &ev_tag);
        } else if starts_with(line.as_slice(), data_tag.as_slice()) {
            let v = field_after(line, &data_tag);
            joined = concat(joined.as_slice(), v.as_slice());
            count = count + 1;
        }
        i = i + 1;
    }
    if (current.len() == 0 || eq_chars(current.as_slice(), message.as_slice())) && count > 0 {
        Some(joined)
    } else {
        None
    }
}

/// `s` with each carriage-return/newline pair turned into a newline.
pub open spec fn lf_only(s: Seq<char>) -> Seq<char>
    decreases s.len(),
{
    if s.len() >= 2 && s[0] == '\r' && s[1] == '\n' {
        seq!['\n'] + lf_only(s.subrange(2, s.len() as int))
    } else if s.len() >= 1 {
        seq![s[0]] + lf_only(s.subrange(1, s.len() as int))
    } else {
        Seq::empty()
    }
}

/// Turns each carriage-return/newline pair of `s` into a newline.
pub fn normalize_newlines(s: &[char]) -> (r: Vec<char>)
    ensures
        r@ == lf_only(s@),
{
    let mut out: Vec<char> = Vec::new();
    let mut i: usize = 0;
    assert(s@.subrange(0, s@.len() as int) =~= s@);
    while i < s.len()
        invariant
            i <= s@.len(),
            lf_only(s@) == out@ + lf_only(s@.subrange(i as int, s@.len() as int)),
        decreases s@.len() - i,
    {
        let ghost rest = s@.subrange(i as int, s@.len() as int);
        if i + 1 < s.len() && s[i] == '\r' && s[i + 1] == '\n' {
            out.push('\n');
            assert(rest.subrange(2, rest.len() as int) =~= s@.subrange(i + 2, s@.len() as int));
            assert(lf_only(rest) == seq!['\n'] + lf_only(rest.subrange(2, rest.len() as int)));
            i = i + 2;
        } else {
            out.push(s[i]);
            assert(rest.subrange(1, rest.len() as int) =~= s@.subrange(i + 1, s@.len() as int));
            assert(lf_only(rest) == seq![s@[i as int]] + lf_only(
                rest.subrange(1, rest.len() as int),
            ));
            i = i + 1;
        }
        assert(lf_only(s@) == out@ + lf_only(s@.subrange(i as int, s@.len() as int)));
    }
    assert(s@.subrange(i as int, s@.len() as int) =~= Seq::<char>::empty());
    assert(out@ + Seq::<char>::empty() =~= out@);
    out
}

/// Cuts the first complete event block (ended by a blank line) from the
/// front of `buf`, dropping the blank line.
pub fn next_event_block(buf: &mut Vec<char>) -> (r: Option<Vec<char>>)
    ensures
        match find_spec(old(buf)@, "\n\n"@) {
            Some(e) => r matches Some(b) && b@ == old(buf)@.subrange(0, e) && final(buf)@
                == old(buf)@.subrange(e + "\n\n"@.len(), old(buf)@.len() as int),
            None => r is None && final(buf)@ == old(buf)@,
        },
{
    let blank = chars_of("\n\n");
    match find(buf.as_slice(), blank.as_slice()) {
        Some(e) => {
            let block = copy_range(buf.as_slice(), 0, e);
            assert(e + blank@.len() <= buf@.len());
            assert(buf@.len() == buf.len());
            let rest = copy_range(buf.as_slice(), e + blank.len(), buf.len());
            *buf = rest;
            Some(block)
        },
        None => None,
    }
}

} // verus!
