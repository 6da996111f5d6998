//! Which requests the server logs, and the line it logs for them.

use vstd::prelude::*;
use vstd::string::*;

use crate::text::{chars_of, ends_with, ends_with_text, starts_with, starts_with_at, starts_with_text, string_from_chars};

verus! {

/// The position of the first `&` of `q` at or after `from`, or the length
/// of `q` when there is none.
pub open spec fn segment_end(q: Seq<char>, from: int) -> int
    decreases q.len() - from,
{
    if from < 0 || from >= q.len() {
        q.len() as int
    } else if q[from] == '&' {
        from
    } else {
        segment_end(q, from + 1)
    }
}

/// `segment_end` lies between `from` and the end of `q`.
pub proof fn lemma_segment_end(q: Seq<char>, from: int)
    requires
        0 <= from <= q.len(),
    ensures
        from <= segment_end(q, from) <= q.len(),
        segment_end(q, from) < q.len() ==> q[segment_end(q, from)] == '&',
    decreases q.len() - from,
{
    if from < q.len() && q[from] != '&' {
        lemma_segment_end(q, from + 1);
    }
}

/// The first `&`-separated part of `q`, among those that start at `from`,
/// that starts with `utm_source=`.
pub open spec fn utm_part_from(q: Seq<char>, from: int) -> Option<Seq<char>>
    decreases q.len() - from,
{
    if from < 0 || from > q.len() {
        None
    } else {
        let e = segment_end(q, from);
        let p = q.subrange(from, e);
        if starts_with(p, "utm_source="@) {
            Some(p)
        } else if e >= q.len() {
            None
        } else {
            proof {
                lemma_segment_end(q, from);
            }
            utm_part_from(q, e + 1)
        }
    }
}

/// `s` with every leading repetition of the non-empty `prefix` removed, as
/// `str::trim_start_matches` gives it.
pub open spec fn trim_prefix_all(s: Seq<char>, prefix: Seq<char>) -> Seq<char>
    decreases s.len(),
{
    if prefix.len() > 0 && starts_with(s, prefix) {
        trim_prefix_all(s.skip(prefix.len() as int), prefix)
    } else {
        s
    }
}

/// How a campaign source is shown: the four known ones by name, any other
/// as it stands.
pub open spec fn source_label(source: Seq<char>) -> Seq<char> {
    if source == "ig"@ {
        " :: Instagram"@
    } else if source == "fb"@ {
        " :: Facebook"@
    } else if source == "tw"@ {
        " :: Twitter"@
    } else if source == "li"@ {
        " :: LinkedIn"@
    } else {
        source
    }
}

/// The campaign source named by a query string's `utm_source` parameter,
/// as it appears in the log; empty without one.
pub open spec fn source_suffix(query: Option<Seq<char>>) -> Seq<char> {
    match query {
        Some(q) => match utm_part_from(q, 0) {
            Some(p) => source_label(trim_prefix_all(p, "utm_source="@)),
            None => Seq::empty(),
        },
        None => Seq::empty(),
    }
}

/// Whether a request comes from a real browser: its user agent starts with
/// `Mozilla/5.0`.
pub open spec fn is_real_browser(user_agent: Option<Seq<char>>) -> bool {
    match user_agent {
        Some(ua) => starts_with(ua, "Mozilla/5.0"@),
        None => false,
    }
}

/// Whether a path names a static asset.
pub open spec fn is_static_path(path: Seq<char>) -> bool {
    starts_with(path, "/static"@) || starts_with(path, "/wasm"@) || ends_with(path, ".ico"@)
}

/// The line logged for a request: `Request: `, the client address
/// (`unknown` when not known), the method, the path and the campaign source.
pub open spec fn log_line(ip: Option<Seq<char>>, method: Seq<char>, path: Seq<char>, query: Option<Seq<char>>) -> Seq<char> {
    "Request: "@ + match ip {
        Some(a) => a,
        None => "unknown"@,
    } + " "@ + method + " "@ + path + source_suffix(query)
}

/// Which requests are logged: exactly those whose user agent starts with
/// `Mozilla/5.0` and whose path neither starts with `/static` or `/wasm` nor
/// ends with `.ico`; every other path of a browser request is logged.
pub proof fn law_logged_requests(user_agent: Option<Seq<char>>, path: Seq<char>)
    ensures
        (is_real_browser(user_agent) && !is_static_path(path)) <==> (user_agent matches Some(ua)
            && ua.len() >= 11 && ua.take(11) == "Mozilla/5.0"@ && !(path.len() >= 7 && path.take(7)
            == "/static"@) && !(path.len() >= 5 && path.take(5) == "/wasm"@) && !(path.len() >= 4
            && path.skip(path.len() - 4) == ".ico"@)),
{
    reveal_strlit("Mozilla/5.0");
    reveal_strlit("/static");
    reveal_strlit("/wasm");
    reveal_strlit(".ico");
}

/// The line to log for a request, if it is logged: only page requests from
/// real browsers are. `ip` and `user_agent` are the `CF-Connecting-IP` and
/// `User-Agent` headers when they are present and readable as text.
pub fn request_log_line(
    ip: Option<&str>,
    user_agent: Option<&str>,
    method: &str,
    path: &str,
    query: Option<&str>,
) -> (line: Option<String>)
    ensures
        line is Some <==> is_real_browser(match user_agent {
            Some(ua) => Some(ua@),
            None => None,
        }) && !is_static_path(path@),
        line matches Some(l) ==> l@ == log_line(
            match ip {
                Some(a) => Some(a@),
                None => None,
            },
            method@,
            path@,
            match query {
                Some(q) => Some(q@),
                None => None,
            },
        ),
{
    let browser = match user_agent {
        Some(ua) => starts_with_text(ua, "Mozilla/5.0"),
        None => false,
    };
    let is_static = starts_with_text(path, "/static") || starts_with_text(path, "/wasm")
        || ends_with_text(path, ".ico");
    if !browser || is_static {
        return None;
    }
    let mut line = "Request: ".to_owned();
    match ip {
        Some(a) => line.append(a),
        None => line.append("unknown"),
    }
    line.append(" ");
    line.append(method);
    line.append(" ");
    line.append(path);
    let source = campaign_source(query);
    line.append(source.as_str());
    Some(line)
}

/// The campaign source of a query string, as it appears in the log.
pub fn campaign_source(query: Option<&str>) -> (s: String)
    ensures
        s@ == source_suffix(
            match query {
                Some(q) => Some(q@),
                None => None,
            },
        ),
{
    match query {
        None => String::new(),
        Some(q) => {
            let qc = chars_of(q);
            match find_utm_part(&qc) {
                None => String::new(),
                Some((from, to)) => {
                    let prefix = chars_of("utm_source=");
                    let rest = trim_prefix_range(&qc, from, to, &prefix);
                    let text = string_from_chars(rest.as_slice());
                    label_of(text.as_str())
                },
            }
        },
    }
}

/// The label of a campaign source.
fn label_of(source: &str) -> (s: String)
    ensures
        s@ == source_label(source@),
{
    let ig = "ig";
    let fb = "fb";
    let tw = "tw";
    let li = "li";
    let src = source.to_owned();
    if src == ig.to_owned() {
        " :: Instagram".to_owned()
    } else if src == fb.to_owned() {
        " :: Facebook".to_owned()
    } else if src == tw.to_owned() {
        " :: Twitter".to_owned()
    } else if src == li.to_owned() {
        " :: LinkedIn".to_owned()
    } else {
        src
    }
}

/// The bounds of the first part of `q` that starts with `utm_source=`.
fn find_utm_part(q: &Vec<char>) -> (r: Option<(usize, usize)>)
    ensures
        match r {
            Some((a, b)) => a <= b <= q@.len() && utm_part_from(q@, 0) == Some(q@.subrange(a as int, b as int)),
            None => utm_part_from(q@, 0) is None,
        },
{
    let prefix = chars_of("utm_source=");
    let mut from: usize = 0;
    loop
        invariant
            prefix@ == "utm_source="@,
            from <= q@.len(),
            utm_part_from(q@, 0) == utm_part_from(q@, from as int),
        decreases q@.len() - from,
    {
        let mut e = from;
        while e < q.len() && q[e] != '&'
            invariant
                from <= e <= q@.len(),
                segment_end(q@, from as int) == segment_end(q@, e as int),
            decreases q@.len() - e,
        {
            e = e + 1;
        }
        let ghost part = q@.subrange(from as int, e as int);
        let mut piece: Vec<char> = Vec::new();
        let mut k = from;
        while k < e
            invariant
                from <= k <= e <= q@.len(),
                piece@ == q@.subrange(from as int, k as int),
            decreases e - k,
        {
            piece.push(q[k]);
            proof {
                assert(piece@ =~= q@.subrange(from as int, k + 1));
            }
            k = k + 1;
        }
        assert(piece@.skip(0) =~= piece@);
        if starts_with_at(&piece, 0, &prefix) {
            return Some((from, e));
        }
        if e >= q.len() {
            return None;
        }
        from = e + 1;
    }
}

/// `q[from..to]` with every leading repetition of `prefix` removed.
fn trim_prefix_range(q: &Vec<char>, from: usize, to: usize, prefix: &Vec<char>) -> (r: Vec<char>)
    requires
        from <= to <= q@.len(),
    ensures
        r@ == trim_prefix_all(q@.subrange(from as int, to as int), prefix@),
{
    let mut piece: Vec<char> = Vec::new();
    let mut k = from;
    while k < to
        invariant
            from <= k <= to <= q@.len(),
            piece@ == q@.subrange(from as int, k as int),
        decreases to - k,
    {
        piece.push(q[k]);
        proof {
            assert(piece@ =~= q@.subrange(from as int, k + 1));
        }
        k = k + 1;
    }
    let mut at: usize = 0;
    assert(piece@.skip(0) =~= piece@);
    loop
        invariant
            from <= to <= q@.len(),
            at <= piece@.len(),
            piece@ == q@.subrange(from as int, to as int),
            trim_prefix_all(piece@, prefix@) == trim_prefix_all(piece@.skip(at as int), prefix@),
        ensures
            at <= piece@.len(),
            piece@ == q@.subrange(from as int, to as int),
            trim_prefix_all(piece@, prefix@) == piece@.skip(at as int),
        decreases piece@.len() - at,
    {
        if prefix.len() == 0 || !starts_with_at(&piece, at, prefix) {
            break;
        }
        assert(prefix.len() <= piece.len() - at);
        proof {
            assert(piece@.skip(at as int).skip(prefix@.len() as int) =~= piece@.skip(at + prefix@.len()));
        }
        at = at + prefix.len();
    }
    let mut out: Vec<char> = Vec::new();
    let mut i = at;
    while i < piece.len()
        invariant
            at <= i <= piece@.len(),
            out@ == piece@.subrange(at as int, i as int),
        decreases piece@.len() - i,
    {
        out.push(piece[i]);
        proof {
            assert(out@ =~= piece@.subrange(at as int, i + 1));
        }
        i = i + 1;
    }
    assert(out@ =~= piece@.skip(at as int));
    out
}

} // verus!
