//! Whether the assistant's `settings.json` sends its hooks to this dashboard,
//! and the configuration snippet that would make it do so.

use vstd::prelude::*;

use crate::text::{
    chars_of, contains_chars, contains_str, decimal, decimal_chars, starts_with, lines, lines_of, occurs_at, opt_str,
    push_all, push_str, starts_with_at, string_of, trim, trim_matches, trim_matches_chars, trimmed, views,
};

verus! {

broadcast use vstd::seq_lib::group_seq_properties;

/// Result of checking the hooks configuration.
#[derive(Debug, Clone, PartialEq, Eq)]
pub enum HookConfigStatus {
    /// Hooks are configured and the endpoint matches.
    Configured,
    /// Hooks exist but do not reach this dashboard with its token.
    EndpointMismatch { configured_url: String },
    /// No hooks configuration found.
    NotConfigured,
}

pub ghost enum HookConfigStatusV {
    Configured,
    EndpointMismatch(Seq<char>),
    NotConfigured,
}

impl View for HookConfigStatus {
    type V = HookConfigStatusV;

    open spec fn view(&self) -> HookConfigStatusV {
        match self {
            HookConfigStatus::Configured => HookConfigStatusV::Configured,
            HookConfigStatus::EndpointMismatch { configured_url } => HookConfigStatusV::EndpointMismatch(
                configured_url@,
            ),
            HookConfigStatus::NotConfigured => HookConfigStatusV::NotConfigured,
        }
    }
}

/// The hook endpoint for `port` and `token` after the given host prefix.
pub open spec fn endpoint(host: Seq<char>, port: u16, token: Seq<char>) -> Seq<char> {
    host + decimal(port as nat) + "/hook?token="@ + token
}

/// A line that names a local hook URL.
pub open spec fn is_url_line(t: Seq<char>) -> bool {
    (contains_str(t, "localhost:"@) || contains_str(t, "127.0.0.1:"@)) && contains_str(t, "http"@)
}

/// The first line, trimmed, that names a local hook URL.
pub open spec fn first_url_line(ls: Seq<Seq<char>>) -> Option<Seq<char>>
    decreases ls.len(),
{
    if ls.len() == 0 {
        None
    } else if is_url_line(trim(ls[0])) {
        Some(trim(ls[0]))
    } else {
        first_url_line(ls.drop_first())
    }
}

/// A character that can continue a token: an ASCII letter or digit.
pub open spec fn is_token_char(c: char) -> bool {
    ('0' <= c && c <= '9') || ('a' <= c && c <= 'z') || ('A' <= c && c <= 'Z')
}

/// A token made of ASCII letters and digits, as the dashboard generates.
pub open spec fn is_token(t: Seq<char>) -> bool {
    forall|i: int| 0 <= i < t.len() ==> is_token_char(#[trigger] t[i])
}

/// `url` occurs in `s` at `i` and is not followed by more token text: the
/// text ends there or goes on with a character that cannot continue a
/// token (a closing `"`, a further query parameter's `&`, ...).
pub open spec fn whole_url_at(s: Seq<char>, url: Seq<char>, i: int) -> bool {
    occurs_at(s, url, i) && (i + url.len() == s.len() || !is_token_char(s[i + url.len()]))
}

fn token_char(c: char) -> (r: bool)
    ensures
        r == is_token_char(c),
{
    ('0' <= c && c <= '9') || ('a' <= c && c <= 'z') || ('A' <= c && c <= 'Z')
}

/// `url` occurs in `s` as a whole URL (see `whole_url_at`).
pub open spec fn contains_whole_url(s: Seq<char>, url: Seq<char>) -> bool {
    exists|i: int| whole_url_at(s, url, i)
}

/// What one settings file says about the hooks, if anything: `Configured`
/// only where the expected endpoint occurs with exactly the expected token.
pub open spec fn check_content_spec(content: Seq<char>, port: u16, token: Seq<char>) -> Option<HookConfigStatusV> {
    let dec = decimal(port as nat);
    if contains_whole_url(content, endpoint("localhost:"@, port, token)) || contains_whole_url(
        content,
        endpoint("127.0.0.1:"@, port, token),
    ) {
        Some(HookConfigStatusV::Configured)
    } else if contains_str(content, "localhost:"@ + dec) || contains_str(content, "127.0.0.1:"@ + dec) {
        Some(HookConfigStatusV::EndpointMismatch("port "@ + dec + " matched but token mismatch"@))
    } else if contains_str(content, "localhost:"@) || contains_str(content, "127.0.0.1:"@) {
        match first_url_line(lines(content)) {
            Some(t) => Some(HookConfigStatusV::EndpointMismatch(trim_matches(trim_matches(t, '"'), ','))),
            None => None,
        }
    } else {
        None
    }
}

fn endpoint_chars(host: &str, port: u16, token: &str) -> (r: Vec<char>)
    ensures
        r@ == endpoint(host@, port, token@),
{
    let mut r = chars_of(host);
    let d = decimal_chars(port as u64);
    push_all(&mut r, &d);
    push_str(&mut r, "/hook?token=");
    push_str(&mut r, token);
    r
}

/// Whether `url` occurs in `v` as a whole URL.
fn contains_whole_url_chars(v: &[char], url: &[char]) -> (r: bool)
    ensures
        r == contains_whole_url(v@, url@),
{
    if url.len() > v.len() {
        assert forall|i: int| !whole_url_at(v@, url@, i) by {}
        return false;
    }
    let mut i: usize = 0;
    while i <= v.len() - url.len()
        invariant
            url@.len() <= v@.len(),
            i <= v@.len() - url@.len() + 1,
            forall|j: int| 0 <= j < i ==> !whole_url_at(v@, url@, j),
        decreases v.len() - url.len() + 1 - i,
    {
        let end = i + url.len();
        let closed = end == v.len() || !token_char(v[end]);
        if closed && starts_with_at(v, i, url) {
            assert(v@.skip(i as int).take(url@.len() as int) =~= v@.subrange(i as int, end as int));
            assert(whole_url_at(v@, url@, i as int));
            return true;
        }
        assert(v@.skip(i as int).take(url@.len() as int) =~= v@.subrange(i as int, end as int));
        i = i + 1;
    }
    assert forall|j: int| !whole_url_at(v@, url@, j) by {
        if 0 <= j && j + url@.len() <= v@.len() {
            assert(j < i);
        }
    }
    false
}

/// Check the content of one settings file.
pub fn check_content(content: &str, expected_port: u16, token: &str) -> (r: Option<HookConfigStatus>)
    ensures
        match r {
            Some(s) => check_content_spec(content@, expected_port, token@) == Some(s@),
            None => check_content_spec(content@, expected_port, token@) is None,
        },
{
    let c = chars_of(content);
    let base = endpoint_chars("localhost:", expected_port, token);
    let alt = endpoint_chars("127.0.0.1:", expected_port, token);
    if contains_whole_url_chars(&c, &base) || contains_whole_url_chars(&c, &alt) {
        return Some(HookConfigStatus::Configured);
    }
    let dec = decimal_chars(expected_port as u64);
    let mut port_base = chars_of("localhost:");
    push_all(&mut port_base, &dec);
    let mut port_alt = chars_of("127.0.0.1:");
    push_all(&mut port_alt, &dec);
    if contains_chars(&c, &port_base) || contains_chars(&c, &port_alt) {
        let mut msg = chars_of("port ");
        push_all(&mut msg, &dec);
        push_str(&mut msg, " matched but token mismatch");
        return Some(HookConfigStatus::EndpointMismatch { configured_url: string_of(&msg) });
    }
    let lh = chars_of("localhost:");
    let lo = chars_of("127.0.0.1:");
    if contains_chars(&c, &lh) || contains_chars(&c, &lo) {
        let http = chars_of("http");
        let ls = lines_of(&c);
        let ghost lsv = views(ls@);
        let mut i: usize = 0;
        proof {
            assert(lsv.skip(0) =~= lsv);
        }
        let ghost verdict = match first_url_line(lsv) {
            Some(t) => Some(HookConfigStatusV::EndpointMismatch(trim_matches(trim_matches(t, '"'), ','))),
            None => None,
        };
        assert(check_content_spec(content@, expected_port, token@) == verdict);
        while i < ls.len()
            invariant
                i <= ls@.len(),
                lsv == views(ls@),
                lh@ == "localhost:"@,
                lo@ == "127.0.0.1:"@,
                http@ == "http"@,
                first_url_line(lsv.skip(i as int)) == first_url_line(lsv),
                check_content_spec(content@, expected_port, token@) == verdict,
                verdict == match first_url_line(lsv) {
                    Some(t) => Some(HookConfigStatusV::EndpointMismatch(trim_matches(trim_matches(t, '"'), ','))),
                    None => None,
                },
            decreases ls.len() - i,
        {
            let t = trimmed(&ls[i]);
            proof {
                assert(lsv.skip(i as int)[0] == ls@[i as int]@);
                assert(lsv.skip(i as int).drop_first() =~= lsv.skip(i + 1));
            }
            if (contains_chars(&t, &lh) || contains_chars(&t, &lo)) && contains_chars(&t, &http) {
                assert(is_url_line(trim(lsv.skip(i as int)[0])));
                let a = trim_matches_chars(&t, '"');
                let b = trim_matches_chars(&a, ',');
                return Some(HookConfigStatus::EndpointMismatch { configured_url: string_of(&b) });
            }
            i = i + 1;
        }
        proof {
            assert(lsv.skip(i as int) =~= Seq::<Seq<char>>::empty());
        }
    }
    None
}

/// The verdict over the settings files in order of precedence (project,
/// then user): the first file that says something decides; a file that
/// could not be read is `None` and is passed over.
pub open spec fn check_contents_spec(contents: Seq<Option<Seq<char>>>, port: u16, token: Seq<char>) -> HookConfigStatusV
    decreases contents.len(),
{
    if contents.len() == 0 {
        HookConfigStatusV::NotConfigured
    } else {
        match contents[0] {
            Some(c) => match check_content_spec(c, port, token) {
                Some(s) => s,
                None => check_contents_spec(contents.drop_first(), port, token),
            },
            None => check_contents_spec(contents.drop_first(), port, token),
        }
    }
}

pub open spec fn opt_strs(v: Seq<Option<String>>) -> Seq<Option<Seq<char>>> {
    v.map_values(|o: Option<String>| opt_str(o))
}

/// Check the hooks configuration given the contents of the settings files
/// (project-level first, then user-level).
pub fn check_hooks_contents(contents: &Vec<Option<String>>, expected_port: u16, token: &str) -> (r: HookConfigStatus)
    ensures
        r@ == check_contents_spec(opt_strs(contents@), expected_port, token@),
{
    let ghost cv = opt_strs(contents@);
    let mut i: usize = 0;
    proof {
        assert(cv.skip(0) =~= cv);
    }
    while i < contents.len()
        invariant
            i <= contents@.len(),
            cv == opt_strs(contents@),
            check_contents_spec(cv.skip(i as int), expected_port, token@) == check_contents_spec(
                cv,
                expected_port,
                token@,
            ),
        decreases contents.len() - i,
    {
        proof {
            assert(cv.skip(i as int)[0] == opt_str(contents@[i as int]));
            assert(cv.skip(i as int).drop_first() =~= cv.skip(i + 1));
        }
        match &contents[i] {
            Some(c) => {
                match check_content(c.as_str(), expected_port, token) {
                    Some(s) => {
                        return s;
                    },
                    None => {},
                }
            },
            None => {},
        }
        i = i + 1;
    }
    proof {
        assert(cv.skip(i as int) =~= Seq::<Option<Seq<char>>>::empty());
    }
    HookConfigStatus::NotConfigured
}

// ---------------------------------------------------------------------
// The settings snippet
// ---------------------------------------------------------------------

/// One hook entry of the snippet.
pub open spec fn snippet_entry(name: Seq<char>, url: Seq<char>) -> Seq<char> {
    "    \""@ + name + "\": [\n      {\n        \"matcher\": \".*\",\n        \"hooks\": [\n          {\n            \"type\": \"http\",\n            \"url\": \""@
        + url + "\"\n          }\n        ]\n      }\n    ]"@
}

/// The `hooks` block for `settings.json` that sends every hook event this
/// dashboard uses to `http://localhost:<port>/hook?token=<token>`.
pub open spec fn hooks_snippet(port: u16, token: Seq<char>) -> Seq<char> {
    let url = endpoint("http://localhost:"@, port, token);
    "{\n  \"hooks\": {\n"@ + snippet_entry("SubagentStart"@, url) + ",\n"@ + snippet_entry(
        "SubagentStop"@,
        url,
    ) + ",\n"@ + snippet_entry("PreToolUse"@, url) + ",\n"@ + snippet_entry("PostToolUse"@, url)
        + ",\n"@ + snippet_entry("Stop"@, url) + "\n  }\n}"@
}

/// Where the snippet's first endpoint for `localhost` starts: the endpoint
/// occurs there and a `"` follows it.
proof fn lemma_snippet_endpoint_at(port: u16, token: Seq<char>) -> (i: int)
    ensures
        occurs_at(hooks_snippet(port, token), endpoint("localhost:"@, port, token), i),
        hooks_snippet(port, token)[i + endpoint("localhost:"@, port, token).len()] == '"',
{
    let e = endpoint("localhost:"@, port, token);
    let url = endpoint("http://localhost:"@, port, token);
    reveal_strlit("http://localhost:");
    reveal_strlit("http://");
    reveal_strlit("localhost:");
    assert(url =~= "http://"@ + e);
    let close = "\"\n          }\n        ]\n      }\n    ]"@;
    reveal_strlit("\"\n          }\n        ]\n      }\n    ]");
    let head = "{\n  \"hooks\": {\n"@;
    let open = "    \""@;
    let mid = "\": [\n      {\n        \"matcher\": \".*\",\n        \"hooks\": [\n          {\n            \"type\": \"http\",\n            \"url\": \""@;
    let entry = snippet_entry("SubagentStart"@, url);
    assert(entry =~= (open + "SubagentStart"@ + mid + "http://"@) + e + close);
    let first = head + entry;
    let pre = head + open + "SubagentStart"@ + mid + "http://"@;
    let i = pre.len() as int;
    assert(first.subrange(i, i + e.len()) =~= e);
    assert(first[i + e.len()] == '"');
    let s = hooks_snippet(port, token);
    assert(s.subrange(0, first.len() as int) =~= first);
    assert(s.subrange(i, i + e.len()) =~= first.subrange(i, i + e.len()));
    assert(s[i + e.len()] == first[i + e.len()]);
    i
}

/// The snippet this dashboard offers configures it: checking the snippet
/// for the same port and token answers `Configured`.
pub proof fn lemma_snippet_configured(port: u16, token: Seq<char>)
    ensures
        check_content_spec(hooks_snippet(port, token), port, token) == Some(HookConfigStatusV::Configured),
{
    let i = lemma_snippet_endpoint_at(port, token);
    assert(whole_url_at(hooks_snippet(port, token), endpoint("localhost:"@, port, token), i));
}

/// Every `?` of `s` is followed by `token=`, the token `t` and a closing `"`.
pub open spec fn queries_carry(s: Seq<char>, t: Seq<char>) -> bool {
    forall|p: int| #![trigger s[p]] 0 <= p < s.len() && s[p] == '?' ==> starts_with(s.skip(p + 1), "token="@ + t + "\""@)
}

proof fn lemma_carry_plain(x: Seq<char>, t: Seq<char>)
    requires
        !x.contains('?'),
    ensures
        queries_carry(x, t),
{
}

proof fn lemma_carry_concat(a: Seq<char>, b: Seq<char>, t: Seq<char>)
    requires
        queries_carry(a, t),
        queries_carry(b, t),
    ensures
        queries_carry(a + b, t),
{
    let w = "token="@ + t + "\""@;
    let s = a + b;
    assert forall|p: int| #![trigger s[p]] 0 <= p < s.len() && s[p] == '?' implies starts_with(s.skip(p + 1), w) by {
        if p < a.len() {
            assert(s[p] == a[p]);
            assert(starts_with(a.skip(p + 1), w));
            assert(s.skip(p + 1) =~= a.skip(p + 1) + b);
            assert(s.skip(p + 1).take(w.len() as int) =~= a.skip(p + 1).take(w.len() as int));
        } else {
            assert(s[p] == b[p - a.len()]);
            assert(s.skip(p + 1) =~= b.skip(p - a.len() + 1));
        }
    }
}

proof fn lemma_no_query_concat(a: Seq<char>, b: Seq<char>)
    requires
        !a.contains('?'),
        !b.contains('?'),
    ensures
        !(a + b).contains('?'),
{
    assert forall|k: int| 0 <= k < (a + b).len() implies (a + b)[k] != '?' by {
        if k < a.len() {
            assert((a + b)[k] == a[k]);
        } else {
            assert((a + b)[k] == b[k - a.len()]);
        }
    }
}

proof fn lemma_decimal_no_query(n: nat)
    ensures
        !decimal(n).contains('?'),
    decreases n,
{
    reveal_strlit("0123456789");
    if n >= 10 {
        lemma_decimal_no_query(n / 10);
        let d = decimal(n / 10);
        let r = decimal(n);
        assert forall|k: int| 0 <= k < r.len() implies r[k] != '?' by {
            if k < d.len() {
                assert(r[k] == d[k]);
            }
        }
    }
}

/// The snippet's endpoint followed by the text that closes its JSON string.
proof fn lemma_carry_url(port: u16, t: Seq<char>)
    requires
        !t.contains('?'),
    ensures
        queries_carry(
            endpoint("http://localhost:"@, port, t) + "\"\n          }\n        ]\n      }\n    ]"@,
            t,
        ),
{
    let close = "\"\n          }\n        ]\n      }\n    ]"@;
    reveal_strlit("\"\n          }\n        ]\n      }\n    ]");
    reveal_strlit("http://localhost:");
    reveal_strlit("/hook?token=");
    reveal_strlit("/hook");
    reveal_strlit("token=");
    reveal_strlit("\"");
    let dec = decimal(port as nat);
    lemma_decimal_no_query(port as nat);
    let u = "http://localhost:"@ + dec + "/hook"@;
    lemma_no_query_concat("http://localhost:"@, dec);
    lemma_no_query_concat("http://localhost:"@ + dec, "/hook"@);
    let rest = "token="@ + t + close;
    lemma_no_query_concat("token="@, t);
    lemma_no_query_concat("token="@ + t, close);
    let q = seq!['?'] + rest;
    let w = "token="@ + t + "\""@;
    assert forall|p: int| #![trigger q[p]] 0 <= p < q.len() && q[p] == '?' implies starts_with(q.skip(p + 1), w) by {
        if p == 0 {
            assert(q.skip(1) =~= rest);
            assert(rest.take(w.len() as int) =~= w);
        } else {
            assert(q[p] == rest[p - 1]);
        }
    }
    lemma_carry_plain(u, t);
    lemma_carry_concat(u, q, t);
    assert(endpoint("http://localhost:"@, port, t) + close =~= u + q);
}

proof fn lemma_carry_entry(name: Seq<char>, port: u16, t: Seq<char>)
    requires
        !t.contains('?'),
        !name.contains('?'),
    ensures
        queries_carry(snippet_entry(name, endpoint("http://localhost:"@, port, t)), t),
{
    let open = "    \""@;
    let mid = "\": [\n      {\n        \"matcher\": \".*\",\n        \"hooks\": [\n          {\n            \"type\": \"http\",\n            \"url\": \""@;
    let close = "\"\n          }\n        ]\n      }\n    ]"@;
    reveal_strlit("    \"");
    reveal_strlit("\": [\n      {\n        \"matcher\": \".*\",\n        \"hooks\": [\n          {\n            \"type\": \"http\",\n            \"url\": \"");
    let url = endpoint("http://localhost:"@, port, t);
    lemma_no_query_concat(open, name);
    lemma_no_query_concat(open + name, mid);
    lemma_carry_plain(open + name + mid, t);
    lemma_carry_url(port, t);
    lemma_carry_concat(open + name + mid, url + close, t);
    assert(snippet_entry(name, url) =~= (open + name + mid) + (url + close));
}

/// In the snippet, every `?` starts the query of an endpoint that carries
/// exactly its token.
proof fn lemma_snippet_carries(port: u16, t: Seq<char>)
    requires
        !t.contains('?'),
    ensures
        queries_carry(hooks_snippet(port, t), t),
{
    let url = endpoint("http://localhost:"@, port, t);
    let head = "{\n  \"hooks\": {\n"@;
    let sep = ",\n"@;
    let tail = "\n  }\n}"@;
    reveal_strlit("{\n  \"hooks\": {\n");
    reveal_strlit(",\n");
    reveal_strlit("\n  }\n}");
    reveal_strlit("SubagentStart");
    reveal_strlit("SubagentStop");
    reveal_strlit("PreToolUse");
    reveal_strlit("PostToolUse");
    reveal_strlit("Stop");
    lemma_carry_plain(head, t);
    lemma_carry_plain(sep, t);
    lemma_carry_plain(tail, t);
    let e1 = snippet_entry("SubagentStart"@, url);
    let e2 = snippet_entry("SubagentStop"@, url);
    let e3 = snippet_entry("PreToolUse"@, url);
    let e4 = snippet_entry("PostToolUse"@, url);
    let e5 = snippet_entry("Stop"@, url);
    lemma_carry_entry("SubagentStart"@, port, t);
    lemma_carry_entry("SubagentStop"@, port, t);
    lemma_carry_entry("PreToolUse"@, port, t);
    lemma_carry_entry("PostToolUse"@, port, t);
    lemma_carry_entry("Stop"@, port, t);
    lemma_carry_concat(head, e1, t);
    lemma_carry_concat(head + e1, sep, t);
    lemma_carry_concat(head + e1 + sep, e2, t);
    lemma_carry_concat(head + e1 + sep + e2, sep, t);
    lemma_carry_concat(head + e1 + sep + e2 + sep, e3, t);
    lemma_carry_concat(head + e1 + sep + e2 + sep + e3, sep, t);
    lemma_carry_concat(head + e1 + sep + e2 + sep + e3 + sep, e4, t);
    lemma_carry_concat(head + e1 + sep + e2 + sep + e3 + sep + e4, sep, t);
    lemma_carry_concat(head + e1 + sep + e2 + sep + e3 + sep + e4 + sep, e5, t);
    lemma_carry_concat(head + e1 + sep + e2 + sep + e3 + sep + e4 + sep + e5, tail, t);
}

/// A text that starts with token `t1` and a `"` starts with no other
/// token `t2` that ends where the token text ends.
proof fn lemma_quoted_prefix(r: Seq<char>, t1: Seq<char>, t2: Seq<char>)
    requires
        starts_with(r, t1 + "\""@),
        t2.len() <= r.len(),
        r.take(t2.len() as int) == t2,
        t2.len() == r.len() || !is_token_char(r[t2.len() as int]),
        is_token(t1),
        is_token(t2),
    ensures
        t1 == t2,
{
    reveal_strlit("\"");
    let w = t1 + "\""@;
    assert(r[t1.len() as int] == w[t1.len() as int]);
    assert(r.take(w.len() as int) == w);
    if t1.len() < t2.len() {
        assert(r[t1.len() as int] == r.take(t2.len() as int)[t1.len() as int]);
        assert(r[t1.len() as int] == t2[t1.len() as int]);
        assert(is_token_char(t2[t1.len() as int]));
    } else if t2.len() < t1.len() {
        assert(r.take(w.len() as int)[t2.len() as int] == r[t2.len() as int]);
        assert(w[t2.len() as int] == t1[t2.len() as int]);
        assert(r[t2.len() as int] == t1[t2.len() as int]);
        assert(is_token_char(t1[t2.len() as int]));
    } else {
        assert(t1 =~= r.take(t1.len() as int));
    }
}

proof fn lemma_endpoint_query(host: Seq<char>, port: u16, t: Seq<char>)
    ensures
        ({
            let e = endpoint(host, port, t);
            let k: int = host.len() + decimal(port as nat).len() + 5int;
            &&& e.len() == k + 7 + t.len()
            &&& e[k] == '?'
            &&& forall|j: int| 0 <= j < t.len() ==> e[k + 7 + j] == t[j]
        }),
{
    reveal_strlit("/hook?token=");
    let a = host + decimal(port as nat);
    let e = endpoint(host, port, t);
    assert(e =~= a + "/hook?token="@ + t);
}

/// After a `?` that carries `t1`, the text cannot hold `token=` and another
/// token `t2` that the token text ends with.
proof fn lemma_query_token(s: Seq<char>, q: int, t1: Seq<char>, t2: Seq<char>)
    requires
        0 <= q,
        q + 7 + t2.len() <= s.len(),
        starts_with(s.skip(q + 1), "token="@ + t1 + "\""@),
        forall|j: int| 0 <= j < t2.len() ==> s[q + 7 + j] == t2[j],
        q + 7 + t2.len() == s.len() || !is_token_char(s[q + 7 + t2.len()]),
        is_token(t1),
        is_token(t2),
    ensures
        t1 == t2,
{
    reveal_strlit("token=");
    reveal_strlit("\"");
    let w = "token="@ + t1 + "\""@;
    let v = t1 + "\""@;
    let r = s.skip(q + 7);
    assert(w.len() == 7 + t1.len());
    assert(w =~= "token="@ + v);
    let h = s.skip(q + 1).take(w.len() as int);
    assert(h == w);
    assert(starts_with(r, v)) by {
        assert forall|j: int| 0 <= j < v.len() implies r[j] == v[j] by {
            assert(h[6 + j] == s[q + 7 + j]);
            assert(w[6 + j] == v[j]);
        }
        assert(r.take(v.len() as int) =~= v);
    }
    assert(r.take(t2.len() as int) =~= t2);
    lemma_quoted_prefix(r, t1, t2);
}

proof fn lemma_no_other_token(s: Seq<char>, port: u16, t1: Seq<char>, t2: Seq<char>, host: Seq<char>)
    requires
        queries_carry(s, t1),
        t1 != t2,
        is_token(t1),
        is_token(t2),
    ensures
        !contains_whole_url(s, endpoint(host, port, t2)),
{
    let e = endpoint(host, port, t2);
    if contains_whole_url(s, e) {
        let i = choose|i: int| whole_url_at(s, e, i);
        lemma_endpoint_query(host, port, t2);
        let k: int = host.len() + decimal(port as nat).len() + 5int;
        let sub = s.subrange(i, i + e.len());
        assert(sub == e);
        assert(s[i + k] == '?') by {
            assert(sub[k] == s[i + k]);
        }
        assert forall|j: int| 0 <= j < t2.len() implies s[i + k + 7 + j] == t2[j] by {
            assert(sub[k + 7 + j] == s[i + k + 7 + j]);
        }
        lemma_query_token(s, i + k, t1, t2);
    }
}

/// The snippet for one token, checked against another token, is a token
/// mismatch on the right port.
pub proof fn lemma_snippet_other_token(port: u16, t1: Seq<char>, t2: Seq<char>)
    requires
        t1 != t2,
        is_token(t1),
        is_token(t2),
    ensures
        check_content_spec(hooks_snippet(port, t1), port, t2) == Some(
            HookConfigStatusV::EndpointMismatch("port "@ + decimal(port as nat) + " matched but token mismatch"@),
        ),
{
    reveal_strlit("localhost:");
    reveal_strlit("127.0.0.1:");
    let s = hooks_snippet(port, t1);
    assert(!t1.contains('?')) by {
        assert forall|j: int| 0 <= j < t1.len() implies t1[j] != '?' by {
            assert(is_token_char(t1[j]));
        }
    }
    lemma_snippet_carries(port, t1);
    lemma_no_other_token(s, port, t1, t2, "localhost:"@);
    lemma_no_other_token(s, port, t1, t2, "127.0.0.1:"@);
    let i = lemma_snippet_endpoint_at(port, t1);
    let e = endpoint("localhost:"@, port, t1);
    let pe = "localhost:"@ + decimal(port as nat);
    assert(s.subrange(i, i + pe.len()) =~= pe) by {
        assert(s.subrange(i, i + e.len()) == e);
        assert forall|j: int| 0 <= j < pe.len() implies s.subrange(i, i + pe.len())[j] == pe[j] by {
            assert(s.subrange(i, i + e.len())[j] == e[j]);
        }
    }
    assert(occurs_at(s, pe, i));
}

fn push_entry(out: &mut Vec<char>, name: &str, url: &[char])
    ensures
        final(out)@ == old(out)@ + snippet_entry(name@, url@),
{
    push_str(out, "    \"");
    push_str(out, name);
    push_str(
        out,
        "\": [\n      {\n        \"matcher\": \".*\",\n        \"hooks\": [\n          {\n            \"type\": \"http\",\n            \"url\": \"",
    );
    push_all(out, url);
    push_str(out, "\"\n          }\n        ]\n      }\n    ]");
}

/// Generate the hooks configuration snippet for the user to add to `settings.json`.
pub fn generate_hooks_snippet(port: u16, token: &str) -> (r: String)
    ensures
        r@ == hooks_snippet(port, token@),
{
    let url = endpoint_chars("http://localhost:", port, token);
    let mut out = chars_of("{\n  \"hooks\": {\n");
    push_entry(&mut out, "SubagentStart", &url);
    push_str(&mut out, ",\n");
    push_entry(&mut out, "SubagentStop", &url);
    push_str(&mut out, ",\n");
    push_entry(&mut out, "PreToolUse", &url);
    push_str(&mut out, ",\n");
    push_entry(&mut out, "PostToolUse", &url);
    push_str(&mut out, ",\n");
    push_entry(&mut out, "Stop", &url);
    push_str(&mut out, "\n  }\n}");
    string_of(&out)
}

} // verus!
