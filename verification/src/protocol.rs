//! Protocol responses and the requests that the protocol drivers make.
//!
//! The drivers themselves (HTTP, Postgres, Kafka, Cassandra clients) perform the
//! I/O; what is decided here is what they send, built from a step and the
//! virtual user's variables, and how their replies are recorded and read.
use vstd::prelude::*;
use crate::context::{interpolated, VuContext};
use crate::dsl::Step;
use crate::keymap::KeyMap;
use crate::text::{decimal_string, decimal_text, has_prefix, owned, parse_u64, spec_parse_u64, str_equal, strip_prefix};
use crate::value::{json_parse, json_text, parse_json, render_json, tags_named, yaml_json_text, yaml_to_json, Node};

verus! {

// ---------------------------------------------------------------------------
// Responses and extraction
// ---------------------------------------------------------------------------

/// A reply of any protocol, in one shape.
#[derive(Debug)]
pub struct ProtocolResponse {
    pub status_code: u16,
    pub latency_ms: u64,
    pub headers: KeyMap<String>,
    /// The body, when it is a JSON document.
    pub body_json: Option<Node>,
    /// The body, when it is text.
    pub body_text: Option<String>,
    pub body_bytes: Option<Vec<u8>>,
}

/// The pieces of `s` between the separators `sep` (at least one piece).
pub open spec fn split_on(s: Seq<char>, sep: char) -> Seq<Seq<char>>
    decreases s.len(),
{
    if s.len() == 0 {
        seq![Seq::<char>::empty()]
    } else {
        let prev = split_on(s.drop_last(), sep);
        if s.last() == sep {
            prev.push(Seq::<char>::empty())
        } else {
            prev.update(prev.len() - 1, prev.last().push(s.last()))
        }
    }
}

proof fn lemma_split_nonempty(s: Seq<char>, sep: char)
    ensures
        split_on(s, sep).len() >= 1,
    decreases s.len(),
{
    if s.len() > 0 {
        lemma_split_nonempty(s.drop_last(), sep);
    }
}

/// Splits `s` at every `sep`, as `str::split` does.
pub fn split_char(s: &str, sep: char) -> (r: Vec<String>)
    ensures
        r@.map_values(|p: String| p@) == split_on(s@, sep),
{
    let n = s.unicode_len();
    let mut parts: Vec<String> = Vec::new();
    let mut cur = String::new();
    let mut i: usize = 0;
    proof {
        assert(s@.take(0) =~= Seq::<char>::empty());
    }
    while i < n
        invariant
            n == s@.len(),
            i <= n,
            parts@.map_values(|p: String| p@).push(cur@) == split_on(s@.take(i as int), sep),
        decreases n - i,
    {
        let c = s.get_char(i);
        let ghost before = parts@.map_values(|p: String| p@).push(cur@);
        proof {
            assert(s@.take(i + 1).drop_last() =~= s@.take(i as int));
            assert(s@.take(i + 1).last() == c);
            lemma_split_nonempty(s@.take(i as int), sep);
        }
        if c == sep {
            let mut fresh = String::new();
            std::mem::swap(&mut fresh, &mut cur);
            parts.push(fresh);
            assert(parts@.map_values(|p: String| p@).push(cur@) =~= before.push(Seq::<char>::empty()));
        } else {
            let one = s.substring_char(i, i + 1);
            assert(one@ =~= seq![c]);
            let ghost old_cur = cur@;
            cur.append(one);
            assert(cur@ =~= old_cur.push(c));
            assert(parts@.map_values(|p: String| p@).push(cur@) =~= before.update(
                before.len() - 1,
                before.last().push(c),
            ));
        }
        i = i + 1;
    }
    assert(s@.take(n as int) =~= s@);
    let ghost all = parts@.map_values(|p: String| p@).push(cur@);
    parts.push(cur);
    assert(parts@.map_values(|p: String| p@) =~= all);
    parts
}

/// The value of the first member of an object with the key `k`.
pub open spec fn json_member(es: Seq<(Node, Node)>, k: Seq<char>) -> Option<Node>
    decreases es.len(),
{
    if es.len() == 0 {
        None
    } else if es[0].0 matches Node::String(s) && s@ == k {
        Some(es[0].1)
    } else {
        json_member(es.drop_first(), k)
    }
}

/// One step of a JSON path: an object's member by its key, or an array's element
/// by its index (a part that `str::parse::<usize>` reads).
pub open spec fn json_child(v: Node, part: Seq<char>) -> Option<Node> {
    match v {
        Node::Mapping(es) => json_member(es@, part),
        Node::Sequence(xs) => match spec_parse_u64(part) {
            Some(i) => if i < xs@.len() {
                Some(xs@[i as int])
            } else {
                None
            },
            None => None,
        },
        _ => None,
    }
}

/// The value that a JSON path leads to.
pub open spec fn json_walk(v: Node, parts: Seq<Seq<char>>) -> Option<Node>
    decreases parts.len(),
{
    if parts.len() == 0 {
        Some(v)
    } else {
        match json_child(v, parts[0]) {
            Some(c) => json_walk(c, parts.drop_first()),
            None => None,
        }
    }
}

/// How an extracted value reads as text: a string as its content, any other
/// value as its JSON text.
pub open spec fn leaf_text(v: Node) -> Seq<char> {
    match v {
        Node::String(s) => s@,
        _ => json_text(v),
    }
}

/// A path in bracket notation turned into dot notation: each `[` becomes `.` and
/// each `]` is dropped, so `orders[0].id` reads `orders.0.id`.
pub open spec fn dotted(s: Seq<char>) -> Seq<char>
    decreases s.len(),
{
    if s.len() == 0 {
        Seq::empty()
    } else {
        let prev = dotted(s.drop_last());
        if s.last() == '[' {
            prev.push('.')
        } else if s.last() == ']' {
            prev
        } else {
            prev.push(s.last())
        }
    }
}

/// The text that the JSON body yields at a dot-separated path.
pub open spec fn body_at(r: ProtocolResponse, path: Seq<char>) -> Option<Seq<char>> {
    match r.body_json {
        Some(j) => match json_walk(j, split_on(path, '.')) {
            Some(v) => Some(leaf_text(v)),
            None => None,
        },
        None => None,
    }
}

/// The text that an extraction path selects from a response: `header.NAME` reads
/// a header; `json.A.B.0` walks the JSON body; `response.body.A.B[0].C` walks it
/// too, in dot and bracket notation; anything else selects nothing.
pub open spec fn extracted(r: ProtocolResponse, path: Seq<char>) -> Option<Seq<char>> {
    if has_prefix(path, "header."@) {
        let k = path.subrange(7, path.len() as int);
        if r.headers@.contains_key(k) {
            Some(r.headers@[k]@)
        } else {
            None
        }
    } else if has_prefix(path, "json."@) {
        body_at(r, path.subrange(5, path.len() as int))
    } else if has_prefix(path, "response.body."@) {
        body_at(r, dotted(path.subrange(14, path.len() as int)))
    } else {
        None
    }
}

/// Turns bracket notation into dot notation (see [`dotted`]).
fn dotted_path(s: &str) -> (r: String)
    ensures
        r@ == dotted(s@),
{
    let n = s.unicode_len();
    let mut out = String::new();
    let mut i: usize = 0;
    proof {
        assert(s@.take(0) =~= Seq::<char>::empty());
    }
    while i < n
        invariant
            n == s@.len(),
            i <= n,
            out@ == dotted(s@.take(i as int)),
        decreases n - i,
    {
        let c = s.get_char(i);
        proof {
            assert(s@.take(i + 1).drop_last() =~= s@.take(i as int));
            assert(s@.take(i + 1).last() == c);
            reveal_strlit(".");
        }
        if c == '[' {
            out.append(".");
        } else if c != ']' {
            let one = s.substring_char(i, i + 1);
            assert(one@ =~= seq![c]);
            out.append(one);
        }
        i = i + 1;
    }
    assert(s@.take(n as int) =~= s@);
    out
}

fn member_of<'a>(es: &'a Vec<(Node, Node)>, k: &str) -> (r: Option<&'a Node>)
    ensures
        match r {
            Some(v) => json_member(es@, k@) == Some(*v),
            None => json_member(es@, k@) is None,
        },
{
    let n = es.len();
    let mut i: usize = 0;
    assert(es@.subrange(0, n as int) =~= es@);
    while i < n
        invariant
            n == es@.len(),
            i <= n,
            json_member(es@, k@) == json_member(es@.subrange(i as int, n as int), k@),
        decreases n - i,
    {
        let ghost rest = es@.subrange(i as int, n as int);
        assert(rest.drop_first() =~= es@.subrange(i + 1, n as int));
        assert(rest[0] == es@[i as int]);
        let hit = match &es[i].0 {
            Node::String(s) => str_equal(s.as_str(), k),
            _ => false,
        };
        if hit {
            return Some(&es[i].1);
        }
        i = i + 1;
    }
    None
}

fn child_of<'a>(v: &'a Node, part: &str) -> (r: Option<&'a Node>)
    ensures
        match r {
            Some(c) => json_child(*v, part@) == Some(*c),
            None => json_child(*v, part@) is None,
        },
{
    match v {
        Node::Mapping(es) => member_of(es, part),
        Node::Sequence(xs) => match parse_u64(part) {
            Some(i) => {
                if (i as u128) < (xs.len() as u128) {
                    Some(&xs[i as usize])
                } else {
                    None
                }
            },
            None => None,
        },
        _ => None,
    }
}

/// The text of the JSON body at a dot-separated path.
fn body_text_at(r: &ProtocolResponse, path: &str) -> (t: Option<String>)
    ensures
        match t {
            Some(x) => body_at(*r, path@) == Some(x@),
            None => body_at(*r, path@) is None,
        },
{
    let json = match &r.body_json {
        Some(j) => j,
        None => return None,
    };
    let parts = split_char(path, '.');
    let ghost views = parts@.map_values(|p: String| p@);
    let mut current: &Node = json;
    let mut i: usize = 0;
    assert(views.subrange(0, views.len() as int) =~= views);
    while i < parts.len()
        invariant
            i <= parts@.len(),
            views == parts@.map_values(|p: String| p@),
            views == split_on(path@, '.'),
            r.body_json == Some(*json),
            json_walk(*json, views) == json_walk(*current, views.subrange(i as int, views.len() as int)),
        decreases parts@.len() - i,
    {
        let ghost rest = views.subrange(i as int, views.len() as int);
        assert(rest[0] == parts@[i as int]@);
        assert(rest.drop_first() =~= views.subrange(i + 1, views.len() as int));
        match child_of(current, parts[i].as_str()) {
            Some(next) => {
                current = next;
            },
            None => {
                assert(json_walk(*current, rest) is None);
                return None;
            },
        }
        i = i + 1;
    }
    assert(views.subrange(i as int, views.len() as int) =~= Seq::<Seq<char>>::empty());
    match current {
        Node::String(s) => Some(s.clone()),
        _ => Some(render_json(current)),
    }
}

impl ProtocolResponse {
    /// The text that `path` selects from this response (see [`extracted`]).
    pub fn extract(&self, path: &str) -> (r: Option<String>)
        ensures
            match r {
                Some(t) => extracted(*self, path@) == Some(t@),
                None => extracted(*self, path@) is None,
            },
    {
        proof {
            reveal_strlit("header.");
            reveal_strlit("json.");
            reveal_strlit("response.body.");
        }
        if let Some(header_key) = strip_prefix(path, "header.") {
            return match self.headers.get(header_key) {
                Some(v) => Some(v.clone()),
                None => None,
            };
        }
        if let Some(json_path) = strip_prefix(path, "json.") {
            return body_text_at(self, json_path);
        }
        if let Some(body_path) = strip_prefix(path, "response.body.") {
            let d = dotted_path(body_path);
            return body_text_at(self, d.as_str());
        }
        None
    }
}

// ---------------------------------------------------------------------------
// Recording replies
// ---------------------------------------------------------------------------

/// The text that a byte string spells in UTF-8, `None` when it is not UTF-8.
pub uninterp spec fn utf8_text(bytes: Seq<u8>) -> Option<Seq<char>>;

/// Decodes bytes with `String::from_utf8`; the outcome is the one that
/// `utf8_text` names for them.
#[verifier::external_body]
fn decode_utf8(bytes: &Vec<u8>) -> (r: Option<String>)
    ensures
        match r {
            Some(t) => utf8_text(bytes@) == Some(t@),
            None => utf8_text(bytes@) is None,
        },
{
    String::from_utf8(bytes.clone()).ok()
}

/// A map of strings taken as texts.
pub open spec fn text_values(m: Map<Seq<char>, String>) -> Map<Seq<char>, Seq<char>> {
    m.map_values(|s: String| s@)
}

/// The map that name/value pairs stand for; a later pair replaces an earlier one
/// with the same name.
pub open spec fn pairs_map(ps: Seq<(String, String)>) -> Map<Seq<char>, Seq<char>>
    decreases ps.len(),
{
    if ps.len() == 0 {
        Map::empty()
    } else {
        pairs_map(ps.drop_last()).insert(ps.last().0@, ps.last().1@)
    }
}

impl ProtocolResponse {
    /// The record of an HTTP reply: its status, latency and headers (the ones
    /// whose value is text, in order, a later one replacing an earlier one of the
    /// same name), and its body as bytes, as text when it is UTF-8, and as JSON when
    /// that text parses.
    pub fn from_http(status_code: u16, latency_ms: u64, header_pairs: Vec<(String, String)>, bytes: Vec<u8>) -> (r: ProtocolResponse)
        ensures
            r.status_code == status_code,
            r.latency_ms == latency_ms,
            text_values(r.headers@) == pairs_map(header_pairs@),
            r.body_bytes == Some(bytes),
            match utf8_text(bytes@) {
                Some(t) => r.body_text matches Some(s) && s@ == t && r.body_json == json_parse(t),
                None => r.body_text is None && r.body_json is None,
            },
    {
        let mut headers: KeyMap<String> = KeyMap::new();
        let n = header_pairs.len();
        let mut i: usize = 0;
        assert(text_values(headers@) =~= pairs_map(header_pairs@.take(0)));
        while i < n
            invariant
                n == header_pairs@.len(),
                i <= n,
                text_values(headers@) == pairs_map(header_pairs@.take(i as int)),
            decreases n - i,
        {
            let k = header_pairs[i].0.clone();
            let v = header_pairs[i].1.clone();
            let ghost before = text_values(headers@);
            headers.insert(k, v);
            proof {
                assert(header_pairs@.take(i + 1).drop_last() =~= header_pairs@.take(i as int));
                assert(text_values(headers@) =~= before.insert(header_pairs@[i as int].0@, header_pairs@[i as int].1@));
            }
            i = i + 1;
        }
        assert(header_pairs@.take(n as int) =~= header_pairs@);
        let text = decode_utf8(&bytes);
        let body_json = match &text {
            Some(t) => parse_json(t.as_str()),
            None => None,
        };
        ProtocolResponse { status_code, latency_ms, headers, body_json, body_text: text, body_bytes: Some(bytes) }
    }
}

/// The variables after extracting, in order, each `(variable, path)` pair from
/// a response: a path that selects nothing leaves the variable as it was.
pub open spec fn with_extractions(
    vars: Map<Seq<char>, Seq<char>>,
    pairs: Seq<(Seq<char>, String)>,
    r: ProtocolResponse,
) -> Map<Seq<char>, Seq<char>>
    decreases pairs.len(),
{
    if pairs.len() == 0 {
        vars
    } else {
        let prev = with_extractions(vars, pairs.drop_last(), r);
        match extracted(r, pairs.last().1@) {
            Some(t) => prev.insert(pairs.last().0, t),
            None => prev,
        }
    }
}

/// Stores into the context the values that a step's `extract` map selects from a
/// response.
pub fn apply_extractions(ctx: &mut VuContext, response: &ProtocolResponse, extract: &KeyMap<String>)
    ensures
        text_values(final(ctx).variables@) == with_extractions(
            text_values(old(ctx).variables@),
            extract.pairs(),
            *response,
        ),
        final(ctx).vu_id == old(ctx).vu_id,
        final(ctx).run_id == old(ctx).run_id,
{
    let n = extract.len();
    let mut i: usize = 0;
    let ghost start = text_values(ctx.variables@);
    assert(extract.pairs().take(0) =~= Seq::<(Seq<char>, String)>::empty());
    while i < n
        invariant
            n == extract.pairs().len(),
            i <= n,
            text_values(ctx.variables@) == with_extractions(start, extract.pairs().take(i as int), *response),
            ctx.vu_id == old(ctx).vu_id,
            ctx.run_id == old(ctx).run_id,
            start == text_values(old(ctx).variables@),
        decreases n - i,
    {
        let var = extract.key_at(i);
        let path = extract.value_at(i);
        proof {
            assert(extract.pairs().take(i + 1).drop_last() =~= extract.pairs().take(i as int));
        }
        let ghost before = text_values(ctx.variables@);
        match response.extract(path.as_str()) {
            Some(v) => {
                let ghost vv = v@;
                ctx.set(var.clone(), v);
                assert(text_values(ctx.variables@) =~= before.insert(var@, vv));
            },
            None => {},
        }
        i = i + 1;
    }
    assert(extract.pairs().take(n as int) =~= extract.pairs());
}

// ---------------------------------------------------------------------------
// Requests
// ---------------------------------------------------------------------------

/// An optional string as text, or `d` when absent.
pub open spec fn text_or(o: Option<String>, d: Seq<char>) -> Seq<char> {
    match o {
        Some(s) => s@,
        None => d,
    }
}

/// The JSON text of a structured body: what `serde_json::to_string` writes for
/// it, or nothing when it refuses the value.
pub open spec fn body_json_text(body: Node) -> Seq<char> {
    match yaml_json_text(body) {
        Some(t) => t,
        None => Seq::empty(),
    }
}

/// The upper-case form of a text, as `str::to_uppercase` gives it.
pub uninterp spec fn uppercase(s: Seq<char>) -> Seq<char>;

/// Upper-cases a text with `str::to_uppercase`.
#[verifier::external_body]
fn to_upper(s: &str) -> (r: String)
    ensures
        r@ == uppercase(s@),
{
    s.to_uppercase()
}

/// The HTTP methods that a step can use.
#[derive(Debug, Clone, Copy, PartialEq, Eq, Structural)]
pub enum HttpMethod {
    Get,
    Post,
    Put,
    Delete,
    Patch,
}

/// The method that an upper-cased method name selects; an unknown name is `GET`.
pub open spec fn method_named(upper: Seq<char>) -> HttpMethod {
    if upper == "GET"@ {
        HttpMethod::Get
    } else if upper == "POST"@ {
        HttpMethod::Post
    } else if upper == "PUT"@ {
        HttpMethod::Put
    } else if upper == "DELETE"@ {
        HttpMethod::Delete
    } else if upper == "PATCH"@ {
        HttpMethod::Patch
    } else {
        HttpMethod::Get
    }
}

/// The method of an HTTP step: its `method` (default `GET`), compared in upper case.
pub open spec fn step_method(step: Step) -> HttpMethod {
    method_named(uppercase(text_or(step.method, "GET"@)))
}

/// An HTTP request as the HTTP driver sends it.
#[derive(Debug)]
pub struct HttpRequest {
    pub method: HttpMethod,
    pub url: String,
    /// The step's headers, in order, values interpolated.
    pub headers: Vec<(String, String)>,
    pub body: Option<String>,
    /// The body is the JSON text of a structured value (sent as `application/json`).
    pub json_body: bool,
}

/// The driver for HTTP steps.
pub struct HttpExecutor;

impl HttpExecutor {
    /// The request for an HTTP step: the method; the endpoint (default `/`)
    /// interpolated; the headers with interpolated values; a string body
    /// interpolated as is, another body written as JSON text and then interpolated.
    pub fn request(step: &Step, ctx: &VuContext) -> (r: HttpRequest)
        requires
            body_tags_named(*step),
        ensures
            r.method == step_method(*step),
            r.url@ == interpolated(text_or(step.endpoint, "/"@), ctx.variables@),
            match step.headers {
                Some(h) => r.headers@.len() == h.pairs().len() && forall|i: int|
                    0 <= i < r.headers@.len() ==> (#[trigger] r.headers@[i]).0@ == h.pairs()[i].0
                        && r.headers@[i].1@ == interpolated(h.pairs()[i].1@, ctx.variables@),
                None => r.headers@.len() == 0,
            },
            match step.body {
                None => r.body is None && !r.json_body,
                Some(Node::String(s)) => r.body matches Some(b) && b@ == interpolated(s@, ctx.variables@)
                    && !r.json_body,
                Some(other) => r.body matches Some(b) && b@ == interpolated(body_json_text(other), ctx.variables@)
                    && r.json_body,
            },
    {
        proof {
            reveal_strlit("GET");
            reveal_strlit("/");
        }
        let upper = match &step.method {
            Some(m) => to_upper(m.as_str()),
            None => to_upper("GET"),
        };
        let u = upper.as_str();
        let method = if str_equal(u, "GET") {
            HttpMethod::Get
        } else if str_equal(u, "POST") {
            HttpMethod::Post
        } else if str_equal(u, "PUT") {
            HttpMethod::Put
        } else if str_equal(u, "DELETE") {
            HttpMethod::Delete
        } else if str_equal(u, "PATCH") {
            HttpMethod::Patch
        } else {
            HttpMethod::Get
        };
        let url = match &step.endpoint {
            Some(e) => ctx.interpolate(e.as_str()),
            None => ctx.interpolate("/"),
        };
        let mut headers: Vec<(String, String)> = Vec::new();
        if let Some(h) = &step.headers {
            let n = h.len();
            let mut i: usize = 0;
            while i < n
                invariant
                    n == h.pairs().len(),
                    i <= n,
                    headers@.len() == i,
                    forall|j: int|
                        0 <= j < i ==> (#[trigger] headers@[j]).0@ == h.pairs()[j].0 && headers@[j].1@
                            == interpolated(h.pairs()[j].1@, ctx.variables@),
                decreases n - i,
            {
                let k = h.key_at(i).clone();
                let v = ctx.interpolate(h.value_at(i).as_str());
                headers.push((k, v));
                i = i + 1;
            }
        }
        let (body, json_body) = match &step.body {
            None => (None, false),
            Some(Node::String(s)) => (Some(ctx.interpolate(s.as_str())), false),
            Some(other) => {
                let text = match yaml_to_json(other) {
                    Some(t) => t,
                    None => String::new(),
                };
                (Some(ctx.interpolate(text.as_str())), true)
            },
        };
        HttpRequest { method, url, headers, body, json_body }
    }
}

/// The address of a step's database or broker: its `connection`, else its `endpoint`.
pub open spec fn endpoint_of(step: Step) -> Option<Seq<char>> {
    match step.connection {
        Some(c) => Some(c@),
        None => match step.endpoint {
            Some(e) => Some(e@),
            None => None,
        },
    }
}

/// The query of a database step: its `query`, else its body when that is a string.
pub open spec fn query_of(step: Step) -> Option<Seq<char>> {
    match step.query {
        Some(q) => Some(q@),
        None => match step.body {
            Some(Node::String(s)) => Some(s@),
            _ => None,
        },
    }
}

/// A query to run against a database.
#[derive(Debug)]
pub struct QueryTarget {
    /// The connection address, interpolated.
    pub url: String,
    /// The query text, interpolated.
    pub query: String,
}

/// The query of a database step; the errors name what the step lacks.
fn query_target(step: &Step, ctx: &VuContext, no_endpoint: &str, no_query: &str) -> (r: Result<QueryTarget, String>)
    ensures
        match endpoint_of(*step) {
            None => r matches Err(e) && e@ == no_endpoint@,
            Some(ep) => match query_of(*step) {
                None => r matches Err(e) && e@ == no_query@,
                Some(q) => r matches Ok(t) && t.url@ == interpolated(ep, ctx.variables@) && t.query@
                    == interpolated(q, ctx.variables@),
            },
        },
{
    let endpoint = match &step.connection {
        Some(c) => c.as_str(),
        None => match &step.endpoint {
            Some(e) => e.as_str(),
            None => return Err(owned(no_endpoint)),
        },
    };
    let url = ctx.interpolate(endpoint);
    let query = match &step.query {
        Some(q) => q.as_str(),
        None => match &step.body {
            Some(Node::String(s)) => s.as_str(),
            _ => return Err(owned(no_query)),
        },
    };
    let query = ctx.interpolate(query);
    Ok(QueryTarget { url, query })
}

/// A result row: column names with their values as text (`None` when the value is
/// SQL `NULL` or of a type that is not read).
pub open spec fn row_view(row: Vec<(String, Option<String>)>) -> Seq<(Seq<char>, Option<Seq<char>>)> {
    row@.map_values(
        |c: (String, Option<String>)|
            (
                c.0@,
                match c.1 {
                    Some(v) => Some(v@),
                    None => None,
                },
            ),
    )
}

/// `j` is the JSON object `{"row_count": N, "rows": [...]}` of a query result,
/// each row an object of its columns, a value a string or `null`.
pub open spec fn rows_document(j: Node, rows: Seq<Vec<(String, Option<String>)>>) -> bool {
    j matches Node::Mapping(es) && {
        &&& es@.len() == 2
        &&& es@[0].0 matches Node::String(k) && k@ == "row_count"@
        &&& es@[0].1 matches Node::Number(t) && t@ == decimal_text(rows.len())
        &&& es@[1].0 matches Node::String(k) && k@ == "rows"@
        &&& es@[1].1 matches Node::Sequence(items) && items@.len() == rows.len() && forall|i: int|
            0 <= i < rows.len() ==> row_object(#[trigger] items@[i], row_view(rows[i]))
    }
}

/// `o` is the JSON object of a result row.
pub open spec fn row_object(o: Node, row: Seq<(Seq<char>, Option<Seq<char>>)>) -> bool {
    o matches Node::Mapping(cols) && cols@.len() == row.len() && forall|k: int|
        0 <= k < row.len() ==> {
            &&& (#[trigger] cols@[k]).0 matches Node::String(name) && name@ == row[k].0
            &&& match row[k].1 {
                Some(v) => cols@[k].1 matches Node::String(t) && t@ == v,
                None => cols@[k].1 is Null,
            }
        }
}

fn row_node(row: Vec<(String, Option<String>)>) -> (o: Node)
    ensures
        row_object(o, row_view(row)),
{
    let mut cols: Vec<(Node, Node)> = Vec::new();
    let n = row.len();
    let mut i: usize = 0;
    let ghost rv = row_view(row);
    while i < n
        invariant
            n == row@.len(),
            i <= n,
            rv == row_view(row),
            cols@.len() == i,
            forall|k: int|
                0 <= k < i ==> {
                    &&& (#[trigger] cols@[k]).0 matches Node::String(name) && name@ == rv[k].0
                    &&& match rv[k].1 {
                        Some(v) => cols@[k].1 matches Node::String(t) && t@ == v,
                        None => cols@[k].1 is Null,
                    }
                },
        decreases n - i,
    {
        let name = row[i].0.clone();
        let value = match &row[i].1 {
            Some(v) => Node::String(v.clone()),
            None => Node::Null,
        };
        cols.push((Node::String(name), value));
        i = i + 1;
    }
    Node::Mapping(cols)
}

fn no_headers() -> (h: KeyMap<String>)
    ensures
        h@ == Map::<Seq<char>, String>::empty(),
{
    KeyMap::new()
}

/// The driver for Postgres steps.
pub struct PostgresExecutor;

impl PostgresExecutor {
    /// The query of a Postgres step: the interpolated `connection` (else
    /// `endpoint`) and the interpolated `query` (else string body).
    pub fn target(step: &Step, ctx: &VuContext) -> (r: Result<QueryTarget, String>)
        ensures
            match endpoint_of(*step) {
                None => r matches Err(e) && e@ == "Postgres protocol requires an endpoint or connection"@,
                Some(ep) => match query_of(*step) {
                    None => r matches Err(e) && e@
                        == "Postgres protocol requires a SQL query string in the 'query' or 'body' field"@,
                    Some(q) => r matches Ok(t) && t.url@ == interpolated(ep, ctx.variables@) && t.query@
                        == interpolated(q, ctx.variables@),
                },
            },
    {
        query_target(
            step,
            ctx,
            "Postgres protocol requires an endpoint or connection",
            "Postgres protocol requires a SQL query string in the 'query' or 'body' field",
        )
    }

    /// The record of a query result: status 200 and the rows as a JSON document.
    pub fn response(latency_ms: u64, rows: Vec<Vec<(String, Option<String>)>>) -> (r: ProtocolResponse)
        ensures
            r.status_code == 200,
            r.latency_ms == latency_ms,
            r.headers@ == Map::<Seq<char>, String>::empty(),
            r.body_text is None,
            r.body_bytes is None,
            r.body_json matches Some(j) && rows_document(j, rows@),
    {
        proof {
            reveal_strlit("row_count");
            reveal_strlit("rows");
        }
        let count = Node::Number(decimal_string(rows.len() as u64));
        let ghost all = rows@;
        let mut rest = rows;
        let mut items: Vec<Node> = Vec::new();
        let n = rest.len();
        let mut i: usize = 0;
        while i < n
            invariant
                n == all.len(),
                i <= n,
                rest@ == all.subrange(i as int, n as int),
                items@.len() == i,
                forall|k: int| 0 <= k < i ==> row_object(#[trigger] items@[k], row_view(all[k])),
            decreases n - i,
        {
            let row = rest.remove(0);
            assert(row == all[i as int]);
            assert(rest@ =~= all.subrange(i + 1, n as int));
            items.push(row_node(row));
            i = i + 1;
        }
        let mut es: Vec<(Node, Node)> = Vec::new();
        es.push((Node::String(owned("row_count")), count));
        es.push((Node::String(owned("rows")), Node::Sequence(items)));
        ProtocolResponse {
            status_code: 200,
            latency_ms,
            headers: no_headers(),
            body_json: Some(Node::Mapping(es)),
            body_text: None,
            body_bytes: None,
        }
    }
}

/// The driver for Cassandra steps.
pub struct CassandraExecutor;

impl CassandraExecutor {
    /// The query of a Cassandra step: the interpolated `connection` (else
    /// `endpoint`) and the interpolated `query` (else string body).
    pub fn target(step: &Step, ctx: &VuContext) -> (r: Result<QueryTarget, String>)
        ensures
            match endpoint_of(*step) {
                None => r matches Err(e) && e@ == "Cassandra protocol requires an endpoint or connection"@,
                Some(ep) => match query_of(*step) {
                    None => r matches Err(e) && e@
                        == "Cassandra protocol requires a CQL query string in the 'query' or 'body' field"@,
                    Some(q) => r matches Ok(t) && t.url@ == interpolated(ep, ctx.variables@) && t.query@
                        == interpolated(q, ctx.variables@),
                },
            },
    {
        query_target(
            step,
            ctx,
            "Cassandra protocol requires an endpoint or connection",
            "Cassandra protocol requires a CQL query string in the 'query' or 'body' field",
        )
    }

    /// The record of a CQL result: status 200 and `{"row_count": N}`, N the number
    /// of rows returned (0 when the statement returns no rows).
    pub fn response(latency_ms: u64, row_count: Option<u64>) -> (r: ProtocolResponse)
        ensures
            r.status_code == 200,
            r.latency_ms == latency_ms,
            r.headers@ == Map::<Seq<char>, String>::empty(),
            r.body_text is None,
            r.body_bytes is None,
            r.body_json matches Some(Node::Mapping(es)) && es@.len() == 1 && (es@[0].0 matches Node::String(k)
                && k@ == "row_count"@) && (es@[0].1 matches Node::Number(t) && t@ == decimal_text(
                match row_count {
                    Some(c) => c as nat,
                    None => 0,
                },
            )),
    {
        proof {
            reveal_strlit("row_count");
        }
        let c = match row_count {
            Some(c) => c,
            None => 0,
        };
        let mut es: Vec<(Node, Node)> = Vec::new();
        es.push((Node::String(owned("row_count")), Node::Number(decimal_string(c))));
        ProtocolResponse {
            status_code: 200,
            latency_ms,
            headers: no_headers(),
            body_json: Some(Node::Mapping(es)),
            body_text: None,
            body_bytes: None,
        }
    }
}

/// The topic of a Kafka step: its `topic` field, else its `topic` header.
pub open spec fn topic_of(step: Step) -> Option<Seq<char>> {
    match step.topic {
        Some(t) => Some(t@),
        None => header_topic(step),
    }
}

/// The `topic` header of a step.
pub open spec fn header_topic(step: Step) -> Option<Seq<char>> {
    match step.headers {
        Some(h) => if h@.contains_key("topic"@) {
            Some(h@["topic"@]@)
        } else {
            None
        },
        None => None,
    }
}

/// Every tag in the step's body has a name (the body is written out as JSON
/// through serde_yaml's value type, which has no empty tag).
pub open spec fn body_tags_named(step: Step) -> bool {
    step.body matches Some(b) ==> tags_named(b)
}

/// The payload of a Kafka step: its string body, else the JSON text of its body,
/// else nothing.
pub open spec fn kafka_payload(body: Option<Node>) -> Seq<char> {
    match body {
        Some(Node::String(s)) => s@,
        Some(other) => body_json_text(other),
        None => Seq::empty(),
    }
}

/// A message to produce to Kafka.
#[derive(Debug)]
pub struct KafkaMessage {
    pub brokers: String,
    pub topic: String,
    pub payload: String,
}

/// The driver for Kafka (and Event Hubs) steps.
pub struct KafkaExecutor;

impl KafkaExecutor {
    /// The message of a Kafka step: the brokers (`connection`, else `endpoint`),
    /// the topic (the `topic` field, else the `topic` header) and the payload,
    /// each interpolated.
    pub fn message(step: &Step, ctx: &VuContext) -> (r: Result<KafkaMessage, String>)
        requires
            body_tags_named(*step),
        ensures
            match endpoint_of(*step) {
                None => r matches Err(e) && e@ == "Kafka protocol requires an endpoint (brokers)"@,
                Some(ep) => match topic_of(*step) {
                    None => r matches Err(e) && e@ == "Kafka protocol requires a 'topic' header"@,
                    Some(t) => r matches Ok(m) && m.brokers@ == interpolated(ep, ctx.variables@) && m.topic@
                        == interpolated(t, ctx.variables@) && m.payload@ == interpolated(
                        kafka_payload(step.body),
                        ctx.variables@,
                    ),
                },
            },
    {
        let endpoint = match &step.connection {
            Some(c) => c.as_str(),
            None => match &step.endpoint {
                Some(e) => e.as_str(),
                None => return Err(owned("Kafka protocol requires an endpoint (brokers)")),
            },
        };
        let brokers = ctx.interpolate(endpoint);
        let topic = match &step.topic {
            Some(t) => ctx.interpolate(t.as_str()),
            None => match &step.headers {
                Some(h) => match h.get("topic") {
                    Some(t) => ctx.interpolate(t.as_str()),
                    None => return Err(owned("Kafka protocol requires a 'topic' header")),
                },
                None => return Err(owned("Kafka protocol requires a 'topic' header")),
            },
        };
        let payload = match &step.body {
            Some(Node::String(s)) => ctx.interpolate(s.as_str()),
            Some(other) => {
                let text = match yaml_to_json(other) {
                    Some(t) => t,
                    None => String::new(),
                };
                ctx.interpolate(text.as_str())
            },
            None => ctx.interpolate(""),
        };
        proof {
            reveal_strlit("");
        }
        Ok(KafkaMessage { brokers, topic, payload })
    }

    /// The record of a produced message: status 200 and the text `Message produced`.
    pub fn response(latency_ms: u64) -> (r: ProtocolResponse)
        ensures
            r.status_code == 200,
            r.latency_ms == latency_ms,
            r.headers@ == Map::<Seq<char>, String>::empty(),
            r.body_json is None,
            r.body_text matches Some(t) && t@ == "Message produced"@,
            r.body_bytes is None,
    {
        ProtocolResponse {
            status_code: 200,
            latency_ms,
            headers: no_headers(),
            body_json: None,
            body_text: Some(owned("Message produced")),
            body_bytes: None,
        }
    }
}

} // verus!
