use vstd::prelude::*;
use vstd::utf8::encode_utf8;

use crate::json::{
    get, get_i64, get_str, json_get, json_of_bytes, member_i64, member_str, parse_json, JsonValue,
};
use crate::text::{
    chars_of, has_prefix, range_equals, range_has_prefix, string_of_range, strip_prefixes,
    strip_prefixes_bound, trim, trim_bounds, split_on, lemma_split_on_nonempty,
};

verus! {

broadcast use vstd::string::group_string_axioms;

/// Token usage reported by an upstream API for one request.
pub struct UsageStats {
    pub input_tokens: i64,
    pub output_tokens: i64,
    pub model: Option<String>,
}

/// The mathematical content of a `UsageStats`.
pub struct UsageView {
    pub input_tokens: i64,
    pub output_tokens: i64,
    pub model: Option<Seq<char>>,
}

/// The characters of an optional string.
pub open spec fn opt_chars(o: Option<String>) -> Option<Seq<char>> {
    match o {
        Some(s) => Some(s@),
        None => None,
    }
}

impl View for UsageStats {
    type V = UsageView;

    open spec fn view(&self) -> UsageView {
        UsageView {
            input_tokens: self.input_tokens,
            output_tokens: self.output_tokens,
            model: opt_chars(self.model),
        }
    }
}

/// The view of an optional `UsageStats`.
pub open spec fn opt_usage(o: Option<UsageStats>) -> Option<UsageView> {
    match o {
        Some(u) => Some(u@),
        None => None,
    }
}

impl Default for UsageStats {
    fn default() -> (r: UsageStats)
        ensures
            r.input_tokens == 0,
            r.output_tokens == 0,
            r.model is None,
    {
        UsageStats { input_tokens: 0, output_tokens: 0, model: None }
    }
}

/// The model named by a response document: its own `model`, else that of its `message`.
pub open spec fn usage_model(v: JsonValue) -> Option<Seq<char>> {
    match member_str(v, "model"@) {
        Some(m) => Some(m),
        None => match json_get(v, "message"@) {
            Some(msg) => member_str(msg, "model"@),
            None => None,
        },
    }
}

/// An integer member of `u` under the first of two names that holds one, else 0.
pub open spec fn count_of(u: JsonValue, name: Seq<char>, alias: Seq<char>) -> i64 {
    match member_i64(u, name) {
        Some(n) => n,
        None => match member_i64(u, alias) {
            Some(n) => n,
            None => 0,
        },
    }
}

/// The usage a `usage` object reports: Anthropic's or OpenAI's counter names, and nothing
/// when it reports neither tokens nor a model.
pub open spec fn usage_of_object(u: JsonValue, model: Option<Seq<char>>) -> Option<UsageView> {
    let input = count_of(u, "input_tokens"@, "prompt_tokens"@);
    let output = count_of(u, "output_tokens"@, "completion_tokens"@);
    if input == 0 && output == 0 && model is None {
        None
    } else {
        Some(UsageView { input_tokens: input, output_tokens: output, model })
    }
}

/// The usage a response document reports, in its `usage` member or in that of its `message`.
pub open spec fn usage_of_json(v: JsonValue) -> Option<UsageView> {
    let model = usage_model(v);
    match json_get(v, "usage"@) {
        Some(u) => usage_of_object(u, model),
        None => match json_get(v, "message"@) {
            Some(msg) => match json_get(msg, "usage"@) {
                Some(u) => usage_of_object(u, model),
                None => None,
            },
            None => None,
        },
    }
}

/// The usage a response body reports, if it is a JSON document that reports one.
pub open spec fn usage_of_body(body: Seq<u8>) -> Option<UsageView> {
    match json_of_bytes(body) {
        Some(v) => usage_of_json(v),
        None => None,
    }
}

/// The payload of a server-sent-events line: what follows `data:` once trimmed, unless it is
/// empty or the `[DONE]` marker.
pub open spec fn sse_payload(line: Seq<char>) -> Option<Seq<char>> {
    let t = trim(line);
    if has_prefix(t, "data:"@) {
        let p = trim(strip_prefixes(t, "data:"@));
        if p == "[DONE]"@ || p.len() == 0 {
            None
        } else {
            Some(p)
        }
    } else {
        None
    }
}

/// The usage one event-stream line reports.
pub open spec fn sse_line_usage(line: Seq<char>) -> Option<UsageView> {
    match sse_payload(line) {
        Some(p) => usage_of_body(encode_utf8(p)),
        None => None,
    }
}

/// The usage reported by the last line of `lines` that reports one.
pub open spec fn last_usage(lines: Seq<Seq<char>>) -> Option<UsageView>
    decreases lines.len(),
{
    if lines.len() == 0 {
        None
    } else {
        match sse_line_usage(lines.last()) {
            Some(u) => Some(u),
            None => last_usage(lines.drop_last()),
        }
    }
}

/// The usage of a `usage` object, with the model already found.
pub fn from_usage_object(usage_obj: &JsonValue, model: Option<String>) -> (r: Option<UsageStats>)
    ensures
        opt_usage(r) == usage_of_object(*usage_obj, opt_chars(model)),
{
    let input = match get_i64(usage_obj, "input_tokens") {
        Some(n) => n,
        None => match get_i64(usage_obj, "prompt_tokens") {
            Some(n) => n,
            None => 0,
        },
    };
    let output = match get_i64(usage_obj, "output_tokens") {
        Some(n) => n,
        None => match get_i64(usage_obj, "completion_tokens") {
            Some(n) => n,
            None => 0,
        },
    };
    if input == 0 && output == 0 && model.is_none() {
        return None;
    }
    Some(UsageStats { input_tokens: input, output_tokens: output, model })
}

/// The usage a parsed response document reports.
pub fn extract_usage(value: &JsonValue) -> (r: Option<UsageStats>)
    ensures
        opt_usage(r) == usage_of_json(*value),
{
    let model: Option<String> = match get_str(value, "model") {
        Some(m) => Some(m.clone()),
        None => match get(value, "message") {
            Some(msg) => match get_str(msg, "model") {
                Some(m) => Some(m.clone()),
                None => None,
            },
            None => None,
        },
    };
    if let Some(usage_obj) = get(value, "usage") {
        return from_usage_object(usage_obj, model);
    }
    if let Some(message) = get(value, "message") {
        if let Some(usage_obj) = get(message, "usage") {
            return from_usage_object(usage_obj, model);
        }
    }
    None
}

/// The usage a JSON response body reports.
pub fn usage_from_json_body(body: &[u8]) -> (r: Option<UsageStats>)
    ensures
        opt_usage(r) == usage_of_body(body@),
{
    match parse_json(body) {
        Some(v) => extract_usage(&v),
        None => None,
    }
}

/// The usage the line `v[lo..hi]` of an event stream reports.
fn sse_range_usage(v: &[char], lo: usize, hi: usize, data: &[char], done: &[char]) -> (r: Option<
    UsageStats,
>)
    requires
        lo <= hi <= v@.len(),
        data@ == "data:"@,
        done@ == "[DONE]"@,
    ensures
        opt_usage(r) == sse_line_usage(v@.subrange(lo as int, hi as int)),
{
    let (a, b) = trim_bounds(v, lo, hi);
    if !range_has_prefix(v, a, b, data) {
        return None;
    }
    let c = strip_prefixes_bound(v, a, b, data);
    let (d, e) = trim_bounds(v, c, b);
    if range_equals(v, d, e, done) || d == e {
        return None;
    }
    let payload = string_of_range(v, d, e);
    usage_from_json_body(payload.as_str().as_bytes())
}

/// The usage reported by the last line of a server-sent-events chunk that reports one.
pub fn usage_from_sse_chunk(chunk: &str) -> (r: Option<UsageStats>)
    ensures
        opt_usage(r) == last_usage(split_on(chunk@, '\n')),
{
    let v = chars_of(chunk);
    let data = chars_of("data:");
    let done = chars_of("[DONE]");
    let mut latest: Option<UsageStats> = None;
    let mut start: usize = 0;
    let mut i: usize = 0;
    let ghost mut lines: Seq<Seq<char>> = Seq::empty();
    assert(v@.take(0) =~= Seq::<char>::empty());
    assert(v@.subrange(0, 0) =~= Seq::<char>::empty());
    while i < v.len()
        invariant
            v@ == chunk@,
            data@ == "data:"@,
            done@ == "[DONE]"@,
            start <= i <= v@.len(),
            split_on(v@.take(i as int), '\n') == lines.push(v@.subrange(start as int, i as int)),
            opt_usage(latest) == last_usage(lines),
        decreases v.len() - i,
    {
        proof {
            lemma_split_on_nonempty(v@.take(i as int), '\n');
            assert(v@.take(i + 1).drop_last() =~= v@.take(i as int));
        }
        if v[i] == '\n' {
            let found = sse_range_usage(v.as_slice(), start, i, data.as_slice(), done.as_slice());
            proof {
                let line = v@.subrange(start as int, i as int);
                assert(lines.push(line).drop_last() =~= lines);
            }
            if found.is_some() {
                latest = found;
            }
            proof {
                lines = lines.push(v@.subrange(start as int, i as int));
                assert(v@.subrange(i + 1, i + 1) =~= Seq::<char>::empty());
            }
            start = i + 1;
        } else {
            proof {
                assert(v@.subrange(start as int, i + 1) =~= v@.subrange(start as int, i as int).push(
                    v@[i as int],
                ));
                assert(lines.push(v@.subrange(start as int, i as int)).update(
                    lines.len() as int,
                    v@.subrange(start as int, i + 1),
                ) =~= lines.push(v@.subrange(start as int, i + 1)));
            }
        }
        i = i + 1;
    }
    let found = sse_range_usage(v.as_slice(), start, v.len(), data.as_slice(), done.as_slice());
    proof {
        assert(v@.take(v@.len() as int) =~= v@);
        let line = v@.subrange(start as int, v@.len() as int);
        assert(lines.push(line).drop_last() =~= lines);
    }
    if found.is_some() {
        found
    } else {
        latest
    }
}

} // verus!
