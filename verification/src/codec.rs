//! The request/response payload codec: the JSON envelope of a request,
//! the dispatch on its `type` field, and the textual renderings of the
//! two kinds of result.
use vstd::prelude::*;
use crate::fmt::{counts_json, dec_of, dec_parse, dec_to_u64, entry_json, entries_json, push_escaped,
    u64_to_dec};
use crate::freq::{calculate_counts, counts_view, top_counts};
use crate::tokenize::{calculate_total_count, tokens};

verus! {

/// The fields of a request envelope, as plain values.
pub struct Envelope {
    pub req_type: String,
    pub input: String,
    pub n: i64,
}

/// What parsing a request envelope yields, as a function of the request
/// text alone: on success the `type`, `string` and `n` fields (a missing
/// or mistyped field falls back to the empty string or 0), otherwise the
/// parser's error text.
pub uninterp spec fn envelope_of(s: Seq<char>) -> Result<(Seq<char>, Seq<char>, int), Seq<char>>;

/// Relies on serde_json: `from_str` parses the request text as a JSON
/// document, indexing with `as_str` / `as_i64` and `unwrap_or` defaults
/// reads the `type`, `string` and `n` fields, and the error's display
/// gives the parse-error text. Each outcome is a function of the
/// request text alone.
#[verifier::external_body]
fn parse_envelope_raw(s: &str) -> (r: Result<Envelope, String>)
    ensures
        r matches Ok(env) ==> envelope_of(s@) matches Ok(t) && env.req_type@ == t.0 && env.input@
            == t.1 && env.n as int == t.2,
        r matches Err(m) ==> envelope_of(s@) matches Err(t) && m@ == t,
{
    match serde_json::from_str::<serde_json::Value>(s) {
        Ok(v) => Ok(Envelope {
            req_type: v["type"].as_str().unwrap_or_default().to_string(),
            input: v["string"].as_str().unwrap_or_default().to_string(),
            n: v["n"].as_i64().unwrap_or(0),
        }),
        Err(e) => Err(e.to_string()),
    }
}

/// The response a request text earns: the token total or the ranked
/// counts of its `string` field, rendered as text; the fixed
/// unknown-type text for any other `type`; the parser's error text for
/// a request that is not valid JSON.
pub open spec fn response_spec(s: Seq<char>) -> Seq<char> {
    match envelope_of(s) {
        Err(msg) => msg,
        Ok(t) => {
            if t.0 == "total"@ {
                dec_of(tokens(t.1).len())
            } else if t.0 == "counts"@ {
                counts_json(top_counts(t.1, t.2))
            } else {
                "Unknown request type"@
            }
        },
    }
}

/// Render a total-count result as the response text.
pub fn send_total_count(count: u64) -> (r: String)
    ensures
        r@ == dec_of(count as nat),
{
    u64_to_dec(count)
}

/// Render a ranked tally as the response text: a JSON object whose
/// members pair each word with its frequency, in tally order.
pub fn send_counts(counts: &Vec<(String, u64)>) -> (r: String)
    ensures
        r@ == counts_json(counts_view(counts@)),
{
    let ghost m = counts_view(counts@);
    let mut out = String::new();
    crate::strutil::push_char(&mut out, '{');
    proof {
        assert(entries_json(m.take(0)) =~= Seq::<char>::empty());
        assert(out@ =~= seq!['{'] + entries_json(m.take(0)));
    }
    let mut i: usize = 0;
    while i < counts.len()
        invariant
            m == counts_view(counts@),
            m.len() == counts@.len(),
            i <= counts@.len(),
            out@ == seq!['{'] + entries_json(m.take(i as int)),
        decreases counts@.len() - i,
    {
        let ghost pre = out@;
        if i > 0 {
            crate::strutil::push_char(&mut out, ',');
        }
        crate::strutil::push_char(&mut out, '"');
        push_escaped(&mut out, counts[i].0.as_str());
        crate::strutil::push_char(&mut out, '"');
        crate::strutil::push_char(&mut out, ':');
        let dec = u64_to_dec(counts[i].1);
        out.append(dec.as_str());
        proof {
            assert(m.take(i + 1).drop_last() =~= m.take(i as int));
            assert(m.take(i + 1).last() == m[i as int]);
            if i == 0 {
                assert(out@ =~= seq!['{'] + entry_json(m[0].0, m[0].1));
                assert(entries_json(m.take(1)) == entry_json(m.take(1)[0].0, m.take(1)[0].1));
            } else {
                assert(entries_json(m.take(i + 1)) == entries_json(m.take(i as int)) + seq![',']
                    + entry_json(m[i as int].0, m[i as int].1));
                assert(out@ =~= seq!['{'] + entries_json(m.take(i + 1)));
            }
            assert(out@ =~= seq!['{'] + entries_json(m.take(i + 1)));
        }
        i = i + 1;
    }
    crate::strutil::push_char(&mut out, '}');
    proof {
        assert(m.take(counts@.len() as int) =~= m);
        assert(out@ =~= counts_json(m));
    }
    out
}

/// Compare two strings character by character.
fn str_eq(a: &str, b: &str) -> (r: bool)
    ensures
        r == (a@ == b@),
{
    let na: usize = a.unicode_len();
    let nb: usize = b.unicode_len();
    if na != nb {
        proof {
            assert(a@ != b@);
        }
        return false;
    }
    let mut i: usize = 0;
    while i < na
        invariant
            na == a@.len(),
            na == b@.len(),
            i <= na,
            forall|q: int| 0 <= q < i ==> a@[q] == b@[q],
        decreases na - i,
    {
        if a.get_char(i) != b.get_char(i) {
            return false;
        }
        i = i + 1;
    }
    proof {
        assert(a@ =~= b@);
    }
    true
}

/// Read a total-count response back: the number its decimal text names.
///
/// Reading back what `send_total_count` rendered yields the rendered
/// number, by the decimal round-trip law.
pub fn recv_total_count(response: &str) -> (r: Option<u64>)
    ensures
        match r {
            Some(v) => dec_parse(response@) == Some(v as nat),
            None => dec_parse(response@) is None || (dec_parse(response@) matches Some(v0) && v0
                > u64::MAX),
        },
{
    dec_to_u64(response)
}

/// Read a counts response back: the entries of the canonical JSON
/// object text, in order. The parse succeeds only on a text that
/// re-rendering the entries reproduces exactly.
pub fn recv_counts(response: &str) -> (r: Option<Vec<(String, u64)>>)
    ensures
        r matches Some(v) ==> counts_json(counts_view(v@)) == response@,
{
    match parse_counts_raw(response) {
        Some(v) => {
            let rendered = send_counts(&v);
            if str_eq(rendered.as_str(), response) {
                Some(v)
            } else {
                None
            }
        },
        None => None,
    }
}

/// The value of a lowercase hexadecimal digit.
fn hex_val(c: char) -> (r: Option<u8>)
    ensures
        r matches Some(d) ==> d < 16,
{
    let u: u32 = c as u32;
    if u >= 0x30 && u <= 0x39 {
        Some((u - 0x30) as u8)
    } else if u >= 0x61 && u <= 0x66 {
        Some((u - 0x61 + 10) as u8)
    } else {
        None
    }
}

/// Scan a counts response into its entries without judging it: the
/// caller re-renders the entries to validate the text.
fn parse_counts_raw(s: &str) -> (r: Option<Vec<(String, u64)>>) {
    let n: usize = s.unicode_len();
    let mut out: Vec<(String, u64)> = Vec::new();
    if n < 2 {
        return None;
    }
    if s.get_char(0) != '{' {
        return None;
    }
    if s.get_char(1) == '}' {
        if n == 2 {
            return Some(out);
        } else {
            return None;
        }
    }
    let mut i: usize = 1;
    while i < n
        invariant
            n == s@.len(),
            1 <= i <= n,
        decreases n - i,
    {
        // one entry: a quoted word, a colon, a decimal frequency
        let ghost i_entry = i as int;
        if s.get_char(i) != '"' {
            return None;
        }
        i = i + 1;
        let mut word = String::new();
        let mut closed = false;
        while i < n && !closed
            invariant
                n == s@.len(),
                i <= n,
                i > i_entry,
            decreases n - i + if closed {
                0int
            } else {
                1int
            },
        {
            let c = s.get_char(i);
            if c == '"' {
                closed = true;
                i = i + 1;
            } else if c == '\\' {
                if i + 1 >= n {
                    return None;
                }
                let c2 = s.get_char(i + 1);
                if c2 == '"' {
                    crate::strutil::push_char(&mut word, '"');
                    i = i + 2;
                } else if c2 == '\\' {
                    crate::strutil::push_char(&mut word, '\\');
                    i = i + 2;
                } else if c2 == 'u' {
                    if n - i < 6 {
                        return None;
                    }
                    if s.get_char(i + 2) != '0' || s.get_char(i + 3) != '0' {
                        return None;
                    }
                    let hv1 = hex_val(s.get_char(i + 4));
                    let hv2 = hex_val(s.get_char(i + 5));
                    match (hv1, hv2) {
                        (Some(h1), Some(h2)) => {
                            let v: u8 = h1 * 16 + h2;
                            if v >= 32 {
                                return None;
                            }
                            crate::strutil::push_char(&mut word, v as char);
                            i = i + 6;
                        },
                        _ => {
                            return None;
                        },
                    }
                } else {
                    return None;
                }
            } else {
                crate::strutil::push_char(&mut word, c);
                i = i + 1;
            }
        }
        if !closed {
            return None;
        }
        if i >= n || s.get_char(i) != ':' {
            return None;
        }
        i = i + 1;
        let mut acc: u64 = 0;
        let mut any = false;
        while i < n
            invariant
                n == s@.len(),
                i <= n,
                i > i_entry,
            decreases n - i,
        {
            let c = s.get_char(i);
            let u: u32 = c as u32;
            if u >= 0x30 && u <= 0x39 {
                let d: u64 = (u - 0x30) as u64;
                if acc > (u64::MAX - d) / 10 {
                    return None;
                }
                acc = acc * 10 + d;
                any = true;
                i = i + 1;
            } else {
                break ;
            }
        }
        if !any {
            return None;
        }
        out.push((word, acc));
        if i >= n {
            return None;
        }
        let c = s.get_char(i);
        if c == ',' {
            i = i + 1;
        } else if c == '}' {
            if i + 1 == n {
                return Some(out);
            } else {
                return None;
            }
        } else {
            return None;
        }
    }
    None
}

/// The text with every newline turned into a space: how the manager
/// flattens file contents before putting them into an envelope.
pub open spec fn newlines_to_spaces(s: Seq<char>) -> Seq<char> {
    Seq::new(s.len(), |i: int| if s[i] == '\n' {
        ' '
    } else {
        s[i]
    })
}

/// The total-count request envelope for the given input text.
pub open spec fn total_request_of(s: Seq<char>) -> Seq<char> {
    "{\"type\": \"total\", \"string\": \""@ + newlines_to_spaces(s) + "\"}"@
}

/// Build the total-count request for some input text: newlines become
/// spaces, and the text goes into the envelope's `string` field as it
/// stands.
pub fn build_total_request(contents: &str) -> (r: String)
    ensures
        r@ == total_request_of(contents@),
{
    let mut out = String::from_str("{\"type\": \"total\", \"string\": \"");
    let n: usize = contents.unicode_len();
    let mut i: usize = 0;
    proof {
        assert(newlines_to_spaces(contents@).take(0) =~= Seq::<char>::empty());
        assert(out@ + newlines_to_spaces(contents@).take(0) =~= out@);
    }
    while i < n
        invariant
            n == contents@.len(),
            i <= n,
            out@ == "{\"type\": \"total\", \"string\": \""@ + newlines_to_spaces(contents@).take(
                i as int,
            ),
        decreases n - i,
    {
        let c = contents.get_char(i);
        if c == '\n' {
            crate::strutil::push_char(&mut out, ' ');
        } else {
            crate::strutil::push_char(&mut out, c);
        }
        proof {
            assert(newlines_to_spaces(contents@).take(i + 1) =~= newlines_to_spaces(
                contents@,
            ).take(i as int).push(newlines_to_spaces(contents@)[i as int]));
        }
        i = i + 1;
    }
    out.append("\"}");
    proof {
        assert(newlines_to_spaces(contents@).take(n as int) =~= newlines_to_spaces(contents@));
    }
    out
}

/// Answer a request: parse the envelope, dispatch on its `type`, and
/// render the result. A malformed envelope earns the parse error as
/// text; an unknown `type` earns the fixed unknown-type text; every
/// request earns some response.
pub fn process_request(request: &str) -> (response: String)
    ensures
        response@ == response_spec(request@),
{
    match parse_envelope_raw(request) {
        Ok(env) => {
            if str_eq(env.req_type.as_str(), "total") {
                let count = calculate_total_count(env.input.as_str());
                send_total_count(count)
            } else if str_eq(env.req_type.as_str(), "counts") {
                let ranked = calculate_counts(env.input.as_str(), env.n);
                send_counts(&ranked)
            } else {
                String::from_str("Unknown request type")
            }
        },
        Err(m) => m,
    }
}

} // verus!
