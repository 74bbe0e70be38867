//! The search tool's request payload and response handling: one POST with
//! the query in a JSON body, the answer pretty-printed on success, and the
//! status and body reported on failure. The transport itself lives in the
//! application shell; this module decides, for every status and body, what
//! is printed where.

use vstd::prelude::*;

use crate::json::{compact, escape, jv_mems, pretty, Json, JsonV};
use crate::parse::{p_parse, parse_chars};
use crate::text::{append_chars, dec_str, str_to_chars, u64_to_dec};

verus! {

/// The endpoint of the search API.
pub fn search_url() -> (r: Vec<char>)
    ensures
        r@ == "https://api.exa.ai/answer"@,
{
    str_to_chars("https://api.exa.ai/answer")
}

/// An HTTP status that counts as success.
pub open spec fn is_success(status: u16) -> bool {
    200 <= status < 300
}

/// The body text a response hands to the handlers: the text itself, or
/// empty where none could be read.
pub open spec fn body_text(b: Option<Seq<char>>) -> Seq<char> {
    match b {
        Option::Some(t) => t,
        Option::None => Seq::empty(),
    }
}

/// The view of an optional body.
pub open spec fn opt_body_view(b: Option<Vec<char>>) -> Option<Seq<char>> {
    match b {
        Option::Some(t) => Option::Some(t@),
        Option::None => Option::None,
    }
}

/// The search request payload: a JSON object with the query under "query".
pub open spec fn spec_search_payload(query: Seq<char>) -> Seq<char> {
    compact(JsonV::Obj(seq![("query"@, JsonV::Str(escape(query)))]))
}

/// Build the search request body.
pub fn search_payload(query: &Vec<char>) -> (r: Vec<char>)
    ensures
        r@ == spec_search_payload(query@),
{
    let key = str_to_chars("query");
    let val = crate::json::escape_chars(query);
    let mut members: Vec<(Vec<char>, Json)> = Vec::new();
    members.push((key, Json::Str(val)));
    let obj = Json::Obj(members);
    assert(jv_mems(members@) =~= seq![("query"@, JsonV::Str(escape(query@)))]);
    crate::json::to_compact(&obj)
}

/// The first line printed on an HTTP failure.
pub open spec fn spec_fail_line1(status: u16) -> Seq<char> {
    "Error: API request failed with status: "@ + dec_str(status as nat)
}

/// The second line printed on an HTTP failure: the body, or a note that none
/// could be read.
pub open spec fn spec_fail_line2(b: Option<Seq<char>>) -> Seq<char> {
    match b {
        Option::Some(t) => "Response: "@ + t,
        Option::None => "Response: (empty or error reading)"@,
    }
}

/// Build the two failure lines for a non-success response.
pub fn http_failure_lines(status: u16, body: &Option<Vec<char>>) -> (r: (Vec<char>, Vec<char>))
    ensures
        r.0@ == spec_fail_line1(status),
        r.1@ == spec_fail_line2(match body {
            Option::Some(b) => Option::Some(b@),
            Option::None => Option::None,
        }),
{
    let mut line1 = str_to_chars("Error: API request failed with status: ");
    let digits = u64_to_dec(status as u64);
    append_chars(&mut line1, &digits);
    let line2 = match body {
        Option::Some(b) => {
            let mut l = str_to_chars("Response: ");
            append_chars(&mut l, b);
            l
        },
        Option::None => str_to_chars("Response: (empty or error reading)"),
    };
    (line1, line2)
}

/// What the search tool does once the response is in.
pub enum SearchOutcome {
    /// Print this on standard output and exit zero.
    Print(Vec<char>),
    /// Print these two lines on the error stream and exit non-zero.
    Fail { line1: Vec<char>, line2: Vec<char> },
}

/// Decide the search tool's output from the status and body of the
/// response: on success, the body pretty-printed as JSON, or verbatim where
/// it is not JSON; on failure, the two diagnostic lines.
pub fn handle_search_response(status: u16, body: Option<Vec<char>>) -> (r: SearchOutcome)
    ensures
        is_success(status) ==> (r matches SearchOutcome::Print(out) && (match p_parse(
            body_text(opt_body_view(body)),
        ) {
            Option::Some(v) => out@ == pretty(v, Seq::empty()),
            Option::None => out@ == body_text(opt_body_view(body)),
        })),
        !is_success(status) ==> (r matches SearchOutcome::Fail { line1, line2 } && line1@
            == spec_fail_line1(status) && line2@ == spec_fail_line2(opt_body_view(body))),
{
    if 200 <= status && status < 300 {
        let t = match body {
            Option::Some(b) => b,
            Option::None => Vec::new(),
        };
        match parse_chars(&t) {
            Option::Some(j) => SearchOutcome::Print(crate::json::to_pretty(&j)),
            Option::None => SearchOutcome::Print(t),
        }
    } else {
        let (line1, line2) = http_failure_lines(status, &body);
        SearchOutcome::Fail { line1, line2 }
    }
}

} // verus!
