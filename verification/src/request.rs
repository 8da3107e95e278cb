//! Building the search request.
//!
//! One fixed endpoint, one fixed query shape: the filter constants, the
//! relevance ordering and the zero start offset are baked into the body; the
//! caller supplies the record ceiling and the as-of instant the `toDate`
//! bound is formatted from.

use vstd::prelude::*;
use vstd::string::StringExecFns;
use vstd::string::StrSliceExecFns;
use crate::dates::to_date_text;
use crate::decode::is_digit_seq;

verus! {

/// The URL the request is sent to.
pub fn search_endpoint() -> (r: &'static str)
    ensures
        r@ == "https://platsbanken-api.arbetsformedlingen.se/jobs/v1/search"@,
{
    "https://platsbanken-api.arbetsformedlingen.se/jobs/v1/search"
}

/// The request body for a record ceiling and a formatted `toDate` bound: the
/// fixed occupation-field and region constraints, an empty `fromDate`,
/// relevance ordering, a zero start offset, and the `pb` source marker.
pub open spec fn spec_request_body(max_records: Seq<char>, to_date: Seq<char>) -> Seq<char> {
    "{\"filters\":[{\"type\":\"occupationField\",\"value\":\"apaJ_2ja_LuF\"},{\"type\":\"region\",\"value\":\"xTCk_nT5_Zjm\"}],\"fromDate\":\"\",\"maxRecords\":\""@
        + max_records
        + "\",\"order\":\"relevance\",\"source\":\"pb\",\"startIndex\":0,\"toDate\":\""@ + to_date
        + "\"}"@
}

/// Builds the request body around a record ceiling and a formatted `toDate`
/// bound.
pub fn build_request_body(max_records: &str, to_date: &str) -> (r: String)
    ensures
        r@ == spec_request_body(max_records@, to_date@),
{
    let mut s =
        "{\"filters\":[{\"type\":\"occupationField\",\"value\":\"apaJ_2ja_LuF\"},{\"type\":\"region\",\"value\":\"xTCk_nT5_Zjm\"}],\"fromDate\":\"\",\"maxRecords\":\"".to_owned();
    s.append(max_records);
    s.append("\",\"order\":\"relevance\",\"source\":\"pb\",\"startIndex\":0,\"toDate\":\"");
    s.append(to_date);
    s.append("\"}");
    proof {
        assert(s@ =~= spec_request_body(max_records@, to_date@));
    }
    s
}

/// Builds the request body for one fetch cycle: the record ceiling as the
/// user gave it, and the `toDate` bound formatted from the as-of instant
/// `now_ms`.
///
/// A ceiling that is not a plain digit string is refused, so the body is
/// always well-formed JSON; the formatted bound comes from the host time zone,
/// so of it only its shape is known.
pub fn build_search_request(max_records: &str, now_ms: i64) -> (r: Option<String>)
    ensures
        !is_digit_seq(max_records@) ==> r is None,
        r matches Some(b) ==> is_digit_seq(max_records@) && (exists|d: Seq<char>|
            d.len() >= 24 && b@ == spec_request_body(max_records@, d)),
{
    if !digit_token(max_records) {
        return None;
    }
    match to_date_text(now_ms) {
        None => None,
        Some(d) => {
            let b = build_request_body(max_records, d.as_str());
            proof {
                assert(d@.len() >= 24 && b@ == spec_request_body(max_records@, d@));
            }
            Some(b)
        },
    }
}

/// Whether a string is one or more decimal digits and nothing else.
pub fn digit_token(s: &str) -> (r: bool)
    ensures
        r == is_digit_seq(s@),
{
    let n = s.unicode_len();
    if n == 0 {
        return false;
    }
    let mut i: usize = 0;
    while i < n
        invariant
            i <= n,
            n == s@.len(),
            forall|k: int| 0 <= k < i ==> crate::decode::is_digit(#[trigger] s@[k]),
        decreases n - i,
    {
        let c = s.get_char(i);
        let u = c as u32;
        if !(48 <= u && u <= 57) {
            return false;
        }
        i = i + 1;
    }
    true
}

/// Whether an HTTP status code reports success.
pub open spec fn spec_status_ok(code: u16) -> bool {
    200 <= code < 300
}

/// Decides whether an HTTP status code reports success; any other status is
/// surfaced as an error by the embedding application.
pub fn status_is_success(code: u16) -> (r: bool)
    ensures
        r == spec_status_ok(code),
{
    200 <= code && code < 300
}

} // verus!
