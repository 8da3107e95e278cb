//! Ranking and annotating a set of advertisements for display.
//!
//! Each record becomes one display row: its 1-based rank, its published date
//! as day/month, its workplace fields, its title, and whether the recency rule
//! highlights it. The embedding application draws the rows; nothing here
//! writes to a screen.

use vstd::prelude::*;
use crate::adverts::{AdView, AmsData};
use crate::dates::{day_month_of_text, instant_of, is_recent, parse_instant};
use crate::AmsError;

verus! {

/// One row of the rendered listing.
pub struct DisplayRow {
    pub rank: usize,
    pub date_text: String,
    pub workplace: String,
    pub workplace_name: String,
    pub title: String,
    pub recent: bool,
}

/// What a display row must say about the record at index `k`.
pub open spec fn row_matches(row: DisplayRow, ad: AdView, k: int, now_ms: i64) -> bool {
    &&& instant_of(ad.published_date) is Some
    &&& row.rank == k + 1
    &&& row.title@ == ad.title
    &&& row.workplace@ == ad.workplace
    &&& row.workplace_name@ == ad.workplace_name
    &&& row.recent == is_recent(now_ms, instant_of(ad.published_date).unwrap())
    &&& row.date_text@.len() == 5
    &&& row.date_text@[2] == '/'
}

/// The header cells of the listing, in column order.
pub fn header_cells() -> (r: Vec<String>)
    ensures
        r@.len() == 5,
        r@[0]@ == "Id"@,
        r@[1]@ == "Date"@,
        r@[2]@ == "Place"@,
        r@[3]@ == "Company"@,
        r@[4]@ == "Title"@,
{
    let mut v: Vec<String> = Vec::new();
    v.push("Id".to_owned());
    v.push("Date".to_owned());
    v.push("Place".to_owned());
    v.push("Company".to_owned());
    v.push("Title".to_owned());
    v
}

/// Renders a set of advertisements as display rows, as seen from the instant
/// `now_ms`.
///
/// The rendering succeeds exactly when every record's published-date text
/// denotes an instant; any other set is refused as malformed. The rows are in
/// the set's order: the row at index `k` shows rank `k + 1`, the record's
/// title and workplace fields, a five-character day/month text, and the
/// recency mark exactly where the record's age in whole days is 0, 1 or 2.
pub fn render_rows(data: &AmsData, now_ms: i64) -> (r: Result<Vec<DisplayRow>, AmsError>)
    ensures
        r is Ok <==> (forall|k: int|
            0 <= k < data@.len() ==> (#[trigger] instant_of(data@[k].published_date)) is Some),
        r matches Ok(rows) ==> rows@.len() == data@.len() && forall|k: int|
            0 <= k < rows@.len() ==> row_matches(#[trigger] rows@[k], data@[k], k, now_ms),
        r matches Err(e) ==> e is Malformed,
{
    let mut rows: Vec<DisplayRow> = Vec::new();
    let m = data.ads.len();
    let mut k: usize = 0;
    while k < m
        invariant
            k <= m,
            m == data.ads@.len(),
            m == data@.len(),
            rows@.len() == k,
            forall|t: int| 0 <= t < k ==> row_matches(#[trigger] rows@[t], data@[t], t, now_ms),
        decreases m - k,
    {
        proof {
            assert(data@[k as int] == data.ads@[k as int]@);
        }
        let ad = &data.ads[k];
        let date_text = match day_month_of_text(ad.published_date.as_str()) {
            Some(t) => t,
            None => {
                proof {
                    assert(instant_of(data@[k as int].published_date) is None);
                }
                return Err(AmsError::Malformed);
            },
        };
        let pub_ms = match parse_instant(ad.published_date.as_str()) {
            Some(ms) => ms,
            None => {
                proof {
                    assert(false);
                }
                return Err(AmsError::Malformed);
            },
        };
        let row = DisplayRow {
            rank: k + 1,
            date_text,
            workplace: ad.workplace.clone(),
            workplace_name: ad.workplace_name.clone(),
            title: ad.title.clone(),
            recent: crate::dates::recent_flag(now_ms, pub_ms),
        };
        rows.push(row);
        k = k + 1;
    }
    proof {
        assert forall|t: int|
            0 <= t < data@.len() implies (#[trigger] instant_of(
            data@[t].published_date,
        )) is Some by {
            assert(row_matches(rows@[t], data@[t], t, now_ms));
        }
    }
    Ok(rows)
}

/// One fetch cycle's computing half: decodes a response body and renders the
/// records as display rows, as seen from the instant `now_ms`.
///
/// It succeeds on exactly the bodies that [`crate::decode::spec_decode`]
/// accepts — decoding already checks every published-date text, so a decoded
/// set always renders — and then returns exactly the decoded set and the rows
/// [`render_rows`] promises for it; any other body is refused as malformed.
pub fn process_response(body: &str, now_ms: i64) -> (r: Result<(AmsData, Vec<DisplayRow>), AmsError>)
    ensures
        r is Ok <==> crate::decode::spec_decode(body@) is Some,
        r matches Ok(p) ==> crate::decode::spec_decode(body@) matches Some(ads) && p.0@ == ads
            && p.1@.len() == ads.len() && forall|k: int|
            0 <= k < ads.len() ==> row_matches(#[trigger] p.1@[k], ads[k], k, now_ms),
        r matches Err(e) ==> e is Malformed,
{
    let data = match crate::decode::decode(body) {
        Ok(d) => d,
        Err(e) => {
            return Err(e);
        },
    };
    proof {
        let ads = crate::decode::spec_decode(body@).unwrap();
        assert(data@ == ads);
        assert(forall|k: int|
            0 <= k < ads.len() ==> (#[trigger] instant_of(ads[k].published_date)) is Some);
    }
    match render_rows(&data, now_ms) {
        Ok(rows) => Ok((data, rows)),
        Err(e) => {
            proof {
                assert(false);
            }
            Err(e)
        },
    }
}

} // verus!
