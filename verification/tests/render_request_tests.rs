use ams::adverts::{AmsData, AmsDataItem};
use ams::render::{header_cells, process_response, render_rows};
use ams::request::{build_request_body, build_search_request, digit_token, status_is_success};

// 2024-01-01T00:00:00.000Z as milliseconds since the Unix epoch.
const PUB_MS: i64 = 1_704_067_200_000;
const DAY_MS: i64 = 86_400_000;

fn record(id: &str, date: &str) -> AmsDataItem {
    AmsDataItem {
        id: id.to_owned(),
        internal_id: None,
        published_date: date.to_owned(),
        title: "T".to_owned(),
        workplace: "W".to_owned(),
        workplace_name: "N".to_owned(),
    }
}

fn set_of(n: usize) -> AmsData {
    let ads = (0..n).map(|i| record(&format!("id{}", i), "2024-01-01T00:00:00.000Z")).collect();
    AmsData { ads }
}

#[test]
fn renders_one_row_per_record_with_ranks_in_order() {
    let data = set_of(5);
    let rows = render_rows(&data, PUB_MS).unwrap();
    assert_eq!(rows.len(), 5);
    for (i, row) in rows.iter().enumerate() {
        assert_eq!(row.rank, i + 1);
        assert_eq!(row.title, "T");
        assert_eq!(row.workplace, "W");
        assert_eq!(row.workplace_name, "N");
    }
    let header = header_cells();
    assert_eq!(header, vec!["Id", "Date", "Place", "Company", "Title"]);
}

#[test]
fn highlights_ages_zero_one_two_and_nothing_older() {
    let data = set_of(1);
    // age 0, 1 and 2 whole days: highlighted
    assert!(render_rows(&data, PUB_MS).unwrap()[0].recent);
    assert!(render_rows(&data, PUB_MS + DAY_MS).unwrap()[0].recent);
    assert!(render_rows(&data, PUB_MS + 2 * DAY_MS).unwrap()[0].recent);
    assert!(render_rows(&data, PUB_MS + 3 * DAY_MS - 1).unwrap()[0].recent);
    // age 3 days and more: plain
    assert!(!render_rows(&data, PUB_MS + 3 * DAY_MS).unwrap()[0].recent);
    assert!(!render_rows(&data, PUB_MS + 30 * DAY_MS).unwrap()[0].recent);
}

#[test]
fn truncates_ages_toward_zero() {
    let data = set_of(1);
    // less than one whole day in the future still counts as age 0
    assert!(render_rows(&data, PUB_MS - 1_000).unwrap()[0].recent);
    assert!(render_rows(&data, PUB_MS - DAY_MS + 1).unwrap()[0].recent);
    // a whole day or more in the future does not
    assert!(!render_rows(&data, PUB_MS - DAY_MS).unwrap()[0].recent);
    assert!(!render_rows(&data, PUB_MS - 10 * DAY_MS).unwrap()[0].recent);
}

#[test]
fn renders_dates_as_day_slash_month() {
    let data = set_of(1);
    let rows = render_rows(&data, PUB_MS).unwrap();
    let text: Vec<char> = rows[0].date_text.chars().collect();
    assert_eq!(text.len(), 5);
    assert_eq!(text[2], '/');
    assert!(text[0].is_ascii_digit() && text[1].is_ascii_digit());
    assert!(text[3].is_ascii_digit() && text[4].is_ascii_digit());
}

#[test]
fn rendering_fails_on_an_undecodable_date() {
    let data = AmsData { ads: vec![record("a", "not a date")] };
    assert!(matches!(render_rows(&data, PUB_MS), Err(ams::AmsError::Malformed)));
}

#[test]
fn processes_a_whole_response() {
    let body = "{\"ads\":[{\"id\":\"abc123\",\"publishedDate\":\"2024-01-01T00:00:00.000Z\",\"title\":\"Engineer\",\"workplace\":\"X1\",\"workplaceName\":\"Acme\"}]}";
    let (data, rows) = process_response(body, PUB_MS + DAY_MS).unwrap();
    assert_eq!(data.ads.len(), 1);
    assert_eq!(rows.len(), 1);
    assert_eq!(rows[0].rank, 1);
    assert_eq!(rows[0].title, "Engineer");
    assert!(rows[0].recent);
    assert!(matches!(
        process_response("nonsense", PUB_MS),
        Err(ams::AmsError::Malformed)
    ));
}

#[test]
fn builds_the_request_body_exactly() {
    let body = build_request_body("15", "2024-01-01T00:00:00.000Z");
    assert_eq!(
        body,
        "{\"filters\":[{\"type\":\"occupationField\",\"value\":\"apaJ_2ja_LuF\"},{\"type\":\"region\",\"value\":\"xTCk_nT5_Zjm\"}],\"fromDate\":\"\",\"maxRecords\":\"15\",\"order\":\"relevance\",\"source\":\"pb\",\"startIndex\":0,\"toDate\":\"2024-01-01T00:00:00.000Z\"}"
    );
}

#[test]
fn builds_a_search_request_only_for_digit_ceilings() {
    let body = build_search_request("15", PUB_MS).unwrap();
    assert!(body.starts_with("{\"filters\":"));
    assert!(body.contains("\"maxRecords\":\"15\""));
    assert!(body.contains("\"toDate\":\"20"));
    assert!(body.ends_with("Z\"}"));
    assert!(build_search_request("abc", PUB_MS).is_none());
    assert!(build_search_request("", PUB_MS).is_none());
    assert!(build_search_request("1 5", PUB_MS).is_none());
    assert!(build_search_request("-1", PUB_MS).is_none());
}

#[test]
fn fresh_instants_give_fresh_bounds() {
    let first = build_search_request("15", PUB_MS).unwrap();
    let later = build_search_request("15", PUB_MS + 30 * DAY_MS).unwrap();
    assert_ne!(first, later);
}

#[test]
fn digit_tokens_are_digits_only() {
    assert!(digit_token("0"));
    assert!(digit_token("15"));
    assert!(digit_token("0099"));
    assert!(!digit_token(""));
    assert!(!digit_token("+15"));
    assert!(!digit_token("15 "));
    assert!(!digit_token("fifteen"));
}

#[test]
fn success_statuses_are_the_two_hundreds() {
    assert!(status_is_success(200));
    assert!(status_is_success(204));
    assert!(status_is_success(299));
    assert!(!status_is_success(199));
    assert!(!status_is_success(300));
    assert!(!status_is_success(404));
    assert!(!status_is_success(500));
}

#[test]
fn error_messages_name_the_failure() {
    assert_eq!(
        ams::AmsError::Network.message(),
        "Nework connectivity issues, server not reachable..."
    );
    assert_eq!(ams::AmsError::Malformed.message(), "Failed to parse json string");
    assert_eq!(
        ams::AmsError::HttpStatus(500).message(),
        "The server answered with an error status."
    );
    assert_eq!(ams::AmsError::LaunchFailed.message(), "Problem opening browser!");
}
