use ams::decode::decode;

fn ok_body(body: &str) -> ams::adverts::AmsData {
    match decode(body) {
        Ok(d) => d,
        Err(_) => panic!("expected a well-formed body"),
    }
}

fn err_is_malformed(body: &str) -> bool {
    matches!(decode(body), Err(ams::AmsError::Malformed))
}

#[test]
fn decodes_single_record() {
    let body = "{\"ads\":[{\"id\":\"abc123\",\"publishedDate\":\"2024-01-01T00:00:00.000Z\",\"title\":\"Engineer\",\"workplace\":\"X1\",\"workplaceName\":\"Acme\"}]}";
    let data = ok_body(body);
    assert_eq!(data.ads.len(), 1);
    let ad = &data.ads[0];
    assert_eq!(ad.id, "abc123");
    assert_eq!(ad.internal_id, None);
    assert_eq!(ad.published_date, "2024-01-01T00:00:00.000Z");
    assert_eq!(ad.title, "Engineer");
    assert_eq!(ad.workplace, "X1");
    assert_eq!(ad.workplace_name, "Acme");
}

#[test]
fn decodes_empty_listing() {
    let data = ok_body("{\"ads\":[]}");
    assert_eq!(data.ads.len(), 0);
    let data = ok_body("  { \"ads\" : [ ] }  ");
    assert_eq!(data.ads.len(), 0);
}

#[test]
fn keeps_response_order() {
    let body = "{\"ads\":[\
        {\"id\":\"a\",\"publishedDate\":\"2024-01-01T00:00:00.000Z\",\"title\":\"T1\",\"workplace\":\"W\",\"workplaceName\":\"N\"},\
        {\"id\":\"b\",\"publishedDate\":\"2024-01-02T00:00:00.000Z\",\"title\":\"T2\",\"workplace\":\"W\",\"workplaceName\":\"N\"},\
        {\"id\":\"c\",\"publishedDate\":\"2024-01-03T00:00:00.000Z\",\"title\":\"T3\",\"workplace\":\"W\",\"workplaceName\":\"N\"}]}";
    let data = ok_body(body);
    assert_eq!(data.ads.len(), 3);
    assert_eq!(data.ads[0].id, "a");
    assert_eq!(data.ads[1].id, "b");
    assert_eq!(data.ads[2].id, "c");
}

#[test]
fn skips_unknown_members() {
    let body = "{\"total\":917,\"ads\":[{\"extra\":{\"deep\":[1,2.5,-3,true,null,\"x\"]},\
        \"title\":\"Engineer\",\"id\":\"abc123\",\"workplaceName\":\"Acme\",\
        \"publishedDate\":\"2024-01-01T00:00:00.000Z\",\"workplace\":\"X1\",\"logo\":null}],\
        \"flag\":false}";
    let data = ok_body(body);
    assert_eq!(data.ads.len(), 1);
    assert_eq!(data.ads[0].id, "abc123");
    assert_eq!(data.ads[0].title, "Engineer");
}

#[test]
fn reads_internal_id_variants() {
    let with = "{\"ads\":[{\"id\":\"a\",\"internalId\":42,\"publishedDate\":\"2024-01-01T00:00:00.000Z\",\"title\":\"T\",\"workplace\":\"W\",\"workplaceName\":\"N\"}]}";
    assert_eq!(ok_body(with).ads[0].internal_id, Some(42));
    let null = "{\"ads\":[{\"id\":\"a\",\"internalId\":null,\"publishedDate\":\"2024-01-01T00:00:00.000Z\",\"title\":\"T\",\"workplace\":\"W\",\"workplaceName\":\"N\"}]}";
    assert_eq!(ok_body(null).ads[0].internal_id, None);
}

#[test]
fn resolves_string_escapes() {
    let body = "{\"ads\":[{\"id\":\"a\\\"b\",\"publishedDate\":\"2024-01-01T00:00:00.000Z\",\
        \"title\":\"line\\nbreak \\u00e9 \\uD83D\\uDE00\",\"workplace\":\"\\\\\",\"workplaceName\":\"\\t\"}]}";
    let data = ok_body(body);
    assert_eq!(data.ads[0].id, "a\"b");
    assert_eq!(data.ads[0].title, "line\nbreak \u{e9} \u{1F600}");
    assert_eq!(data.ads[0].workplace, "\\");
    assert_eq!(data.ads[0].workplace_name, "\t");
}

#[test]
fn refuses_malformed_bodies() {
    assert!(err_is_malformed(""));
    assert!(err_is_malformed("not json"));
    assert!(err_is_malformed("[1,2]"));
    assert!(err_is_malformed("{\"ads\":{}}"));
    assert!(err_is_malformed("{}"));
    assert!(err_is_malformed("{\"total\":1}"));
    assert!(err_is_malformed("{\"ads\":[]"));
    assert!(err_is_malformed("{\"ads\":[]} x"));
    assert!(err_is_malformed("{\"ads\":[],\"ads\":[]}"));
}

#[test]
fn refuses_bad_records() {
    // a required member is missing
    assert!(err_is_malformed(
        "{\"ads\":[{\"id\":\"a\",\"publishedDate\":\"2024-01-01T00:00:00.000Z\",\"workplace\":\"W\",\"workplaceName\":\"N\"}]}"
    ));
    // a member has the wrong type
    assert!(err_is_malformed(
        "{\"ads\":[{\"id\":\"a\",\"publishedDate\":\"2024-01-01T00:00:00.000Z\",\"title\":7,\"workplace\":\"W\",\"workplaceName\":\"N\"}]}"
    ));
    // a known member is repeated
    assert!(err_is_malformed(
        "{\"ads\":[{\"id\":\"a\",\"id\":\"b\",\"publishedDate\":\"2024-01-01T00:00:00.000Z\",\"title\":\"T\",\"workplace\":\"W\",\"workplaceName\":\"N\"}]}"
    ));
    // the internal identifier is no unsigned integer
    assert!(err_is_malformed(
        "{\"ads\":[{\"id\":\"a\",\"internalId\":-1,\"publishedDate\":\"2024-01-01T00:00:00.000Z\",\"title\":\"T\",\"workplace\":\"W\",\"workplaceName\":\"N\"}]}"
    ));
    assert!(err_is_malformed(
        "{\"ads\":[{\"id\":\"a\",\"internalId\":012,\"publishedDate\":\"2024-01-01T00:00:00.000Z\",\"title\":\"T\",\"workplace\":\"W\",\"workplaceName\":\"N\"}]}"
    ));
}

#[test]
fn refuses_undecodable_dates() {
    // the published-date text denotes no instant
    assert!(err_is_malformed(
        "{\"ads\":[{\"id\":\"a\",\"publishedDate\":\"tomorrow\",\"title\":\"T\",\"workplace\":\"W\",\"workplaceName\":\"N\"}]}"
    ));
    // a date without an offset denotes no instant either
    assert!(err_is_malformed(
        "{\"ads\":[{\"id\":\"a\",\"publishedDate\":\"2024-01-01\",\"title\":\"T\",\"workplace\":\"W\",\"workplaceName\":\"N\"}]}"
    ));
}
