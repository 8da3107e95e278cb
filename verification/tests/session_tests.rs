use ams::adverts::{AmsData, AmsDataItem};
use ams::session::{classify, detail_url, Action, Command, SessionState};

const URL_BASE: &str = "https://arbetsformedlingen.se/platsbanken/annonser/";

fn record(id: &str) -> AmsDataItem {
    AmsDataItem {
        id: id.to_owned(),
        internal_id: None,
        published_date: "2024-01-01T00:00:00.000Z".to_owned(),
        title: "T".to_owned(),
        workplace: "W".to_owned(),
        workplace_name: "N".to_owned(),
    }
}

fn state_with(ids: &[&str]) -> SessionState {
    let mut state = SessionState::new("15".to_owned());
    let ads: Vec<AmsDataItem> = ids.iter().map(|id| record(id)).collect();
    state.replace_ads(AmsData { ads });
    state
}

#[test]
fn selecting_in_range_opens_exactly_that_url() {
    let state = state_with(&["first", "second", "third"]);
    for n in 1..=3usize {
        match state.handle_line(&n.to_string()) {
            Action::OpenUrl(url) => {
                let expected = format!("{}{}", URL_BASE, ["first", "second", "third"][n - 1]);
                assert_eq!(url, expected);
            },
            _ => panic!("a rank within the set must open a link"),
        }
    }
}

#[test]
fn single_record_scenario_opens_url() {
    let body = "{\"ads\":[{\"id\":\"abc123\",\"publishedDate\":\"2024-01-01T00:00:00.000Z\",\"title\":\"Engineer\",\"workplace\":\"X1\",\"workplaceName\":\"Acme\"}]}";
    let data = ams::decode::decode(body).unwrap();
    let mut state = SessionState::new("15".to_owned());
    state.replace_ads(data);
    match state.handle_line("1") {
        Action::OpenUrl(url) => {
            assert_eq!(url, "https://arbetsformedlingen.se/platsbanken/annonser/abc123");
        },
        _ => panic!("rank 1 of one record must open its link"),
    }
}

#[test]
fn empty_listing_rank_one_matches_nothing() {
    let data = ams::decode::decode("{\"ads\":[]}").unwrap();
    let mut state = SessionState::new("15".to_owned());
    state.replace_ads(data);
    assert!(matches!(state.handle_line("1"), Action::NoMatch));
    // the loop goes on: the set is still there and further input still works
    assert_eq!(state.ads.len(), 0);
    assert!(matches!(state.handle_line("q"), Action::Quit));
}

#[test]
fn out_of_range_and_noise_open_nothing() {
    let state = state_with(&["a", "b"]);
    assert!(matches!(state.handle_line("0"), Action::NoMatch));
    assert!(matches!(state.handle_line("3"), Action::NoMatch));
    assert!(matches!(state.handle_line("99"), Action::NoMatch));
    assert!(matches!(state.handle_line("foo"), Action::Usage));
    assert!(matches!(state.handle_line("1.5"), Action::Usage));
    assert!(matches!(state.handle_line("-1"), Action::Usage));
    assert!(matches!(state.handle_line(""), Action::Usage));
    assert!(matches!(
        state.handle_line("99999999999999999999999999999999"),
        Action::Usage
    ));
    // the set is untouched throughout
    assert_eq!(state.ads.ads.len(), 2);
    assert_eq!(state.ads.ads[0].id, "a");
}

#[test]
fn quit_words_end_the_session() {
    let state = state_with(&["a"]);
    assert!(matches!(state.handle_line("q"), Action::Quit));
    assert!(matches!(state.handle_line("quit"), Action::Quit));
    assert!(matches!(state.handle_line("  q\n"), Action::Quit));
    // case-sensitive: these are not the quit words
    assert!(matches!(state.handle_line("Q"), Action::Usage));
    assert!(matches!(state.handle_line("Quit"), Action::Usage));
}

#[test]
fn reload_words_ask_for_one_fresh_fetch() {
    let state = state_with(&["a"]);
    assert!(matches!(state.handle_line("r"), Action::Reload));
    assert!(matches!(state.handle_line("reload"), Action::Reload));
    assert!(matches!(state.handle_line(" reload "), Action::Reload));
    assert!(matches!(state.handle_line("R"), Action::Usage));
}

#[test]
fn reload_replaces_the_set_wholesale() {
    let mut state = state_with(&["a", "b", "c"]);
    assert_eq!(state.ads.ads.len(), 3);
    // even an empty fresh result replaces everything
    state.replace_ads(AmsData { ads: Vec::new() });
    assert_eq!(state.ads.ads.len(), 0);
    assert_eq!(state.max_records, "15");
}

#[test]
fn classify_reads_decimal_tokens() {
    assert_eq!(classify("7"), Command::Select(7));
    assert_eq!(classify("007"), Command::Select(7));
    assert_eq!(classify("+2"), Command::Select(2));
    assert_eq!(classify(" 2 \n"), Command::Select(2));
    assert_eq!(classify("0"), Command::Select(0));
    assert_eq!(classify("2x"), Command::Other);
    assert_eq!(classify("+"), Command::Other);
    assert_eq!(classify("2 3"), Command::Other);
}

#[test]
fn session_starts_empty_and_running() {
    let state = SessionState::new("15".to_owned());
    assert_eq!(state.ads.ads.len(), 0);
    assert!(state.running);
    assert_eq!(state.max_records, "15");
}

#[test]
fn quitting_stops_the_loop() {
    let mut state = state_with(&["a"]);
    state.quit();
    assert!(!state.running);
    assert_eq!(state.ads.ads.len(), 1);
}

#[test]
fn detail_url_appends_the_identifier() {
    assert_eq!(
        detail_url("abc123"),
        "https://arbetsformedlingen.se/platsbanken/annonser/abc123"
    );
    assert_eq!(detail_url(""), URL_BASE);
}
