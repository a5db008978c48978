use cwnote::discover::{
    collect_from_pages, qualifying_names, should_request_next, DashboardPage, NameFilter,
};

fn names(parts: &[&str]) -> Vec<Option<String>> {
    parts.iter().map(|p| Some(p.to_string())).collect()
}

#[test]
fn suffix_filter_keeps_names_that_end_with_the_suffix() {
    let entries = names(&["svc-prod", "svc-prod-east", "other-prod"]);
    let filter = NameFilter::Suffix("-prod".to_string());

    let qualifying = qualifying_names(&entries, &filter);

    assert_eq!(qualifying, vec!["svc-prod".to_string(), "other-prod".to_string()]);
}

#[test]
fn prefix_filter_keeps_names_that_start_with_the_prefix() {
    let entries = names(&["TestService-a", "Other-b", "TestService-c"]);
    let filter = NameFilter::Prefix("TestService-".to_string());

    let qualifying = qualifying_names(&entries, &filter);

    assert_eq!(qualifying, vec!["TestService-a".to_string(), "TestService-c".to_string()]);
}

#[test]
fn entries_without_a_name_never_qualify() {
    let entries = vec![None, Some("svc-prod".to_string()), None];
    let filter = NameFilter::Suffix("-prod".to_string());

    let qualifying = qualifying_names(&entries, &filter);

    assert_eq!(qualifying, vec!["svc-prod".to_string()]);
}

#[test]
fn pagination_accumulates_all_pages_in_page_order() {
    // Three pages with continuation tokens; the third page's token is
    // absent, so the listing stops exactly there.
    let pages = vec![
        DashboardPage {
            entries: names(&["a-prod", "a-dev"]),
            next_token: Some("token-1".to_string()),
        },
        DashboardPage {
            entries: names(&["b-prod"]),
            next_token: Some("token-2".to_string()),
        },
        DashboardPage { entries: names(&["c-prod", "c-test"]), next_token: None },
    ];
    let filter = NameFilter::Suffix("-prod".to_string());

    let collected = collect_from_pages(&pages, &filter);

    assert_eq!(
        collected,
        vec!["a-prod".to_string(), "b-prod".to_string(), "c-prod".to_string()]
    );
}

#[test]
fn pagination_stops_at_an_empty_token() {
    // The second page carries an empty token: the third page is never
    // visited.
    let pages = vec![
        DashboardPage {
            entries: names(&["a-prod"]),
            next_token: Some("token-1".to_string()),
        },
        DashboardPage { entries: names(&["b-prod"]), next_token: Some(String::new()) },
        DashboardPage { entries: names(&["c-prod"]), next_token: Some("token-3".to_string()) },
    ];
    let filter = NameFilter::Suffix("-prod".to_string());

    let collected = collect_from_pages(&pages, &filter);

    assert_eq!(collected, vec!["a-prod".to_string(), "b-prod".to_string()]);
}

#[test]
fn token_continues_only_when_present_and_non_empty() {
    assert!(should_request_next(&Some("t".to_string())));
    assert!(!should_request_next(&Some(String::new())));
    assert!(!should_request_next(&None));
}
