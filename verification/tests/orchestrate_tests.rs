use cwnote::annotate::WidgetSelector;
use cwnote::discover::NameFilter;
use cwnote::json::Json;
use cwnote::orchestrate::{
    build_annotation, export_filename, plan_annotation, resolve_timestamp, select_target, Outcome,
    SelectError, Target,
};

fn s(text: &str) -> Json {
    Json::Str(text.to_string())
}

fn obj(entries: Vec<(&str, Json)>) -> Json {
    Json::Obj(entries.into_iter().map(|(k, v)| (k.to_string(), v)).collect())
}

fn latency_dashboard() -> Json {
    obj(vec![(
        "widgets",
        Json::Arr(vec![obj(vec![
            ("type", s("metric")),
            ("properties", obj(vec![("title", s("Overall Latency"))])),
        ])]),
    )])
}

#[test]
fn real_run_plans_a_write_with_the_exact_serialized_body() {
    let selector = WidgetSelector { title_contains: None };
    let outcome = plan_annotation(
        &latency_dashboard(),
        "version",
        "1.2.3",
        "2025-01-20T12:00:00Z",
        false,
        &selector,
    )
    .unwrap();

    match outcome {
        Outcome::Write { body, count } => {
            assert_eq!(count, 1);
            let expected = "{\"widgets\":[{\"type\":\"metric\",\"properties\":{\"title\":\"Overall Latency\",\"annotations\":{\"vertical\":[{\"label\":\"version: 1.2.3\",\"value\":\"2025-01-20T12:00:00Z\"}]}}}]}";
            assert_eq!(body, expected);
            // The planned body is well-formed for the backend: it
            // parses back to the same structure.
            let parsed: serde_json::Value = serde_json::from_str(&body).unwrap();
            let vertical = &parsed["widgets"][0]["properties"]["annotations"]["vertical"];
            assert_eq!(vertical[0]["label"], "version: 1.2.3");
            assert_eq!(vertical[0]["value"], "2025-01-20T12:00:00Z");
        }
        _ => panic!("expected a write outcome"),
    }
}

#[test]
fn dry_run_plans_a_report_and_no_write() {
    let selector = WidgetSelector { title_contains: None };
    let outcome = plan_annotation(
        &latency_dashboard(),
        "version",
        "1.2.3",
        "2025-01-20T12:00:00Z",
        true,
        &selector,
    )
    .unwrap();

    match outcome {
        Outcome::DryRun { count } => assert_eq!(count, 1),
        _ => panic!("expected a dry-run outcome"),
    }
}

#[test]
fn zero_matches_plan_a_no_op() {
    let text_only = obj(vec![(
        "widgets",
        Json::Arr(vec![obj(vec![
            ("type", s("text")),
            ("properties", obj(vec![("markdown", s("# Hello"))])),
        ])]),
    )]);
    let selector = WidgetSelector { title_contains: None };

    let outcome = plan_annotation(
        &text_only,
        "version",
        "1.2.3",
        "2025-01-20T12:00:00Z",
        false,
        &selector,
    )
    .unwrap();

    assert!(matches!(outcome, Outcome::NoMatch));
}

#[test]
fn malformed_widget_fails_the_plan() {
    let broken = obj(vec![(
        "widgets",
        Json::Arr(vec![obj(vec![("type", s("metric")), ("properties", s("nope"))])]),
    )]);
    let selector = WidgetSelector { title_contains: None };

    let result = plan_annotation(
        &broken,
        "version",
        "1.2.3",
        "2025-01-20T12:00:00Z",
        false,
        &selector,
    );
    assert!(result.is_err());
}

#[test]
fn annotation_object_carries_label_and_timestamp() {
    let ann = build_annotation("version", "1.2.3", "2025-01-20T12:00:00Z");
    let expected = obj(vec![
        ("label", s("version: 1.2.3")),
        ("value", s("2025-01-20T12:00:00Z")),
    ]);
    assert_eq!(ann, expected);
}

#[test]
fn timestamp_override_wins_over_the_clock() {
    let ts = resolve_timestamp(Some("2025-01-01T00:00:00Z"));
    assert_eq!(ts, "2025-01-01T00:00:00Z");
}

#[test]
fn timestamp_without_override_comes_from_the_clock() {
    // Nothing is promised of the clock's value; the timestamp of a real
    // run is only used as an opaque string, but it is never empty in
    // practice.
    let ts = resolve_timestamp(None);
    assert!(!ts.is_empty());
}

#[test]
fn export_filename_is_timestamp_then_sanitized_name() {
    let name = export_filename("2025-01-20T12:00:00Z", "My Dashboard (EU)!");
    assert_eq!(name, "2025-01-20T12:00:00Z-my-dashboard--eu--.json");
}

#[test]
fn select_target_takes_the_single_dashboard() {
    let target = select_target(Some("DashA".to_string()), None).unwrap();
    match target {
        Target::Single(name) => assert_eq!(name, "DashA"),
        _ => panic!("expected a single-dashboard target"),
    }
}

#[test]
fn select_target_takes_the_prefix_filter() {
    let target = select_target(None, Some("TestService-".to_string())).unwrap();
    match target {
        Target::Matching(NameFilter::Prefix(p)) => assert_eq!(p, "TestService-"),
        _ => panic!("expected a prefix target"),
    }
}

#[test]
fn select_target_rejects_both_modes_with_the_reported_message() {
    let err = select_target(Some("DashA".to_string()), Some("PrefixB".to_string())).unwrap_err();
    assert_eq!(err, SelectError::BothTargets);
    assert_eq!(
        err.message(),
        "Please specify either --dashboard OR --dashboard-prefix, not both"
    );
}

#[test]
fn select_target_rejects_missing_modes_with_the_reported_message() {
    let err = select_target(None, None).unwrap_err();
    assert_eq!(err, SelectError::NoTarget);
    assert_eq!(err.message(), "Either --dashboard or --dashboard-prefix is required");
}
