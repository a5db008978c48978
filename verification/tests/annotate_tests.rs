use cwnote::annotate::{apply_annotation_to_body, WidgetSelector};
use cwnote::json::Json;

fn s(text: &str) -> Json {
    Json::Str(text.to_string())
}

fn obj(entries: Vec<(&str, Json)>) -> Json {
    Json::Obj(entries.into_iter().map(|(k, v)| (k.to_string(), v)).collect())
}

fn get<'a>(j: &'a Json, key: &str) -> Option<&'a Json> {
    match j {
        Json::Obj(entries) => entries.iter().find(|(k, _)| k == key).map(|(_, v)| v),
        _ => None,
    }
}

fn arr_of<'a>(j: &'a Json) -> &'a Vec<Json> {
    match j {
        Json::Arr(elems) => elems,
        _ => panic!("expected an array"),
    }
}

fn annotation_obj() -> Json {
    obj(vec![("label", s("version: 1.2.3")), ("value", s("2025-01-20T12:00:00Z"))])
}

#[test]
fn widget_selector_matches_without_filter() {
    let selector = WidgetSelector { title_contains: None };

    // Widget without title, but since no filter, it should match.
    let widget = obj(vec![
        ("type", s("metric")),
        ("properties", obj(vec![("metrics", Json::Arr(vec![]))])),
    ]);

    assert!(selector.matches(&widget));
}

#[test]
fn widget_selector_matches_when_title_contains_substring() {
    let selector = WidgetSelector { title_contains: Some("Latency".to_string()) };

    let widget = obj(vec![
        ("type", s("metric")),
        (
            "properties",
            obj(vec![("title", s("Overall Latency P95")), ("metrics", Json::Arr(vec![]))]),
        ),
    ]);

    assert!(selector.matches(&widget));
}

#[test]
fn widget_selector_does_not_match_when_title_does_not_contain_substring() {
    let selector = WidgetSelector { title_contains: Some("Latency".to_string()) };

    let widget = obj(vec![
        ("type", s("metric")),
        ("properties", obj(vec![("title", s("Error Rate")), ("metrics", Json::Arr(vec![]))])),
    ]);

    assert!(!selector.matches(&widget));
}

#[test]
fn apply_annotation_only_hits_metric_widgets_that_match_selector() {
    // Dashboard body with:
    // - metric widget "Overall Latency"
    // - metric widget "Error Rate"
    // - text widget
    let body = obj(vec![(
        "widgets",
        Json::Arr(vec![
            obj(vec![
                ("type", s("metric")),
                (
                    "properties",
                    obj(vec![("title", s("Overall Latency")), ("metrics", Json::Arr(vec![]))]),
                ),
            ]),
            obj(vec![
                ("type", s("metric")),
                (
                    "properties",
                    obj(vec![("title", s("Error Rate")), ("metrics", Json::Arr(vec![]))]),
                ),
            ]),
            obj(vec![("type", s("text")), ("properties", obj(vec![("markdown", s("# Hello"))]))]),
        ]),
    )]);

    // Only annotate widgets whose title contains "Latency"
    let selector = WidgetSelector { title_contains: Some("Latency".to_string()) };

    let ann_obj = annotation_obj();

    let (updated, count) = apply_annotation_to_body(&body, &ann_obj, &selector).unwrap();
    assert_eq!(count, 1, "only one matching metric widget should be annotated");

    // Check that only the "Overall Latency" widget has vertical annotations.
    let widgets = arr_of(get(&updated, "widgets").unwrap());

    // First widget: "Overall Latency" -> should have the annotation
    let props0 = get(&widgets[0], "properties").unwrap();
    let anns0 = get(props0, "annotations").unwrap();
    let vertical0 = arr_of(get(anns0, "vertical").unwrap());
    assert_eq!(vertical0.len(), 1);
    let ann0 = &vertical0[0];
    assert_eq!(get(ann0, "label").unwrap(), &s("version: 1.2.3"));
    assert_eq!(get(ann0, "value").unwrap(), &s("2025-01-20T12:00:00Z"));

    // Second widget: "Error Rate" -> should NOT have annotations
    let props1 = get(&widgets[1], "properties").unwrap();
    assert!(
        get(props1, "annotations").is_none(),
        "non-matching metric widget should not have annotations"
    );

    // Third widget: type "text" -> should not be touched
    assert_eq!(get(&widgets[2], "type").unwrap(), &s("text"));
    let props2 = get(&widgets[2], "properties").unwrap();
    assert!(
        get(props2, "annotations").is_none(),
        "non-metric widget should not have annotations"
    );
}

#[test]
fn apply_annotation_with_no_matching_widgets_returns_zero() {
    let body = obj(vec![(
        "widgets",
        Json::Arr(vec![obj(vec![
            ("type", s("metric")),
            (
                "properties",
                obj(vec![("title", s("Error Rate")), ("metrics", Json::Arr(vec![]))]),
            ),
        ])]),
    )]);

    let selector = WidgetSelector { title_contains: Some("Latency".to_string()) };

    let ann_obj = annotation_obj();

    let (updated, count) = apply_annotation_to_body(&body, &ann_obj, &selector).unwrap();
    assert_eq!(count, 0);

    let widgets = arr_of(get(&updated, "widgets").unwrap());
    let props0 = get(&widgets[0], "properties").unwrap();
    assert!(
        get(props0, "annotations").is_none(),
        "widget should remain unannotated when selector doesn't match"
    );
}

#[test]
fn apply_without_widgets_field_changes_nothing() {
    let body = obj(vec![("title", s("A dashboard without widgets"))]);
    let selector = WidgetSelector { title_contains: None };

    let (updated, count) = apply_annotation_to_body(&body, &annotation_obj(), &selector).unwrap();

    assert_eq!(count, 0);
    assert_eq!(updated, body);
}

#[test]
fn apply_twice_appends_two_annotations_in_call_order() {
    let body = obj(vec![(
        "widgets",
        Json::Arr(vec![obj(vec![
            ("type", s("metric")),
            ("properties", obj(vec![("title", s("Overall Latency"))])),
        ])]),
    )]);
    let selector = WidgetSelector { title_contains: None };

    let first = obj(vec![("label", s("version: 1.0.0")), ("value", s("2025-01-01T00:00:00Z"))]);
    let second = obj(vec![("label", s("version: 2.0.0")), ("value", s("2025-02-01T00:00:00Z"))]);

    let (once, count1) = apply_annotation_to_body(&body, &first, &selector).unwrap();
    let (twice, count2) = apply_annotation_to_body(&once, &second, &selector).unwrap();
    assert_eq!(count1, 1);
    assert_eq!(count2, 1);

    let widgets = arr_of(get(&twice, "widgets").unwrap());
    let props = get(&widgets[0], "properties").unwrap();
    let anns = get(props, "annotations").unwrap();
    let vertical = arr_of(get(anns, "vertical").unwrap());
    assert_eq!(vertical.len(), 2);
    assert_eq!(vertical[0], first);
    assert_eq!(vertical[1], second);
}

#[test]
fn apply_fails_on_widget_with_malformed_properties() {
    let body = obj(vec![(
        "widgets",
        Json::Arr(vec![obj(vec![
            ("type", s("metric")),
            ("properties", s("not an object")),
        ])]),
    )]);
    let selector = WidgetSelector { title_contains: None };

    let result = apply_annotation_to_body(&body, &annotation_obj(), &selector);
    assert!(result.is_err());
    assert!(!result.unwrap_err().message().is_empty());
}

#[test]
fn apply_creates_missing_containers_along_the_path() {
    // The widget has no properties at all: every container on the way
    // to the vertical list is created.
    let body = obj(vec![("widgets", Json::Arr(vec![obj(vec![("type", s("metric"))])]))]);
    let selector = WidgetSelector { title_contains: None };

    let (updated, count) = apply_annotation_to_body(&body, &annotation_obj(), &selector).unwrap();
    assert_eq!(count, 1);

    let widgets = arr_of(get(&updated, "widgets").unwrap());
    let props = get(&widgets[0], "properties").unwrap();
    let anns = get(props, "annotations").unwrap();
    let vertical = arr_of(get(anns, "vertical").unwrap());
    assert_eq!(vertical.len(), 1);
    assert_eq!(vertical[0], annotation_obj());
}
