//! The per-dashboard orchestration decision: build the annotation
//! object, run the transform, and decide between a no-op, a dry-run
//! report, and a write-back, together with the export file name for a
//! persisted copy.
//!
//! Fetching a document, writing it back and persisting the export are
//! the application's work; everything decided here is pure.

use crate::annotate::{apply_doc, ApplyError, WidgetSelector};
use crate::discover::NameFilter;
use crate::json::{entries_view, lemma_entries_view_props, Json, JsonV};
use crate::serialize::{ser_json, to_json_string};
use crate::text::{concat3, sanitize_name, sanitize_seq};
use vstd::prelude::*;
use vstd::string::StringExecFns;

verus! {

broadcast use vstd::seq::group_seq_axioms, vstd::std_specs::vec::group_vec_axioms;

/// The annotation object for one run: a `label` field formatted as
/// `"<label>: <value>"`, and a `value` field holding the timestamp.
pub open spec fn annotation_view(label: Seq<char>, value: Seq<char>, timestamp: Seq<char>) -> JsonV {
    JsonV::Obj(
        seq![
            ("label"@, JsonV::Str(label + ": "@ + value)),
            ("value"@, JsonV::Str(timestamp)),
        ],
    )
}

/// Builds the annotation object for one run.
pub fn build_annotation(label: &str, value: &str, timestamp: &str) -> (a: Json)
    ensures
        a@ == annotation_view(label@, value@, timestamp@),
{
    let mut entries: Vec<(String, Json)> = Vec::new();
    entries.push((String::from_str("label"), Json::Str(concat3(label, ": ", value))));
    entries.push((String::from_str("value"), Json::Str(String::from_str(timestamp))));
    proof {
        lemma_entries_view_props(entries@);
        assert(entries_view(entries@) =~= seq![
            ("label"@, JsonV::Str(label@ + ": "@ + value@)),
            ("value"@, JsonV::Str(timestamp@)),
        ]);
    }
    Json::Obj(entries)
}

/// Relies on chrono's `Utc::now` and `DateTime::to_rfc3339`: the
/// current UTC instant as an RFC 3339 timestamp string.  Nothing is
/// promised of the result: it depends on the clock.
#[verifier::external_body]
fn now_rfc3339() -> (r: String) {
    chrono::Utc::now().to_rfc3339()
}

/// The timestamp for one dashboard's annotation: the caller-supplied
/// literal when one is given, the current instant otherwise.
pub fn resolve_timestamp(time_override: Option<&str>) -> (r: String)
    ensures
        time_override matches Some(t) ==> r@ == t@,
{
    match time_override {
        Some(t) => String::from_str(t),
        None => now_rfc3339(),
    }
}

/// What one dashboard's run decided.
pub enum Outcome {
    /// No widget matched: nothing to write, nothing to export.
    NoMatch,
    /// Dry run: this many widgets would have been annotated; nothing is
    /// written.
    DryRun { count: usize },
    /// The annotated document is to be written back, and `body` is its
    /// exact wire form.
    Write { body: String, count: usize },
}

/// Runs the transform on a fetched document and decides the outcome:
/// a no-op when nothing matched, a dry-run report when asked, and
/// otherwise the serialized updated document to write back.
pub fn plan_annotation(
    doc: &Json,
    label: &str,
    value: &str,
    timestamp: &str,
    dry_run: bool,
    selector: &WidgetSelector,
) -> (r: Result<Outcome, ApplyError>)
    ensures
        r is Err <==> apply_doc(doc@, annotation_view(label@, value@, timestamp@), selector@)
            is None,
        r matches Ok(out) ==> {
            let stepped = apply_doc(
                doc@,
                annotation_view(label@, value@, timestamp@),
                selector@,
            )->Some_0;
            match out {
                Outcome::NoMatch => stepped.1 == 0,
                Outcome::DryRun { count } => dry_run && count as int == stepped.1 && stepped.1 > 0,
                Outcome::Write { body, count } => !dry_run && count as int == stepped.1 && stepped.1
                    > 0 && body@ == ser_json(stepped.0),
            }
        },
{
    let ann = build_annotation(label, value, timestamp);
    match crate::annotate::apply_annotation_to_body(doc, &ann, selector) {
        Err(e) => Err(e),
        Ok((new_doc, count)) => {
            if count == 0 {
                Ok(Outcome::NoMatch)
            } else if dry_run {
                Ok(Outcome::DryRun { count })
            } else {
                Ok(Outcome::Write { body: to_json_string(&new_doc), count })
            }
        },
    }
}

/// The export file name for a persisted copy of the updated document:
/// the timestamp, a hyphen, the sanitized dashboard name, and the
/// `.json` ending.
pub fn export_filename(timestamp: &str, dashboard_name: &str) -> (r: String)
    ensures
        r@ == timestamp@ + "-"@ + sanitize_seq(dashboard_name@) + ".json"@,
{
    let mut r = String::from_str(timestamp);
    r.append("-");
    let token = sanitize_name(dashboard_name);
    r.append(token.as_str());
    r.append(".json");
    r
}

/// Which dashboards one run works on.
#[derive(Debug)]
pub enum Target {
    /// One dashboard, by its exact name.
    Single(String),
    /// Every dashboard whose name the filter selects.
    Matching(NameFilter),
}

/// An invalid combination of the two selection modes.
#[derive(Debug, PartialEq, Eq)]
pub enum SelectError {
    /// Both a dashboard name and a name filter were supplied.
    BothTargets,
    /// Neither a dashboard name nor a name filter was supplied.
    NoTarget,
}

impl SelectError {
    /// A human-readable description of the error.
    pub fn message(&self) -> (m: String)
        ensures
            self matches SelectError::BothTargets ==> m@
                == "Please specify either --dashboard OR --dashboard-prefix, not both"@,
            self matches SelectError::NoTarget ==> m@
                == "Either --dashboard or --dashboard-prefix is required"@,
    {
        match self {
            SelectError::BothTargets => String::from_str(
                "Please specify either --dashboard OR --dashboard-prefix, not both",
            ),
            SelectError::NoTarget => String::from_str(
                "Either --dashboard or --dashboard-prefix is required",
            ),
        }
    }
}

/// Resolves the two selection modes into one target: exactly one of
/// the dashboard name and the name prefix must be supplied.
pub fn select_target(dashboard: Option<String>, dashboard_prefix: Option<String>) -> (r: Result<
    Target,
    SelectError,
>)
    ensures
        dashboard is Some && dashboard_prefix is Some ==> r == Err::<Target, SelectError>(
            SelectError::BothTargets,
        ),
        dashboard is None && dashboard_prefix is None ==> r == Err::<Target, SelectError>(
            SelectError::NoTarget,
        ),
        dashboard is Some && dashboard_prefix is None ==> r == Ok::<Target, SelectError>(
            Target::Single(dashboard->0),
        ),
        dashboard is None && dashboard_prefix is Some ==> r == Ok::<Target, SelectError>(
            Target::Matching(NameFilter::Prefix(dashboard_prefix->0)),
        ),
{
    match (dashboard, dashboard_prefix) {
        (Some(_), Some(_)) => Err(SelectError::BothTargets),
        (None, None) => Err(SelectError::NoTarget),
        (Some(name), None) => Ok(Target::Single(name)),
        (None, Some(prefix)) => Ok(Target::Matching(NameFilter::Prefix(prefix))),
    }
}

} // verus!
