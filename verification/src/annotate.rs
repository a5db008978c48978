//! The widget selection predicate and the annotation transform.
//!
//! A dashboard document holds a `widgets` array.  The transform appends
//! one annotation object to the `properties.annotations.vertical` list
//! of every metric widget the selector accepts, creating the missing
//! containers along that path, and counts the widgets it changed.

use crate::json::{
    entries_view, json_view, lemma_entries_view_props, lemma_nodes_view_props,
    lemma_obj_get_absent, lemma_obj_get_found, lemma_obj_set_absent, lemma_obj_set_found,
    lemma_obj_set_get, nodes_view, obj_get, obj_get_ref, obj_set, obj_set_entries, Json, JsonV,
};
use crate::text::{contains_sub, str_contains, str_eq};
use vstd::prelude::*;
use vstd::string::StrSliceExecFns;

verus! {

broadcast use vstd::seq::group_seq_axioms, vstd::std_specs::vec::group_vec_axioms;

/// Decides which widgets receive the annotation.
#[derive(Debug, Clone)]
pub struct WidgetSelector {
    /// When set, only widgets whose title contains this substring are
    /// annotated; when absent, every widget is accepted.
    pub title_contains: Option<String>,
}

impl View for WidgetSelector {
    type V = Option<Seq<char>>;

    open spec fn view(&self) -> Option<Seq<char>> {
        match self.title_contains {
            Some(s) => Some(s@),
            None => None,
        }
    }
}

/// The title of a widget: the string under `properties.title`, or the
/// empty string when the path is missing or not a string.
pub open spec fn widget_title(w: JsonV) -> Seq<char> {
    match w {
        JsonV::Obj(fields) => match obj_get(fields, "properties"@) {
            Some(JsonV::Obj(props)) => match obj_get(props, "title"@) {
                Some(JsonV::Str(t)) => t,
                _ => Seq::empty(),
            },
            _ => Seq::empty(),
        },
        _ => Seq::empty(),
    }
}

/// A widget is a metric widget iff it is an object whose `type` field is
/// the string `"metric"`.
pub open spec fn widget_is_metric(w: JsonV) -> bool {
    match w {
        JsonV::Obj(fields) => obj_get(fields, "type"@) == Some(JsonV::Str("metric"@)),
        _ => false,
    }
}

/// The selector accepts a widget iff it has no filter, or the widget's
/// title contains the filter substring.
pub open spec fn sel_matches(filter: Option<Seq<char>>, w: JsonV) -> bool {
    match filter {
        None => true,
        Some(f) => contains_sub(widget_title(w), f),
    }
}

impl WidgetSelector {
    /// True iff this selector accepts the widget.
    pub fn matches(&self, widget: &Json) -> (r: bool)
        ensures
            r == sel_matches(self@, widget@),
    {
        match &self.title_contains {
            None => true,
            Some(filter) => {
                let title = widget_title_of(widget);
                str_contains(title.as_str(), filter.as_str())
            },
        }
    }
}

/// The widget's title as an owned string; empty when the widget has none.
pub fn widget_title_of(widget: &Json) -> (t: String)
    ensures
        t@ == widget_title(widget@),
{
    if let Json::Obj(entries) = widget {
        match obj_get_ref(entries, "properties") {
            Some(Json::Obj(props)) => match obj_get_ref(props, "title") {
                Some(Json::Str(s)) => s.clone(),
                _ => String::new(),
            },
            _ => String::new(),
        }
    } else {
        String::new()
    }
}

/// True iff the widget is a metric widget.
pub fn widget_is_metric_exec(widget: &Json) -> (r: bool)
    ensures
        r == widget_is_metric(widget@),
{
    if let Json::Obj(entries) = widget {
        match obj_get_ref(entries, "type") {
            Some(Json::Str(s)) => str_eq(s.as_str(), "metric"),
            _ => false,
        }
    } else {
        false
    }
}

/// The transform failed on a widget whose `properties`, `annotations`
/// or `vertical` field exists with an unexpected shape.
#[derive(Debug, PartialEq, Eq)]
pub enum ApplyError {
    MalformedWidget,
}

impl ApplyError {
    /// A human-readable description of the error.
    pub fn message(&self) -> String {
        "widget has a properties, annotations or vertical field of an unexpected shape".to_owned()
    }
}

/// The widget with `ann` appended to `properties.annotations.vertical`,
/// where the containers along that path are created when missing:
/// the object fields after the append.
pub open spec fn annotated_fields(
    fields: Seq<(Seq<char>, JsonV)>,
    props: Seq<(Seq<char>, JsonV)>,
    anns: Seq<(Seq<char>, JsonV)>,
    vertical: Seq<JsonV>,
    ann: JsonV,
) -> Seq<(Seq<char>, JsonV)> {
    obj_set(
        fields,
        "properties"@,
        JsonV::Obj(
            obj_set(
                props,
                "annotations"@,
                JsonV::Obj(obj_set(anns, "vertical"@, JsonV::Arr(vertical.push(ann)))),
            ),
        ),
    )
}

/// The vertical annotation list reached from the widget's fields with
/// `annotations` resolved: appends `ann` when the list is an array or
/// missing, and fails when `vertical` exists with another shape.
pub open spec fn annotate_at_anns(
    fields: Seq<(Seq<char>, JsonV)>,
    props: Seq<(Seq<char>, JsonV)>,
    anns: Seq<(Seq<char>, JsonV)>,
    ann: JsonV,
) -> Option<JsonV> {
    match obj_get(anns, "vertical"@) {
        Some(JsonV::Arr(vertical)) => Some(
            JsonV::Obj(annotated_fields(fields, props, anns, vertical, ann)),
        ),
        None => Some(JsonV::Obj(annotated_fields(fields, props, anns, Seq::empty(), ann))),
        Some(_) => None,
    }
}

/// As `annotate_at_anns`, with `properties` resolved.
pub open spec fn annotate_at_props(
    fields: Seq<(Seq<char>, JsonV)>,
    props: Seq<(Seq<char>, JsonV)>,
    ann: JsonV,
) -> Option<JsonV> {
    match obj_get(props, "annotations"@) {
        Some(JsonV::Obj(anns)) => annotate_at_anns(fields, props, anns, ann),
        None => annotate_at_anns(fields, props, Seq::empty(), ann),
        Some(_) => None,
    }
}

/// The widget with `ann` appended to `properties.annotations.vertical`.
/// Missing containers along the path count as empty; a container of the
/// wrong shape makes the transform fail.
pub open spec fn annotate_widget(w: JsonV, ann: JsonV) -> Option<JsonV> {
    match w {
        JsonV::Obj(fields) => match obj_get(fields, "properties"@) {
            Some(JsonV::Obj(props)) => annotate_at_props(fields, props, ann),
            None => annotate_at_props(fields, Seq::empty(), ann),
            Some(_) => None,
        },
        _ => None,
    }
}

/// What one widget becomes under the transform: non-metric and
/// unselected widgets are unchanged, selected metric widgets are
/// annotated; the flag says whether the widget was annotated.
pub open spec fn widget_step(w: JsonV, ann: JsonV, filter: Option<Seq<char>>) -> Option<
    (JsonV, bool),
> {
    if !widget_is_metric(w) {
        Some((w, false))
    } else if !sel_matches(filter, w) {
        Some((w, false))
    } else {
        match annotate_widget(w, ann) {
            Some(w2) => Some((w2, true)),
            None => None,
        }
    }
}

/// What the widget list becomes under the transform, with the number of
/// widgets annotated.
pub open spec fn apply_widgets(ws: Seq<JsonV>, ann: JsonV, filter: Option<Seq<char>>) -> Option<
    (Seq<JsonV>, int),
>
    decreases ws,
{
    if ws.len() == 0 {
        Some((Seq::empty(), 0))
    } else {
        match apply_widgets(ws.drop_last(), ann, filter) {
            None => None,
            Some((prev, c)) => match widget_step(ws.last(), ann, filter) {
                None => None,
                Some((w2, hit)) => Some(
                    (
                        prev.push(w2),
                        c + if hit {
                            1int
                        } else {
                            0int
                        },
                    ),
                ),
            },
        }
    }
}

/// What a whole document becomes under the transform.  A document
/// without a `widgets` array is unchanged, with a count of zero.
pub open spec fn apply_doc(doc: JsonV, ann: JsonV, filter: Option<Seq<char>>) -> Option<
    (JsonV, int),
> {
    match doc {
        JsonV::Obj(fields) => match obj_get(fields, "widgets"@) {
            Some(JsonV::Arr(ws)) => match apply_widgets(ws, ann, filter) {
                Some((ws2, c)) => Some(
                    (JsonV::Obj(obj_set(fields, "widgets"@, JsonV::Arr(ws2))), c),
                ),
                None => None,
            },
            _ => Some((doc, 0)),
        },
        _ => Some((doc, 0)),
    }
}

/// Appends a copy of `ann` to the widget's vertical annotation list,
/// creating the missing containers along the path.
fn annotate_widget_exec(w: &Json, ann: &Json) -> (r: Result<Json, ApplyError>)
    ensures
        match r {
            Ok(w2) => annotate_widget(w@, ann@) == Some(w2@),
            Err(_) => annotate_widget(w@, ann@) is None,
        },
{
    let entries = match w {
        Json::Obj(e) => e,
        _ => {
            return Err(ApplyError::MalformedWidget);
        },
    };
    let empty_props: Vec<(String, Json)> = Vec::new();
    let props: &Vec<(String, Json)> = match obj_get_ref(entries, "properties") {
        Some(Json::Obj(p)) => p,
        None => &empty_props,
        Some(_) => {
            return Err(ApplyError::MalformedWidget);
        },
    };
    let empty_anns: Vec<(String, Json)> = Vec::new();
    let anns: &Vec<(String, Json)> = match obj_get_ref(props, "annotations") {
        Some(Json::Obj(a)) => a,
        None => &empty_anns,
        Some(_) => {
            return Err(ApplyError::MalformedWidget);
        },
    };
    let empty_vertical: Vec<Json> = Vec::new();
    let vertical: &Vec<Json> = match obj_get_ref(anns, "vertical") {
        Some(Json::Arr(v)) => v,
        None => &empty_vertical,
        Some(_) => {
            return Err(ApplyError::MalformedWidget);
        },
    };
    let mut new_vertical = crate::json::copy_nodes(vertical);
    let ann_copy = ann.deep_copy();
    proof {
        crate::json::lemma_nodes_view_push(new_vertical@, ann_copy);
    }
    new_vertical.push(ann_copy);
    let new_anns = obj_set_entries(anns, "vertical", Json::Arr(new_vertical));
    let new_props = obj_set_entries(props, "annotations", Json::Obj(new_anns));
    let new_entries = obj_set_entries(entries, "properties", Json::Obj(new_props));
    Ok(Json::Obj(new_entries))
}

/// One widget's result under the transform: unchanged for non-metric or
/// unselected widgets, annotated otherwise, with a flag saying which.
fn widget_step_exec(w: &Json, ann: &Json, selector: &WidgetSelector) -> (r: Result<
    (Json, bool),
    ApplyError,
>)
    ensures
        match r {
            Ok(p) => widget_step(w@, ann@, selector@) == Some((p.0@, p.1)),
            Err(_) => widget_step(w@, ann@, selector@) is None,
        },
{
    if !widget_is_metric_exec(w) {
        return Ok((w.deep_copy(), false));
    }
    if !selector.matches(w) {
        return Ok((w.deep_copy(), false));
    }
    match annotate_widget_exec(w, ann) {
        Ok(w2) => Ok((w2, true)),
        Err(e) => Err(e),
    }
}

/// Appends a copy of `ann_obj` to the vertical annotation list of every
/// metric widget the selector accepts, and counts the widgets changed.
/// A document without a `widgets` array is returned unchanged with a
/// count of zero; a widget whose containers along the annotation path
/// have an unexpected shape makes the whole transform fail.
#[verifier::loop_isolation(false)]
pub fn apply_annotation_to_body(body: &Json, ann_obj: &Json, selector: &WidgetSelector) -> (r:
    Result<(Json, usize), ApplyError>)
    ensures
        match r {
            Ok(p) => apply_doc(body@, ann_obj@, selector@) == Some((p.0@, p.1 as int)),
            Err(_) => apply_doc(body@, ann_obj@, selector@) is None,
        },
{
    let entries = match body {
        Json::Obj(e) => e,
        _ => {
            return Ok((body.deep_copy(), 0));
        },
    };
    let widgets: &Vec<Json> = match obj_get_ref(entries, "widgets") {
        Some(Json::Arr(ws)) => ws,
        _ => {
            return Ok((body.deep_copy(), 0));
        },
    };
    let ghost ws_v = nodes_view(widgets@);
    proof {
        lemma_nodes_view_props(widgets@);
    }
    let mut new_widgets: Vec<Json> = Vec::new();
    let mut count: usize = 0;
    let mut i: usize = 0;
    while i < widgets.len()
        invariant
            i <= widgets@.len(),
            ws_v == nodes_view(widgets@),
            ws_v.len() == widgets@.len(),
            forall|j: int| 0 <= j < widgets@.len() ==> ws_v[j] == json_view(widgets@[j]),
            count <= i,
            apply_widgets(ws_v.take(i as int), ann_obj@, selector@) == Some(
                (nodes_view(new_widgets@), count as int),
            ),
        decreases widgets@.len() - i,
    {
        let step = widget_step_exec(&widgets[i], ann_obj, selector);
        match step {
            Ok((w2, hit)) => {
                proof {
                    assert(ws_v.take(i + 1).drop_last() =~= ws_v.take(i as int));
                    assert(ws_v.take(i + 1).last() == ws_v[i as int]);
                    crate::json::lemma_nodes_view_push(new_widgets@, w2);
                }
                new_widgets.push(w2);
                if hit {
                    count += 1;
                }
            },
            Err(e) => {
                proof {
                    assert(ws_v[i as int] == json_view(widgets@[i as int]));
                    assert(widget_step(ws_v[i as int], ann_obj@, selector@) is None);
                    lemma_apply_widgets_prefix_none(ws_v, ann_obj@, selector@, i as int);
                    assert(apply_widgets(ws_v, ann_obj@, selector@) is None);
                    assert(apply_doc(body@, ann_obj@, selector@) is None);
                }
                return Err(e);
            },
        }
        i += 1;
    }
    proof {
        assert(ws_v.take(widgets@.len() as int) =~= ws_v);
    }
    let new_entries = obj_set_entries(entries, "widgets", Json::Arr(new_widgets));
    Ok((Json::Obj(new_entries), count))
}

/// When one widget fails the transform, the whole list fails.
proof fn lemma_apply_widgets_prefix_none(
    ws: Seq<JsonV>,
    ann: JsonV,
    filter: Option<Seq<char>>,
    i: int,
)
    requires
        0 <= i < ws.len(),
        widget_step(ws[i], ann, filter) is None,
    ensures
        apply_widgets(ws, ann, filter) is None,
    decreases ws,
{
    if ws.len() > 0 {
        if i == ws.len() - 1 {
            assert(ws.last() == ws[i]);
        } else {
            assert(ws.drop_last()[i] == ws[i]);
            lemma_apply_widgets_prefix_none(ws.drop_last(), ann, filter, i);
        }
    }
}

/// The widget list of a document: the array under `widgets`, or empty
/// when the document has none.
pub open spec fn doc_widgets(doc: JsonV) -> Seq<JsonV> {
    match doc {
        JsonV::Obj(fields) => match obj_get(fields, "widgets"@) {
            Some(JsonV::Arr(ws)) => ws,
            _ => Seq::empty(),
        },
        _ => Seq::empty(),
    }
}

/// The document is an object with an array under `widgets`.
pub open spec fn doc_has_widgets(doc: JsonV) -> bool {
    match doc {
        JsonV::Obj(fields) => obj_get(fields, "widgets"@) matches Some(JsonV::Arr(_)),
        _ => false,
    }
}

/// The vertical annotation list of a widget: the array under
/// `properties.annotations.vertical`, or empty when the path is missing
/// or of another shape.
pub open spec fn widget_vertical(w: JsonV) -> Seq<JsonV> {
    match w {
        JsonV::Obj(fields) => match obj_get(fields, "properties"@) {
            Some(JsonV::Obj(props)) => match obj_get(props, "annotations"@) {
                Some(JsonV::Obj(anns)) => match obj_get(anns, "vertical"@) {
                    Some(JsonV::Arr(v)) => v,
                    _ => Seq::empty(),
                },
                _ => Seq::empty(),
            },
            _ => Seq::empty(),
        },
        _ => Seq::empty(),
    }
}

/// A selector without a filter accepts every widget, whether or not the
/// widget has a title.
pub proof fn lemma_selector_without_filter_accepts_all(w: JsonV)
    ensures
        sel_matches(None, w),
{
}

/// Annotating a widget appends exactly the annotation to its vertical
/// list, and leaves its title and its `type` field unchanged.
pub proof fn lemma_annotate_widget_appends(w: JsonV, ann: JsonV, w2: JsonV)
    requires
        annotate_widget(w, ann) == Some(w2),
    ensures
        widget_vertical(w2) == widget_vertical(w).push(ann),
        widget_vertical(w2).len() == widget_vertical(w).len() + 1,
        widget_vertical(w2).last() == ann,
        widget_title(w2) == widget_title(w),
        widget_is_metric(w2) == widget_is_metric(w),
        annotate_widget(w2, ann) is Some,
{
    reveal_strlit("properties");
    reveal_strlit("annotations");
    reveal_strlit("vertical");
    reveal_strlit("type");
    reveal_strlit("title");
    let fields = w->Obj_0;
    let props = match obj_get(fields, "properties"@) {
        Some(JsonV::Obj(pf)) => pf,
        _ => Seq::empty(),
    };
    let anns = match obj_get(props, "annotations"@) {
        Some(JsonV::Obj(af)) => af,
        _ => Seq::empty(),
    };
    let vertical = match obj_get(anns, "vertical"@) {
        Some(JsonV::Arr(v)) => v,
        _ => Seq::empty(),
    };
    let new_anns = obj_set(anns, "vertical"@, JsonV::Arr(vertical.push(ann)));
    let new_props = obj_set(props, "annotations"@, JsonV::Obj(new_anns));
    let new_fields = obj_set(fields, "properties"@, JsonV::Obj(new_props));
    assert(w2 == JsonV::Obj(new_fields));
    lemma_obj_set_get(anns, "vertical"@, JsonV::Arr(vertical.push(ann)));
    lemma_obj_set_get(props, "annotations"@, JsonV::Obj(new_anns));
    lemma_obj_set_get(fields, "properties"@, JsonV::Obj(new_props));
    assert(obj_get(new_fields, "properties"@) == Some(JsonV::Obj(new_props)));
    assert(obj_get(new_props, "annotations"@) == Some(JsonV::Obj(new_anns)));
    assert(obj_get(new_anns, "vertical"@) == Some(JsonV::Arr(vertical.push(ann))));
    assert("type"@ != "properties"@) by {
        assert("type"@.len() == 4);
        assert("properties"@.len() == 10);
    }
    assert("title"@ != "annotations"@) by {
        assert("title"@.len() == 5);
        assert("annotations"@.len() == 11);
    }
    assert("vertical"@ != "annotations"@) by {
        assert("vertical"@.len() == 8);
        assert("annotations"@.len() == 11);
    }
    assert(obj_get(new_props, "title"@) == obj_get(props, "title"@));
    assert(obj_get(new_fields, "type"@) == obj_get(fields, "type"@));
    if obj_get(fields, "properties"@) is None {
        assert(props =~= Seq::<(Seq<char>, JsonV)>::empty());
        assert(obj_get(props, "title"@) is None);
        assert(widget_title(w) =~= Seq::<char>::empty());
    }
    assert(widget_title(w2) == widget_title(w));
}

/// Applying a list of widgets keeps the list's length, leaves every
/// widget that is not a selected metric widget unchanged, and annotates
/// every selected metric widget.
pub proof fn lemma_apply_widgets_pointwise(ws: Seq<JsonV>, ann: JsonV, filter: Option<Seq<char>>)
    requires
        apply_widgets(ws, ann, filter) is Some,
    ensures
        apply_widgets(ws, ann, filter) matches Some((ws2, c)) ==> {
            &&& ws2.len() == ws.len()
            &&& 0 <= c <= ws.len()
            &&& forall|i: int|
                0 <= i < ws.len() && !(widget_is_metric(ws[i]) && sel_matches(filter, ws[i]))
                    ==> ws2[i] == ws[i]
            &&& forall|i: int|
                0 <= i < ws.len() && widget_is_metric(ws[i]) && sel_matches(filter, ws[i])
                    ==> annotate_widget(ws[i], ann) == Some(ws2[i])
        },
    decreases ws,
{
    if ws.len() > 0 {
        lemma_apply_widgets_pointwise(ws.drop_last(), ann, filter);
    }
}

/// Applying a document never changes the widgets that are not selected
/// metric widgets, and appends exactly the annotation to the vertical
/// list of every selected metric widget.
pub proof fn lemma_apply_doc_pointwise(
    doc: JsonV,
    ann: JsonV,
    filter: Option<Seq<char>>,
    doc2: JsonV,
    c: int,
)
    requires
        apply_doc(doc, ann, filter) == Some((doc2, c)),
    ensures
        doc_widgets(doc2).len() == doc_widgets(doc).len(),
        0 <= c <= doc_widgets(doc).len(),
        forall|i: int|
            0 <= i < doc_widgets(doc).len() && !(widget_is_metric(doc_widgets(doc)[i])
                && sel_matches(filter, doc_widgets(doc)[i])) ==> doc_widgets(doc2)[i]
                == doc_widgets(doc)[i],
        forall|i: int|
            0 <= i < doc_widgets(doc).len() && widget_is_metric(doc_widgets(doc)[i])
                && sel_matches(filter, doc_widgets(doc)[i]) ==> widget_vertical(
                doc_widgets(doc2)[i],
            ) == widget_vertical(doc_widgets(doc)[i]).push(ann),
{
    if doc_has_widgets(doc) {
        let fields = doc->Obj_0;
        let ws = doc_widgets(doc);
        let stepped = apply_widgets(ws, ann, filter);
        let (ws2, c2) = stepped->Some_0;
        lemma_obj_set_get(fields, "widgets"@, JsonV::Arr(ws2));
        assert(doc_widgets(doc2) == ws2);
        lemma_apply_widgets_pointwise(ws, ann, filter);
        assert forall|i: int|
            0 <= i < ws.len() && widget_is_metric(ws[i]) && sel_matches(
                filter,
                ws[i],
            ) implies widget_vertical(ws2[i]) == widget_vertical(ws[i]).push(ann) by {
            lemma_annotate_widget_appends(ws[i], ann, ws2[i]);
        }
    }
}

/// A document without a `widgets` array is returned unchanged, with a
/// match count of zero.
pub proof fn lemma_apply_doc_without_widgets(doc: JsonV, ann: JsonV, filter: Option<Seq<char>>)
    requires
        !doc_has_widgets(doc),
    ensures
        apply_doc(doc, ann, filter) == Some((doc, 0int)),
{
}

/// Annotating a widget touches nothing but the annotation path: every
/// widget field other than `properties` keeps its value, every
/// property other than `annotations` keeps its value, and every
/// annotation entry other than `vertical` keeps its value.
pub proof fn lemma_annotate_widget_preserves_other_fields(w: JsonV, ann: JsonV, w2: JsonV)
    requires
        annotate_widget(w, ann) == Some(w2),
    ensures
        w is Obj && w2 is Obj,
        forall|k: Seq<char>| k != "properties"@ ==> obj_get(w2->Obj_0, k) == obj_get(w->Obj_0, k),
        obj_get(w2->Obj_0, "properties"@) matches Some(JsonV::Obj(new_props)) && {
            let old_props = match obj_get(w->Obj_0, "properties"@) {
                Some(JsonV::Obj(props)) => props,
                _ => Seq::empty(),
            };
            forall|k: Seq<char>|
                k != "annotations"@ ==> obj_get(new_props, k) == obj_get(old_props, k)
        },
{
    let fields = w->Obj_0;
    let props = match obj_get(fields, "properties"@) {
        Some(JsonV::Obj(pf)) => pf,
        _ => Seq::empty(),
    };
    let anns = match obj_get(props, "annotations"@) {
        Some(JsonV::Obj(af)) => af,
        _ => Seq::empty(),
    };
    let vertical = match obj_get(anns, "vertical"@) {
        Some(JsonV::Arr(v)) => v,
        _ => Seq::empty(),
    };
    let new_anns = obj_set(anns, "vertical"@, JsonV::Arr(vertical.push(ann)));
    let new_props = obj_set(props, "annotations"@, JsonV::Obj(new_anns));
    let new_fields = obj_set(fields, "properties"@, JsonV::Obj(new_props));
    assert(w2 == JsonV::Obj(new_fields));
    lemma_obj_set_get(anns, "vertical"@, JsonV::Arr(vertical.push(ann)));
    lemma_obj_set_get(props, "annotations"@, JsonV::Obj(new_anns));
    lemma_obj_set_get(fields, "properties"@, JsonV::Obj(new_props));
}

/// Applying a document changes no document field besides `widgets`.
pub proof fn lemma_apply_doc_preserves_other_fields(
    doc: JsonV,
    ann: JsonV,
    filter: Option<Seq<char>>,
    doc2: JsonV,
    c: int,
)
    requires
        apply_doc(doc, ann, filter) == Some((doc2, c)),
    ensures
        !(doc is Obj) ==> doc2 == doc,
        doc is Obj ==> doc2 is Obj && forall|k: Seq<char>|
            k != "widgets"@ ==> obj_get(doc2->Obj_0, k) == obj_get(doc->Obj_0, k),
{
    if doc_has_widgets(doc) {
        let fields = doc->Obj_0;
        let ws = doc_widgets(doc);
        let stepped = apply_widgets(ws, ann, filter);
        let (ws2, c2) = stepped->Some_0;
        lemma_obj_set_get(fields, "widgets"@, JsonV::Arr(ws2));
    }
}

/// Annotating the same selected metric widget twice, with two
/// annotations in order, leaves a vertical list that ends with the two
/// annotations in call order.
pub proof fn lemma_annotate_widget_twice(
    w: JsonV,
    first_ann: JsonV,
    second_ann: JsonV,
    filter: Option<Seq<char>>,
    w1: JsonV,
)
    requires
        widget_is_metric(w),
        sel_matches(filter, w),
        annotate_widget(w, first_ann) == Some(w1),
    ensures
        widget_is_metric(w1),
        sel_matches(filter, w1),
        annotate_widget(w1, second_ann) is Some,
        annotate_widget(w1, second_ann) matches Some(w2) ==> widget_vertical(w2)
            == widget_vertical(w).push(first_ann).push(second_ann),
{
    lemma_annotate_widget_appends(w, first_ann, w1);
    reveal_strlit("properties");
    reveal_strlit("annotations");
    reveal_strlit("vertical");
    let fields1 = w1->Obj_0;
    let props1 = obj_get(fields1, "properties"@)->Some_0->Obj_0;
    let anns1 = obj_get(props1, "annotations"@)->Some_0->Obj_0;
    assert(obj_get(anns1, "vertical"@) matches Some(JsonV::Arr(_)));
    if let Some(w2) = annotate_widget(w1, second_ann) {
        lemma_annotate_widget_appends(w1, second_ann, w2);
    }
}

} // verus!
