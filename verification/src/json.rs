//! A structured document tree: the shape of a dashboard definition.
//!
//! A document is an ordered tree of objects, arrays, strings, numbers,
//! booleans and nulls.  Object fields keep their insertion order, and a
//! number is carried as its literal text, so a document passes through
//! the library without loss.

use crate::text::str_eq;
use vstd::prelude::*;
use vstd::string::StringExecFns;

verus! {

broadcast use vstd::seq::group_seq_axioms, vstd::std_specs::vec::group_vec_axioms;

/// The mathematical value of a document node, used in contracts.
#[verifier::ext_equal]
pub enum JsonV {
    Null,
    Bool(bool),
    Num(Seq<char>),
    Str(Seq<char>),
    Arr(Seq<JsonV>),
    Obj(Seq<(Seq<char>, JsonV)>),
}

/// One node of a document tree.
///
/// `Num` holds the literal text of the number as it stood in the source
/// document; the library never does arithmetic on it.
#[derive(Debug, PartialEq, Eq)]
pub enum Json {
    Null,
    Bool(bool),
    Num(String),
    Str(String),
    Arr(Vec<Json>),
    Obj(Vec<(String, Json)>),
}

/// The view of a sequence of object entries: each key as a `Seq<char>`,
/// each value as a `JsonV`.
pub open spec fn entries_view(entries: Seq<(String, Json)>) -> Seq<(Seq<char>, JsonV)>
    decreases entries,
{
    if entries.len() == 0 {
        Seq::empty()
    } else {
        entries_view(entries.drop_last()).push(
            (entries.last().0@, json_view(entries.last().1)),
        )
    }
}

/// The view of a sequence of document nodes.
pub open spec fn nodes_view(nodes: Seq<Json>) -> Seq<JsonV>
    decreases nodes,
{
    if nodes.len() == 0 {
        Seq::empty()
    } else {
        nodes_view(nodes.drop_last()).push(json_view(nodes.last()))
    }
}

/// The mathematical value of a document node.
pub open spec fn json_view(j: Json) -> JsonV
    decreases j,
{
    match j {
        Json::Null => JsonV::Null,
        Json::Bool(b) => JsonV::Bool(b),
        Json::Num(s) => JsonV::Num(s@),
        Json::Str(s) => JsonV::Str(s@),
        Json::Arr(elems) => JsonV::Arr(nodes_view(elems@)),
        Json::Obj(entries) => JsonV::Obj(entries_view(entries@)),
    }
}

impl View for Json {
    type V = JsonV;

    open spec fn view(&self) -> JsonV {
        json_view(*self)
    }
}

/// The length of a view equals the length of the viewed sequence, and
/// each element of the view is the view of the element.
pub proof fn lemma_nodes_view_props(nodes: Seq<Json>)
    ensures
        nodes_view(nodes).len() == nodes.len(),
        forall|i: int| 0 <= i < nodes.len() ==> nodes_view(nodes)[i] == json_view(nodes[i]),
    decreases nodes,
{
    if nodes.len() > 0 {
        lemma_nodes_view_props(nodes.drop_last());
    }
}

/// As `lemma_nodes_view_props`, for object entries.
pub proof fn lemma_entries_view_props(entries: Seq<(String, Json)>)
    ensures
        entries_view(entries).len() == entries.len(),
        forall|i: int| 0 <= i < entries.len() ==> entries_view(entries)[i] == (
            entries[i].0@,
            json_view(entries[i].1),
        ),
    decreases entries,
{
    if entries.len() > 0 {
        lemma_entries_view_props(entries.drop_last());
    }
}

/// The value under `key` in an object: the value of the first entry
/// whose key is `key`, if any.
pub open spec fn obj_get(fields: Seq<(Seq<char>, JsonV)>, key: Seq<char>) -> Option<JsonV>
    decreases fields,
{
    if fields.len() == 0 {
        None
    } else if fields.first().0 == key {
        Some(fields.first().1)
    } else {
        obj_get(fields.drop_first(), key)
    }
}

/// The object with the first entry under `key` replaced by `value`, or
/// with `(key, value)` appended at the end when no entry has that key.
pub open spec fn obj_set(
    fields: Seq<(Seq<char>, JsonV)>,
    key: Seq<char>,
    value: JsonV,
) -> Seq<(Seq<char>, JsonV)>
    decreases fields,
{
    if fields.len() == 0 {
        seq![(key, value)]
    } else if fields.first().0 == key {
        seq![(key, value)] + fields.drop_first()
    } else {
        seq![fields.first()] + obj_set(fields.drop_first(), key, value)
    }
}

/// Setting a key changes only that key: afterwards the key holds the new
/// value, and every other key holds what it held before.
pub proof fn lemma_obj_set_get(fields: Seq<(Seq<char>, JsonV)>, key: Seq<char>, value: JsonV)
    ensures
        obj_get(obj_set(fields, key, value), key) == Some(value),
        forall|k: Seq<char>| k != key ==> obj_get(obj_set(fields, key, value), k) == obj_get(
            fields,
            k,
        ),
    decreases fields,
{
    if fields.len() == 0 {
        assert forall|k: Seq<char>| k != key implies obj_get(obj_set(fields, key, value), k)
            == obj_get(fields, k) by {
            assert(obj_set(fields, key, value).drop_first() =~= Seq::<(Seq<char>, JsonV)>::empty());
            assert(obj_get(Seq::<(Seq<char>, JsonV)>::empty(), k) is None);
        }
    } else if fields.first().0 == key {
        assert((seq![(key, value)] + fields.drop_first()).first().0 == key);
        assert forall|k: Seq<char>| k != key implies obj_get(obj_set(fields, key, value), k)
            == obj_get(fields, k) by {
            assert((seq![(key, value)] + fields.drop_first()).drop_first() =~= fields.drop_first());
        }
    } else {
        lemma_obj_set_get(fields.drop_first(), key, value);
        let r = seq![fields.first()] + obj_set(fields.drop_first(), key, value);
        assert(r.drop_first() =~= obj_set(fields.drop_first(), key, value));
        assert(r.first() == fields.first());
        assert(obj_get(obj_set(fields, key, value), key) == Some(value));
        assert forall|k: Seq<char>| k != key implies obj_get(obj_set(fields, key, value), k)
            == obj_get(fields, k) by {
            if fields.first().0 == k {
                assert(obj_get(r, k) == Some(r.first().1));
            } else {
                assert(obj_get(r, k) == obj_get(r.drop_first(), k));
                assert(obj_get(fields, k) == obj_get(fields.drop_first(), k));
            }
        }
    }
}

/// When the first entry under `key` stands at `ix`, setting `key`
/// replaces exactly that entry.
pub proof fn lemma_obj_set_found(
    fields: Seq<(Seq<char>, JsonV)>,
    key: Seq<char>,
    value: JsonV,
    ix: int,
)
    requires
        0 <= ix < fields.len(),
        fields[ix].0 == key,
        forall|j: int| 0 <= j < ix ==> fields[j].0 != key,
    ensures
        obj_set(fields, key, value) =~= fields.update(ix, (key, value)),
    decreases fields,
{
    if ix == 0 {
        assert(obj_set(fields, key, value) == seq![(key, value)] + fields.drop_first());
        assert(seq![(key, value)] + fields.drop_first() =~= fields.update(0, (key, value)));
    } else {
        assert(fields.first().0 != key);
        lemma_obj_set_found(fields.drop_first(), key, value, ix - 1);
        assert(seq![fields.first()] + fields.drop_first().update(ix - 1, (key, value))
            =~= fields.update(ix, (key, value)));
    }
}

/// When no entry has `key`, setting `key` appends a new entry at the end.
pub proof fn lemma_obj_set_absent(fields: Seq<(Seq<char>, JsonV)>, key: Seq<char>, value: JsonV)
    requires
        forall|j: int| 0 <= j < fields.len() ==> fields[j].0 != key,
    ensures
        obj_set(fields, key, value) =~= fields.push((key, value)),
    decreases fields,
{
    if fields.len() == 0 {
    } else {
        assert(fields.first().0 == fields[0].0);
        assert(forall|j: int|
            0 <= j < fields.drop_first().len() ==> fields.drop_first()[j] == fields[j + 1]);
        lemma_obj_set_absent(fields.drop_first(), key, value);
        assert(seq![fields.first()] + fields.drop_first().push((key, value)) =~= fields.push(
            (key, value),
        ));
    }
}

/// When the first entry under `key` stands at `ix`, the object holds the
/// value of that entry under `key`.
pub proof fn lemma_obj_get_found(fields: Seq<(Seq<char>, JsonV)>, key: Seq<char>, ix: int)
    requires
        0 <= ix < fields.len(),
        fields[ix].0 == key,
        forall|j: int| 0 <= j < ix ==> fields[j].0 != key,
    ensures
        obj_get(fields, key) == Some(fields[ix].1),
    decreases fields,
{
    if ix > 0 {
        lemma_obj_get_found(fields.drop_first(), key, ix - 1);
    }
}

/// When no entry has `key`, the object holds nothing under `key`.
pub proof fn lemma_obj_get_absent(fields: Seq<(Seq<char>, JsonV)>, key: Seq<char>)
    requires
        forall|j: int| 0 <= j < fields.len() ==> fields[j].0 != key,
    ensures
        obj_get(fields, key) is None,
    decreases fields,
{
    if fields.len() > 0 {
        assert(forall|j: int|
            0 <= j < fields.drop_first().len() ==> fields.drop_first()[j] == fields[j + 1]);
        lemma_obj_get_absent(fields.drop_first(), key);
    }
}

/// The position of the first entry under `key`, if any.
pub fn obj_find(entries: &Vec<(String, Json)>, key: &str) -> (r: Option<usize>)
    ensures
        match r {
            Some(ix) => {
                &&& ix < entries@.len()
                &&& entries@[ix as int].0@ == key@
                &&& forall|j: int| 0 <= j < ix ==> entries@[j].0@ != key@
            },
            None => forall|j: int| 0 <= j < entries@.len() ==> entries@[j].0@ != key@,
        },
{
    let mut i: usize = 0;
    while i < entries.len()
        invariant
            i <= entries@.len(),
            forall|j: int| 0 <= j < i ==> entries@[j].0@ != key@,
        decreases entries@.len() - i,
    {
        if str_eq(entries[i].0.as_str(), key) {
            return Some(i);
        }
        i += 1;
    }
    None
}

/// The value under `key` in an object's entries, if any.
pub fn obj_get_ref<'a>(entries: &'a Vec<(String, Json)>, key: &str) -> (r: Option<&'a Json>)
    ensures
        match r {
            Some(v) => obj_get(entries_view(entries@), key@) == Some(v@),
            None => obj_get(entries_view(entries@), key@) is None,
        },
{
    proof {
        lemma_entries_view_props(entries@);
    }
    let found = obj_find(entries, key);
    match found {
        Some(ix) => {
            proof {
                lemma_obj_get_found(entries_view(entries@), key@, ix as int);
            }
            Some(&entries[ix].1)
        },
        None => {
            proof {
                lemma_obj_get_absent(entries_view(entries@), key@);
            }
            None
        },
    }
}

impl Json {
    /// An equal, independently owned copy of the node.
    #[verifier::loop_isolation(false)]
    pub fn deep_copy(&self) -> (r: Json)
        ensures
            r@ == self@,
        decreases *self,
    {
        match self {
            Json::Null => Json::Null,
            Json::Bool(b) => Json::Bool(*b),
            Json::Num(s) => Json::Num(s.clone()),
            Json::Str(s) => Json::Str(s.clone()),
            Json::Arr(elems) => {
                let mut out: Vec<Json> = Vec::new();
                let mut i: usize = 0;
                while i < elems.len()
                    invariant
                        i <= elems@.len(),
                        out@.len() == i,
                        forall|j: int| 0 <= j < i ==> json_view(out@[j]) == json_view(elems@[j]),
                    decreases elems@.len() - i,
                {
                    proof {
                        assert(*self == Json::Arr(*elems));
                        assert(decreases_to!(Json::Arr(*elems) => *elems));
                        assert(decreases_to!(*elems => elems@));
                        assert(decreases_to!(elems@ => elems@[i as int]));
                    }
                    let c = elems[i].deep_copy();
                    out.push(c);
                    i += 1;
                }
                proof {
                    lemma_nodes_view_props(out@);
                    lemma_nodes_view_props(elems@);
                    assert(nodes_view(out@) =~= nodes_view(elems@));
                }
                Json::Arr(out)
            },
            Json::Obj(entries) => {
                let mut out: Vec<(String, Json)> = Vec::new();
                let mut i: usize = 0;
                while i < entries.len()
                    invariant
                        i <= entries@.len(),
                        out@.len() == i,
                        forall|j: int|
                            0 <= j < i ==> out@[j].0@ == entries@[j].0@ && json_view(out@[j].1)
                                == json_view(entries@[j].1),
                    decreases entries@.len() - i,
                {
                    proof {
                        assert(*self == Json::Obj(*entries));
                        assert(decreases_to!(Json::Obj(*entries) => *entries));
                        assert(decreases_to!(*entries => entries@));
                        assert(decreases_to!(entries@ => entries@[i as int]));
                        assert(decreases_to!(entries@[i as int] => entries@[i as int].1));
                    }
                    let k = entries[i].0.clone();
                    let v = entries[i].1.deep_copy();
                    out.push((k, v));
                    i += 1;
                }
                proof {
                    lemma_entries_view_props(out@);
                    lemma_entries_view_props(entries@);
                    assert(entries_view(out@) =~= entries_view(entries@));
                }
                Json::Obj(out)
            },
        }
    }
}

/// Appending a node appends its view.
pub proof fn lemma_nodes_view_push(nodes: Seq<Json>, x: Json)
    ensures
        nodes_view(nodes.push(x)) == nodes_view(nodes).push(json_view(x)),
{
    assert(nodes.push(x).drop_last() =~= nodes);
    assert(nodes.push(x).last() == x);
}

/// An equal, independently owned copy of a list of nodes.
pub fn copy_nodes(nodes: &Vec<Json>) -> (r: Vec<Json>)
    ensures
        nodes_view(r@) == nodes_view(nodes@),
{
    let mut out: Vec<Json> = Vec::new();
    let mut i: usize = 0;
    while i < nodes.len()
        invariant
            i <= nodes@.len(),
            out@.len() == i,
            forall|j: int| 0 <= j < i ==> json_view(out@[j]) == json_view(nodes@[j]),
        decreases nodes@.len() - i,
    {
        let c = nodes[i].deep_copy();
        out.push(c);
        i += 1;
    }
    proof {
        lemma_nodes_view_props(out@);
        lemma_nodes_view_props(nodes@);
        assert(nodes_view(out@) =~= nodes_view(nodes@));
    }
    out
}

/// A copy of an object's entries with the first entry under `key`
/// replaced by `value`, or with `(key, value)` appended when absent.
pub fn obj_set_entries(entries: &Vec<(String, Json)>, key: &str, value: Json) -> (r: Vec<
    (String, Json),
>)
    ensures
        entries_view(r@) == obj_set(entries_view(entries@), key@, value@),
{
    proof {
        lemma_entries_view_props(entries@);
    }
    let found = obj_find(entries, key);
    let mut out: Vec<(String, Json)> = Vec::new();
    let mut i: usize = 0;
    while i < entries.len()
        invariant
            i <= entries@.len(),
            out@.len() == i,
            forall|j: int|
                0 <= j < i ==> out@[j].0@ == entries@[j].0@ && json_view(out@[j].1) == json_view(
                    entries@[j].1,
                ),
        decreases entries@.len() - i,
    {
        let k = entries[i].0.clone();
        let v = entries[i].1.deep_copy();
        out.push((k, v));
        i += 1;
    }
    match found {
        Some(ix) => {
            proof {
                lemma_obj_set_found(entries_view(entries@), key@, value@, ix as int);
            }
            out[ix] = (String::from_str(key), value);
            proof {
                lemma_entries_view_props(out@);
                assert(entries_view(out@) =~= entries_view(entries@).update(
                    ix as int,
                    (key@, value@),
                ));
            }
        },
        None => {
            proof {
                lemma_obj_set_absent(entries_view(entries@), key@, value@);
            }
            out.push((String::from_str(key), value));
            proof {
                lemma_entries_view_props(out@);
                assert(entries_view(out@) =~= entries_view(entries@).push((key@, value@)));
            }
        },
    }
    out
}

} // verus!
