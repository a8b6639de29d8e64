//! A small model of JSON documents, enough to state what the outbound
//! assembler builds. An object keeps its members in the order in which they
//! were added.

use vstd::prelude::*;

verus! {

/// A JSON value.
#[derive(Debug)]
pub enum Json {
    Null,
    Flag(bool),
    Number(u64),
    Text(String),
    List(Vec<Json>),
    Object(Vec<(String, Json)>),
}

/// The model of a JSON value.
pub enum JsonDoc {
    Null,
    Flag(bool),
    Number(u64),
    Text(Seq<char>),
    List(Seq<JsonDoc>),
    Object(Seq<(Seq<char>, JsonDoc)>),
}

/// The model of a value.
pub open spec fn doc_of(j: Json) -> JsonDoc
    decreases j,
{
    match j {
        Json::Null => JsonDoc::Null,
        Json::Flag(b) => JsonDoc::Flag(b),
        Json::Number(n) => JsonDoc::Number(n),
        Json::Text(s) => JsonDoc::Text(s@),
        Json::List(items) => JsonDoc::List(
            Seq::new(
                items@.len(),
                |i: int|
                    if 0 <= i < items@.len() {
                        doc_of(items@[i])
                    } else {
                        JsonDoc::Null
                    },
            ),
        ),
        Json::Object(members) => JsonDoc::Object(
            Seq::new(
                members@.len(),
                |i: int|
                    if 0 <= i < members@.len() {
                        (members@[i].0@, doc_of(members@[i].1))
                    } else {
                        (Seq::empty(), JsonDoc::Null)
                    },
            ),
        ),
    }
}

impl View for Json {
    type V = JsonDoc;

    open spec fn view(&self) -> JsonDoc {
        doc_of(*self)
    }
}

/// The models of a sequence of values.
pub open spec fn docs_view(items: Seq<Json>) -> Seq<JsonDoc> {
    Seq::new(items.len(), |i: int| items[i]@)
}

/// The model of an optional value.
pub open spec fn opt_doc(o: Option<Json>) -> Option<JsonDoc> {
    match o {
        Some(j) => Some(j@),
        None => None,
    }
}

/// The models of the members of an object.
pub open spec fn members_view(members: Seq<(String, Json)>) -> Seq<(Seq<char>, JsonDoc)> {
    Seq::new(members.len(), |i: int| (members[i].0@, members[i].1@))
}

/// The object without members.
pub open spec fn empty_object() -> JsonDoc {
    JsonDoc::Object(Seq::empty())
}

/// An object with one more member at its end; any other value unchanged.
pub open spec fn with_member(doc: JsonDoc, key: Seq<char>, value: JsonDoc) -> JsonDoc {
    match doc {
        JsonDoc::Object(members) => JsonDoc::Object(members.push((key, value))),
        _ => doc,
    }
}

/// The list of one value.
pub open spec fn list_of_one(item: JsonDoc) -> JsonDoc {
    JsonDoc::List(seq![item])
}

/// The list of the given texts.
pub open spec fn text_list(texts: Seq<Seq<char>>) -> JsonDoc {
    JsonDoc::List(Seq::new(texts.len(), |i: int| JsonDoc::Text(texts[i])))
}

/// The model of a list is the list of the models of its items.
pub proof fn lemma_list_view(items: Vec<Json>)
    ensures
        Json::List(items)@ == JsonDoc::List(docs_view(items@)),
{
    assert(Json::List(items)@->List_0 =~= docs_view(items@));
}

/// The model of an object is the object of the models of its members.
pub proof fn lemma_object_view(members: Vec<(String, Json)>)
    ensures
        Json::Object(members)@ == JsonDoc::Object(members_view(members@)),
{
    assert(Json::Object(members)@->Object_0 =~= members_view(members@));
}

/// The text value of `s`.
pub fn text(s: &str) -> (j: Json)
    ensures
        j@ == JsonDoc::Text(s@),
{
    Json::Text(s.to_owned())
}

/// The object without members.
pub fn object() -> (j: Json)
    ensures
        j@ == empty_object(),
{
    let members: Vec<(String, Json)> = Vec::new();
    proof {
        lemma_object_view(members);
        assert(members_view(members@) =~= Seq::empty());
    }
    Json::Object(members)
}

/// Adds a member at the end of an object. Any other value is returned as it
/// is.
pub fn member(obj: Json, key: &str, value: Json) -> (j: Json)
    ensures
        j@ == with_member(obj@, key@, value@),
{
    match obj {
        Json::Object(members) => {
            let mut members = members;
            let ghost before = members;
            let name = key.to_owned();
            members.push((name, value));
            proof {
                lemma_object_view(before);
                lemma_object_view(members);
                assert(members_view(members@) =~= members_view(before@).push((key@, value@)));
            }
            Json::Object(members)
        },
        other => other,
    }
}

/// The list of one value.
pub fn single(item: Json) -> (j: Json)
    ensures
        j@ == list_of_one(item@),
{
    let mut items: Vec<Json> = Vec::new();
    items.push(item);
    proof {
        lemma_list_view(items);
        assert(docs_view(items@) =~= seq![item@]);
    }
    Json::List(items)
}

/// The list of the given texts.
pub fn texts_list(texts: &Vec<String>) -> (j: Json)
    ensures
        j@ == text_list(crate::strings::strings_view(texts@)),
{
    let mut items: Vec<Json> = Vec::new();
    let mut i: usize = 0;
    while i < texts.len()
        invariant
            i <= texts.len(),
            items.len() == i,
            forall|k: int| 0 <= k < i ==> (#[trigger] items@[k])@ == JsonDoc::Text(texts@[k]@),
        decreases texts.len() - i,
    {
        items.push(Json::Text(texts[i].clone()));
        i += 1;
    }
    proof {
        lemma_list_view(items);
        assert(docs_view(items@) =~= Seq::new(
            texts@.len(),
            |i: int| JsonDoc::Text(crate::strings::strings_view(texts@)[i]),
        ));
    }
    Json::List(items)
}

/// The list of the given values.
pub fn list(items: Vec<Json>) -> (j: Json)
    ensures
        j@ == JsonDoc::List(docs_view(items@)),
{
    proof {
        lemma_list_view(items);
    }
    Json::List(items)
}

/// A copy of a value.
#[verifier::loop_isolation(false)]
pub fn copy(j: &Json) -> (r: Json)
    ensures
        r@ == j@,
    decreases j,
{
    match j {
        Json::Null => Json::Null,
        Json::Flag(b) => Json::Flag(*b),
        Json::Number(n) => Json::Number(*n),
        Json::Text(s) => Json::Text(s.clone()),
        Json::List(items) => {
            let mut out: Vec<Json> = Vec::new();
            let mut i: usize = 0;
            while i < items.len()
                invariant
                    i <= items.len(),
                    out.len() == i,
                    forall|k: int| 0 <= k < i ==> (#[trigger] out@[k])@ == items@[k]@,
                decreases items.len() - i,
            {
                proof {
                    assert(decreases_to!(*items => items[i as int]));
                }
                out.push(copy(&items[i]));
                i += 1;
            }
            proof {
                lemma_list_view(out);
                lemma_list_view(*items);
                assert(docs_view(out@) =~= docs_view(items@));
            }
            Json::List(out)
        },
        Json::Object(members) => {
            let mut out: Vec<(String, Json)> = Vec::new();
            let mut i: usize = 0;
            while i < members.len()
                invariant
                    i <= members.len(),
                    out.len() == i,
                    forall|k: int|
                        0 <= k < i ==> (#[trigger] out@[k]).0@ == members@[k].0@ && out@[k].1@
                            == members@[k].1@,
                decreases members.len() - i,
            {
                proof {
                    assert(decreases_to!(*members => members[i as int]));
                }
                out.push((members[i].0.clone(), copy(&members[i].1)));
                i += 1;
            }
            proof {
                lemma_object_view(out);
                lemma_object_view(*members);
                assert(members_view(out@) =~= members_view(members@));
            }
            Json::Object(out)
        },
    }
}

} // verus!
