//! A JSON document as plain values, and the key-driven walk that harvests track
//! fields from loosely structured documents.

use vstd::prelude::*;

verus! {

/// A JSON value. A number keeps its decimal text; an object keeps its members
/// in key order.
#[derive(Debug)]
pub enum JsonValue {
    Null,
    Bool(bool),
    Number(String),
    Str(String),
    Array(Vec<JsonValue>),
    Object(Vec<(String, JsonValue)>),
}

/// Every object member of `v`, depth first: arrays in element order, objects
/// in member order, each member before what its value holds.
pub open spec fn entries(v: JsonValue) -> Seq<(String, JsonValue)>
    decreases v,
{
    match v {
        JsonValue::Array(items) => item_entries(items@),
        JsonValue::Object(members) => member_entries(members@),
        _ => Seq::empty(),
    }
}

/// The entries of a run of array elements, in order.
pub open spec fn item_entries(items: Seq<JsonValue>) -> Seq<(String, JsonValue)>
    decreases items,
{
    if items.len() == 0 {
        Seq::empty()
    } else {
        item_entries(items.drop_last()) + entries(items.last())
    }
}

/// The entries of a run of object members: each member, then the entries of
/// its value.
pub open spec fn member_entries(members: Seq<(String, JsonValue)>) -> Seq<(String, JsonValue)>
    decreases members,
{
    if members.len() == 0 {
        Seq::empty()
    } else {
        member_entries(members.drop_last()) + seq![members.last()] + entries(members.last().1)
    }
}

/// What the walk of a loosely structured document gathers: `file`, `position`
/// and `take` strings in order of appearance; `base_path`, `repeat` and
/// `volume` as the last one seen.
pub struct Harvest {
    pub base_path: Option<Seq<char>>,
    pub files: Seq<Seq<char>>,
    pub positions: Seq<Seq<char>>,
    pub takes: Seq<Seq<char>>,
    pub repeat: Option<bool>,
    pub volume: Option<Seq<char>>,
}

pub open spec fn empty_harvest() -> Harvest {
    Harvest {
        base_path: None,
        files: Seq::empty(),
        positions: Seq::empty(),
        takes: Seq::empty(),
        repeat: None,
        volume: None,
    }
}

/// The harvest after one more member: a recognised key with a value of the
/// expected kind is taken; any other member changes nothing.
pub open spec fn note(h: Harvest, e: (String, JsonValue)) -> Harvest {
    let key = e.0@;
    match e.1 {
        JsonValue::Str(s) => if key == "base_path"@ {
            Harvest { base_path: Some(s@), ..h }
        } else if key == "file"@ {
            Harvest { files: h.files.push(s@), ..h }
        } else if key == "position"@ {
            Harvest { positions: h.positions.push(s@), ..h }
        } else if key == "take"@ {
            Harvest { takes: h.takes.push(s@), ..h }
        } else {
            h
        },
        JsonValue::Bool(b) => if key == "repeat"@ {
            Harvest { repeat: Some(b), ..h }
        } else {
            h
        },
        JsonValue::Number(t) => if key == "volume"@ {
            Harvest { volume: Some(t@), ..h }
        } else {
            h
        },
        _ => h,
    }
}

/// `h` after the members `es`, in order.
pub open spec fn noted_all(h: Harvest, es: Seq<(String, JsonValue)>) -> Harvest {
    es.fold_left(h, |acc: Harvest, e: (String, JsonValue)| note(acc, e))
}

/// What the walk of `v` gathers.
pub open spec fn harvest(v: JsonValue) -> Harvest {
    noted_all(empty_harvest(), entries(v))
}

proof fn lemma_noted_all_concat(h: Harvest, a: Seq<(String, JsonValue)>, b: Seq<(String, JsonValue)>)
    ensures
        noted_all(h, a + b) == noted_all(noted_all(h, a), b),
{
    let f = |acc: Harvest, e: (String, JsonValue)| note(acc, e);
    let s = a + b;
    s.lemma_fold_left_split(h, f, a.len() as int);
    assert(s.subrange(0, a.len() as int) == a);
    assert(s.subrange(a.len() as int, s.len() as int) == b);
}

/// The fields gathered so far by the walk of a document.
#[derive(Debug)]
pub struct DocumentFields {
    pub base_path: Option<String>,
    pub files: Vec<String>,
    pub positions: Vec<String>,
    pub takes: Vec<String>,
    pub repeat: Option<bool>,
    pub volume: Option<String>,
}

pub open spec fn text_of(s: Option<String>) -> Option<Seq<char>> {
    match s {
        Some(t) => Some(t@),
        None => None,
    }
}

pub open spec fn texts_of(v: Seq<String>) -> Seq<Seq<char>> {
    v.map_values(|s: String| s@)
}

impl View for DocumentFields {
    type V = Harvest;

    open spec fn view(&self) -> Harvest {
        Harvest {
            base_path: text_of(self.base_path),
            files: texts_of(self.files@),
            positions: texts_of(self.positions@),
            takes: texts_of(self.takes@),
            repeat: self.repeat,
            volume: text_of(self.volume),
        }
    }
}

pub(crate) fn same_text(a: &String, b: &str) -> (r: bool)
    ensures
        r == (a@ == b@),
{
    let b = String::from_str(b);
    a.eq(&b)
}

fn push_text(v: &mut Vec<String>, s: &String)
    ensures
        texts_of(final(v)@) == texts_of(old(v)@).push(s@),
{
    v.push(s.clone());
    assert(texts_of(final(v)@) =~= texts_of(old(v)@).push(s@));
}

/// Takes one member into `acc`.
fn note_member(acc: &mut DocumentFields, e: &(String, JsonValue))
    ensures
        final(acc)@ == note(old(acc)@, *e),
{
    let key = &e.0;
    match &e.1 {
        JsonValue::Str(s) => {
            if same_text(key, "base_path") {
                acc.base_path = Some(s.clone());
            } else if same_text(key, "file") {
                push_text(&mut acc.files, s);
            } else if same_text(key, "position") {
                push_text(&mut acc.positions, s);
            } else if same_text(key, "take") {
                push_text(&mut acc.takes, s);
            }
        },
        JsonValue::Bool(b) => {
            if same_text(key, "repeat") {
                acc.repeat = Some(*b);
            }
        },
        JsonValue::Number(t) => {
            if same_text(key, "volume") {
                acc.volume = Some(t.clone());
            }
        },
        _ => {},
    }
}

/// Walks `v` depth first and gathers its recognised members into `acc`.
fn harvest_into(v: &JsonValue, acc: &mut DocumentFields)
    ensures
        final(acc)@ == noted_all(old(acc)@, entries(*v)),
    decreases v,
{
    let ghost start = acc@;
    match v {
        JsonValue::Array(items) => {
            let mut i: usize = 0;
            while i < items.len()
                invariant
                    i <= items@.len(),
                    *v == JsonValue::Array(*items),
                    acc@ == noted_all(start, item_entries(items@.take(i as int))),
                decreases items@.len() - i,
            {
                proof {
                    assert(items@.take(i + 1).drop_last() == items@.take(i as int));
                    lemma_noted_all_concat(start, item_entries(items@.take(i as int)), entries(items@[i as int]));
                }
                assert(decreases_to!(*v => (*v)->Array_0));
                assert(decreases_to!(*items => items@));
                assert(decreases_to!(items@ => items@[i as int]));
                assert(decreases_to!(*v => items@[i as int]));
                harvest_into(&items[i], acc);
                i = i + 1;
            }
            assert(items@.take(i as int) == items@);
        },
        JsonValue::Object(members) => {
            let mut i: usize = 0;
            while i < members.len()
                invariant
                    i <= members@.len(),
                    *v == JsonValue::Object(*members),
                    acc@ == noted_all(start, member_entries(members@.take(i as int))),
                decreases members@.len() - i,
            {
                let ghost before = member_entries(members@.take(i as int));
                proof {
                    assert(members@.take(i + 1).drop_last() == members@.take(i as int));
                    lemma_noted_all_concat(start, before, seq![members@[i as int]]);
                    lemma_noted_all_concat(start, before + seq![members@[i as int]], entries(members@[i as int].1));
                    reveal_with_fuel(Seq::fold_left, 2);
                }
                note_member(acc, &members[i]);
                assert(decreases_to!(*v => (*v)->Object_0));
                assert(decreases_to!(*members => members@));
                assert(decreases_to!(members@ => members@[i as int]));
                assert(decreases_to!(members@[i as int] => members@[i as int].1));
                assert(decreases_to!(*v => members@[i as int].1));
                harvest_into(&members[i].1, acc);
                i = i + 1;
            }
            assert(members@.take(i as int) == members@);
        },
        _ => {
            assert(entries(*v) == Seq::<(String, JsonValue)>::empty());
        },
    }
}

/// Gathers, from anywhere in `doc`, the `base_path`, `file`, `position`,
/// `take`, `repeat` and `volume` members, whatever wraps them.
pub fn harvest_document(doc: &JsonValue) -> (r: DocumentFields)
    ensures
        r@ == harvest(*doc),
{
    let mut acc = DocumentFields {
        base_path: None,
        files: Vec::new(),
        positions: Vec::new(),
        takes: Vec::new(),
        repeat: None,
        volume: None,
    };
    assert(acc@ == empty_harvest()) by {
        assert(texts_of(acc.files@) =~= Seq::empty());
        assert(texts_of(acc.positions@) =~= Seq::empty());
        assert(texts_of(acc.takes@) =~= Seq::empty());
    }
    harvest_into(doc, &mut acc);
    acc
}

#[verifier::external_type_specification]
#[verifier::external_body]
pub struct ExSerdeJsonValue(serde_json::Value);

/// What serde_json makes of `text`: the document it holds, or the parser's
/// diagnostic where it is not well-formed JSON.
pub uninterp spec fn json_document(text: Seq<char>) -> Result<JsonValue, Seq<char>>;

/// Relies on `serde_json::from_str::<serde_json::Value>`, whose outcome depends
/// on the text alone; the value is moved into a [`JsonValue`] by
/// [`json_from_serde`], and the error is given in `Debug` form.
#[verifier::external_body]
fn parse_json(text: &str) -> (r: Result<JsonValue, String>)
    ensures
        r is Ok <==> json_document(text@) is Ok,
        r matches Ok(d) ==> d == json_document(text@)->Ok_0,
        r matches Err(e) ==> e@ == json_document(text@)->Err_0,
{
    serde_json::from_str::<serde_json::Value>(text).map(json_from_serde).map_err(|e| format!("{e:?}"))
}

/// The conversion that [`parse_json`] applies to what serde_json parsed. It
/// moves each variant of `serde_json::Value` into the matching variant of
/// [`JsonValue`]: a number becomes its `Display` text, object members come in
/// the map's own (key) order. It is recursive, so it cannot stand inside the
/// body of `parse_json`.
#[verifier::external_body]
fn json_from_serde(v: serde_json::Value) -> JsonValue {
    match v {
        serde_json::Value::Null => JsonValue::Null,
        serde_json::Value::Bool(b) => JsonValue::Bool(b),
        serde_json::Value::Number(n) => JsonValue::Number(n.to_string()),
        serde_json::Value::String(s) => JsonValue::Str(s),
        serde_json::Value::Array(a) => JsonValue::Array(a.into_iter().map(json_from_serde).collect()),
        serde_json::Value::Object(o) => JsonValue::Object(
            o.into_iter().map(|(k, x)| (k, json_from_serde(x))).collect(),
        ),
    }
}

/// Reads a JSON document: the document that `text` holds, or the parser's
/// diagnostic where it is not well-formed JSON.
pub fn parse_document(text: &str) -> (r: Result<JsonValue, String>)
    ensures
        r is Ok <==> json_document(text@) is Ok,
        r matches Ok(d) ==> d == json_document(text@)->Ok_0,
        r matches Err(e) ==> e@ == json_document(text@)->Err_0,
{
    parse_json(text)
}

} // verus!
