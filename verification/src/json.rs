//! JSON documents as plain data, read and written by `serde_json`.

use crate::text::{chars_of, same_chars};
use vstd::prelude::*;

verus! {

#[verifier::external_type_specification]
#[verifier::external_body]
pub struct ExNumber(serde_json::Number);

#[verifier::external_type_specification]
#[verifier::external_body]
pub struct ExValue(serde_json::Value);

/// The mathematical value of one member of a JSON object.
pub struct MemberValue {
    pub key: Seq<char>,
    pub value: JsonValue,
}

/// The mathematical value of a JSON document. The members of an object are
/// kept as a sequence, in the order in which the object lists them.
pub enum JsonValue {
    Null,
    Bool(bool),
    Number(serde_json::Number),
    Text(Seq<char>),
    Array(Seq<JsonValue>),
    Object(Seq<MemberValue>),
}

/// One member of a JSON object: a key and the value under it.
#[derive(Debug, PartialEq)]
pub struct Member {
    pub key: String,
    pub value: Json,
}

/// A JSON document held in memory.
#[derive(Debug, PartialEq)]
pub enum Json {
    Null,
    Bool(bool),
    Number(serde_json::Number),
    Text(String),
    Array(Vec<Json>),
    Object(Vec<Member>),
}

impl View for Json {
    type V = JsonValue;

    open spec fn view(&self) -> JsonValue
        decreases self,
    {
        match self {
            Json::Null => JsonValue::Null,
            Json::Bool(b) => JsonValue::Bool(*b),
            Json::Number(n) => JsonValue::Number(*n),
            Json::Text(s) => JsonValue::Text(s@),
            Json::Array(items) => JsonValue::Array(
                Seq::new(
                    items@.len(),
                    |i: int|
                        if 0 <= i < items@.len() {
                            items@[i].view()
                        } else {
                            JsonValue::Null
                        },
                ),
            ),
            Json::Object(entries) => JsonValue::Object(
                Seq::new(
                    entries@.len(),
                    |i: int|
                        if 0 <= i < entries@.len() {
                            MemberValue { key: entries@[i].key@, value: entries@[i].value.view() }
                        } else {
                            MemberValue { key: Seq::empty(), value: JsonValue::Null }
                        },
                ),
            ),
        }
    }
}

/// The values of a list of documents.
pub open spec fn values(items: Seq<Json>) -> Seq<JsonValue> {
    Seq::new(items.len(), |i: int| items[i]@)
}

/// The keys and values of a list of members.
pub open spec fn members(entries: Seq<Member>) -> Seq<MemberValue> {
    Seq::new(entries.len(), |i: int| MemberValue { key: entries[i].key@, value: entries[i].value@ })
}

/// The value of an array is the sequence of the values of its items.
pub proof fn lemma_array_view(items: Vec<Json>)
    ensures
        Json::Array(items)@ == JsonValue::Array(values(items@)),
{
    assert(Json::Array(items)@->Array_0 =~= values(items@));
}

/// The value of an object is the sequence of its keys, each with the value
/// of its member.
pub proof fn lemma_object_view(entries: Vec<Member>)
    ensures
        Json::Object(entries)@ == JsonValue::Object(members(entries@)),
{
    assert(Json::Object(entries)@->Object_0 =~= members(entries@));
}

/// Whether `a` comes before `b` when texts are compared character by
/// character, a proper prefix coming first.
pub open spec fn text_lt(a: Seq<char>, b: Seq<char>) -> bool
    decreases a.len(),
{
    if b.len() == 0 {
        false
    } else if a.len() == 0 {
        true
    } else if a[0] != b[0] {
        (a[0] as u32) < (b[0] as u32)
    } else {
        text_lt(a.drop_first(), b.drop_first())
    }
}

/// Whether the keys of `entries` strictly increase.
pub open spec fn keys_increase(entries: Seq<MemberValue>) -> bool {
    forall|i: int| 0 < i < entries.len() ==> text_lt(entries[i - 1].key, #[trigger] entries[i].key)
}

/// The position of the first member of `entries` under `key`.
pub open spec fn key_index(entries: Seq<MemberValue>, key: Seq<char>) -> Option<int>
    decreases entries.len(),
{
    if entries.len() == 0 {
        None
    } else if entries[0].key == key {
        Some(0int)
    } else {
        match key_index(entries.drop_first(), key) {
            Some(i) => Some(i + 1),
            None => None,
        }
    }
}

/// A position that `key_index` gives lies in `entries` and holds `key`.
pub proof fn lemma_key_index(entries: Seq<MemberValue>, key: Seq<char>)
    ensures
        key_index(entries, key) matches Some(i) ==> 0 <= i < entries.len() && entries[i].key == key,
    decreases entries.len(),
{
    if entries.len() > 0 && entries[0].key != key {
        lemma_key_index(entries.drop_first(), key);
    }
}

impl JsonValue {
    /// The value under `key`, where this is an object that has such a
    /// member.
    pub open spec fn member(self, key: Seq<char>) -> Option<JsonValue> {
        match self {
            JsonValue::Object(entries) => match key_index(entries, key) {
                Some(i) => Some(entries[i].value),
                None => None,
            },
            _ => None,
        }
    }

    /// This object with `value` in place of its member under `key`; the
    /// value itself where it is no object or has no such member.
    pub open spec fn with_member(self, key: Seq<char>, value: JsonValue) -> JsonValue {
        match self {
            JsonValue::Object(entries) => match key_index(entries, key) {
                Some(i) => JsonValue::Object(entries.update(i, MemberValue { key, value })),
                None => self,
            },
            _ => self,
        }
    }

    /// Whether, in every object of this value, the keys strictly increase.
    pub open spec fn ordered(self) -> bool
        decreases self,
    {
        match self {
            JsonValue::Array(items) => forall|i: int|
                0 <= i < items.len() ==> (#[trigger] items[i]).ordered(),
            JsonValue::Object(entries) => keys_increase(entries) && forall|i: int|
                0 <= i < entries.len() ==> (#[trigger] entries[i]).value.ordered(),
            _ => true,
        }
    }
}

/// Finds the first member of `entries` under `key`.
pub fn find_key(entries: &Vec<Member>, key: &str) -> (found: Option<usize>)
    ensures
        match found {
            Some(i) => key_index(members(entries@), key@) == Some(i as int) && i < entries.len(),
            None => key_index(members(entries@), key@) is None,
        },
{
    let wanted = chars_of(key);
    let ghost all = members(entries@);
    let mut i: usize = 0;
    assert(all.skip(0) =~= all);
    while i < entries.len()
        invariant
            i <= entries.len(),
            all == members(entries@),
            wanted@ == key@,
            key_index(all, key@) == match key_index(all.skip(i as int), key@) {
                Some(k) => Some(k + i),
                None => None,
            },
        decreases entries.len() - i,
    {
        let here = chars_of(entries[i].key.as_str());
        assert(all.skip(i as int)[0] == all[i as int]);
        if same_chars(&here, &wanted) {
            return Some(i);
        }
        assert(all.skip(i as int).drop_first() =~= all.skip(i + 1));
        i += 1;
    }
    None
}

/// Puts `value` in the place of the value of member `i`, and hands back the
/// value that stood there.
pub fn swap_value(entries: &mut Vec<Member>, i: usize, value: Json) -> (before: Json)
    requires
        i < old(entries).len(),
    ensures
        before == old(entries)@[i as int].value,
        final(entries)@.len() == old(entries)@.len(),
        final(entries)@[i as int].key == old(entries)@[i as int].key,
        final(entries)@[i as int].value == value,
        forall|k: int|
            0 <= k < old(entries)@.len() && k != i ==> final(entries)@[k] == old(entries)@[k],
        members(final(entries)@) == members(old(entries)@).update(
            i as int,
            MemberValue { key: old(entries)@[i as int].key@, value: value@ },
        ),
{
    let mut value = value;
    std::mem::swap(&mut entries[i].value, &mut value);
    assert(members(entries@) =~= members(old(entries)@).update(
        i as int,
        MemberValue { key: old(entries)@[i as int].key@, value: entries@[i as int].value@ },
    ));
    value
}

impl Json {
    /// The member under `key`, where this is an object that has one.
    pub fn get(&self, key: &str) -> (found: Option<&Json>)
        ensures
            match found {
                Some(value) => self@.member(key@) == Some(value@),
                None => self@.member(key@) is None,
            },
    {
        match self {
            Json::Object(entries) => {
                proof {
                    lemma_object_view(*entries);
                }
                match find_key(entries, key) {
                    Some(i) => Some(&entries[i].value),
                    None => None,
                }
            },
            _ => None,
        }
    }
}

/// What `serde_json::from_str` makes of a text: the value of the document,
/// or the message of the error.
pub uninterp spec fn parsed_json(text: Seq<char>) -> Result<JsonValue, Seq<char>>;

/// The document that a `serde_json::Value` holds.
pub uninterp spec fn value_model(v: serde_json::Value) -> JsonValue;

/// What `serde_json::to_string_pretty` prints for a document, where it
/// prints one.
pub uninterp spec fn pretty_json(v: JsonValue) -> Option<Seq<char>>;

/// One member of a `serde_json` map: its key and the value under it.
struct Entry {
    key: String,
    value: serde_json::Value,
}

/// What a `serde_json::Value` is on its first level: its variant, with what
/// the variant holds.
enum Level {
    Null,
    Bool(bool),
    Number(serde_json::Number),
    Text(String),
    Array(Vec<serde_json::Value>),
    Object(Vec<Entry>),
}

/// The documents that a list of `serde_json::Value`s holds.
spec fn models(items: Seq<serde_json::Value>) -> Seq<JsonValue> {
    Seq::new(items.len(), |i: int| value_model(items[i]))
}

/// The members that a list of entries holds.
spec fn entry_models(entries: Seq<Entry>) -> Seq<MemberValue> {
    Seq::new(
        entries.len(),
        |i: int| MemberValue { key: entries[i].key@, value: value_model(entries[i].value) },
    )
}

/// The document that a level holds.
spec fn level_model(level: Level) -> JsonValue {
    match level {
        Level::Null => JsonValue::Null,
        Level::Bool(b) => JsonValue::Bool(b),
        Level::Number(n) => JsonValue::Number(n),
        Level::Text(s) => JsonValue::Text(s@),
        Level::Array(items) => JsonValue::Array(models(items@)),
        Level::Object(entries) => JsonValue::Object(entry_models(entries@)),
    }
}

/// `serde_json::Number` derives `Clone`: a copy of a number is that number.
pub assume_specification[ <serde_json::Number as Clone>::clone ](n: &serde_json::Number) -> (out:
    serde_json::Number)
    ensures
        out == *n,
;

/// Calls `serde_json::from_str` for a `serde_json::Value`. The result is a
/// function of the text alone; a failure is handed on as the text that the
/// error displays.
#[verifier::external_body]
fn parse_value(text: &str) -> (r: Result<serde_json::Value, String>)
    ensures
        match r {
            Ok(v) => parsed_json(text@) == Ok::<JsonValue, Seq<char>>(value_model(v)),
            Err(message) => parsed_json(text@) == Err::<JsonValue, Seq<char>>(message@),
        },
{
    serde_json::from_str::<serde_json::Value>(text).map_err(|e| e.to_string())
}

/// Takes a `serde_json::Value` apart, one arm for each of its variants. The
/// members of an object come in the order in which the map hands them out:
/// with the features that this crate builds `serde_json` with, the map is a
/// `BTreeMap` over `String` keys, so the keys strictly increase.
#[verifier::external_body]
fn open_value(v: serde_json::Value) -> (level: Level)
    ensures
        level_model(level) == value_model(v),
        level matches Level::Object(entries) ==> keys_increase(entry_models(entries@)),
{
    match v {
        serde_json::Value::Null => Level::Null,
        serde_json::Value::Bool(b) => Level::Bool(b),
        serde_json::Value::Number(n) => Level::Number(n),
        serde_json::Value::String(s) => Level::Text(s),
        serde_json::Value::Array(items) => Level::Array(items),
        serde_json::Value::Object(map) => Level::Object(
            map.into_iter().map(|(key, value)| Entry { key, value }).collect(),
        ),
    }
}

/// Puts a `serde_json::Value` together, one arm for each of its variants.
/// Where the keys of the entries strictly increase, the map that is
/// collected from them holds each entry, in their order.
#[verifier::external_body]
fn close_value(level: Level) -> (v: serde_json::Value)
    requires
        level matches Level::Object(entries) ==> keys_increase(entry_models(entries@)),
    ensures
        value_model(v) == level_model(level),
{
    match level {
        Level::Null => serde_json::Value::Null,
        Level::Bool(b) => serde_json::Value::Bool(b),
        Level::Number(n) => serde_json::Value::Number(n),
        Level::Text(s) => serde_json::Value::String(s),
        Level::Array(items) => serde_json::Value::Array(items),
        Level::Object(entries) => serde_json::Value::Object(
            entries.into_iter().map(|e| (e.key, e.value)).collect(),
        ),
    }
}

/// Calls `serde_json::to_string_pretty` on a `serde_json::Value`. The
/// result is a function of the document alone; a failure gives `None`.
#[verifier::external_body]
fn pretty_value(v: &serde_json::Value) -> (r: Option<String>)
    ensures
        match r {
            Some(text) => pretty_json(value_model(*v)) == Some(text@),
            None => pretty_json(value_model(*v)) is None,
        },
{
    serde_json::to_string_pretty(v).ok()
}

/// Copies a `serde_json::Value` into a `Json`, level by level.
fn import_value(v: serde_json::Value) -> (out: Json)
    ensures
        out@ == value_model(v),
        out@.ordered(),
    decreases value_model(v),
{
    let ghost model = value_model(v);
    match open_value(v) {
        Level::Null => Json::Null,
        Level::Bool(b) => Json::Bool(b),
        Level::Number(n) => Json::Number(n),
        Level::Text(s) => Json::Text(s),
        Level::Array(items) => {
            let ghost all = items@;
            let mut out: Vec<Json> = Vec::new();
            for item in it: items
                invariant
                    it.seq() == all,
                    model == value_model(v),
                    model == JsonValue::Array(models(all)),
                    out@.len() == it.index(),
                    forall|k: int|
                        0 <= k < out@.len() ==> (#[trigger] out@[k])@ == value_model(all[k])
                            && out@[k]@.ordered(),
            {
                proof {
                    let i = it.index() as int;
                    assert(value_model(item) == models(all)[i]);
                    assert(decreases_to!(model => model->Array_0));
                    assert(decreases_to!(models(all) => models(all)[i]));
                }
                out.push(import_value(item));
            }
            proof {
                lemma_array_view(out);
                assert(values(out@) =~= models(all));
            }
            Json::Array(out)
        },
        Level::Object(entries) => {
            let ghost all = entries@;
            let mut out: Vec<Member> = Vec::new();
            for entry in it: entries
                invariant
                    it.seq() == all,
                    model == value_model(v),
                    model == JsonValue::Object(entry_models(all)),
                    out@.len() == it.index(),
                    forall|k: int|
                        0 <= k < out@.len() ==> (#[trigger] out@[k]).key@ == all[k].key@
                            && out@[k].value@ == value_model(all[k].value)
                            && out@[k].value@.ordered(),
            {
                proof {
                    let i = it.index() as int;
                    assert(value_model(entry.value) == entry_models(all)[i].value);
                    assert(decreases_to!(model => model->Object_0));
                    assert(decreases_to!(entry_models(all) => entry_models(all)[i]));
                    assert(decreases_to!(entry_models(all)[i] => entry_models(all)[i].value));
                }
                out.push(Member { key: entry.key, value: import_value(entry.value) });
            }
            proof {
                lemma_object_view(out);
                assert(members(out@) =~= entry_models(all));
            }
            Json::Object(out)
        },
    }
}

/// Copies a `Json` into a `serde_json::Value`, level by level.
fn export_value(doc: &Json) -> (v: serde_json::Value)
    requires
        doc@.ordered(),
    ensures
        value_model(v) == doc@,
    decreases doc,
{
    match doc {
        Json::Null => close_value(Level::Null),
        Json::Bool(b) => close_value(Level::Bool(*b)),
        Json::Number(n) => close_value(Level::Number(n.clone())),
        Json::Text(s) => close_value(Level::Text(s.clone())),
        Json::Array(items) => {
            proof {
                lemma_array_view(*items);
            }
            let mut out: Vec<serde_json::Value> = Vec::new();
            for i in 0..items.len()
                invariant
                    *doc == Json::Array(*items),
                    doc@ == JsonValue::Array(values(items@)),
                    doc@.ordered(),
                    out@.len() == i,
                    forall|k: int| 0 <= k < i ==> value_model(#[trigger] out@[k]) == items@[k]@,
            {
                assert(doc@.ordered() ==> (doc@->Array_0)[i as int].ordered());
                out.push(export_value(&items[i]));
            }
            assert(models(out@) =~= values(items@));
            close_value(Level::Array(out))
        },
        Json::Object(entries) => {
            proof {
                lemma_object_view(*entries);
            }
            let mut out: Vec<Entry> = Vec::new();
            for i in 0..entries.len()
                invariant
                    *doc == Json::Object(*entries),
                    doc@ == JsonValue::Object(members(entries@)),
                    doc@.ordered(),
                    out@.len() == i,
                    forall|k: int|
                        0 <= k < i ==> (#[trigger] out@[k]).key@ == entries@[k].key@ && value_model(
                            out@[k].value,
                        ) == entries@[k].value@,
            {
                assert(doc@.ordered() ==> (doc@->Object_0)[i as int].value.ordered());
                out.push(Entry { key: entries[i].key.clone(), value: export_value(&entries[i].value) });
            }
            assert(entry_models(out@) =~= members(entries@));
            close_value(Level::Object(out))
        },
    }
}

/// Tests whether `a` comes before `b`.
pub fn text_less(a: &Vec<char>, b: &Vec<char>) -> (r: bool)
    ensures
        r == text_lt(a@, b@),
{
    let mut i: usize = 0;
    assert(a@.skip(0) =~= a@);
    assert(b@.skip(0) =~= b@);
    while i < a.len() && i < b.len() && a[i] == b[i]
        invariant
            i <= a.len(),
            i <= b.len(),
            text_lt(a@, b@) == text_lt(a@.skip(i as int), b@.skip(i as int)),
        decreases a.len() - i,
    {
        assert(a@.skip(i as int).drop_first() =~= a@.skip(i + 1));
        assert(b@.skip(i as int).drop_first() =~= b@.skip(i + 1));
        i += 1;
    }
    if i >= b.len() {
        false
    } else if i >= a.len() {
        true
    } else {
        let x: u32 = a[i] as u32;
        let y: u32 = b[i] as u32;
        x < y
    }
}

/// What `Json::to_pretty` gives for a document.
pub open spec fn printed(v: JsonValue) -> Option<Seq<char>> {
    if v.ordered() {
        pretty_json(v)
    } else {
        None
    }
}

impl Json {
    /// Reads a document from JSON text. On failure the error is the
    /// parser's message.
    pub fn parse(text: &str) -> (r: Result<Json, String>)
        ensures
            match r {
                Ok(doc) => parsed_json(text@) == Ok::<JsonValue, Seq<char>>(doc@) && doc@.ordered(),
                Err(message) => parsed_json(text@) == Err::<JsonValue, Seq<char>>(message@),
            },
    {
        match parse_value(text) {
            Ok(v) => Ok(import_value(v)),
            Err(message) => Err(message),
        }
    }

    /// Tests whether the keys of every object in this document strictly
    /// increase.
    pub fn is_ordered(&self) -> (r: bool)
        ensures
            r == self@.ordered(),
        decreases self,
    {
        match self {
            Json::Array(items) => {
                proof {
                    lemma_array_view(*items);
                }
                for i in 0..items.len()
                    invariant
                        self@ == JsonValue::Array(values(items@)),
                        *self == Json::Array(*items),
                        forall|k: int| 0 <= k < i ==> (#[trigger] values(items@)[k]).ordered(),
                {
                    if !items[i].is_ordered() {
                        assert(!values(items@)[i as int].ordered());
                        assert(self@.ordered() ==> (self@->Array_0)[i as int].ordered());
                        return false;
                    }
                }
                true
            },
            Json::Object(entries) => {
                proof {
                    lemma_object_view(*entries);
                }
                let ghost all = members(entries@);
                for i in 0..entries.len()
                    invariant
                        self@ == JsonValue::Object(all),
                        *self == Json::Object(*entries),
                        all == members(entries@),
                        forall|k: int| 0 <= k < i ==> (#[trigger] all[k]).value.ordered(),
                        forall|k: int| 0 < k < i ==> text_lt(all[k - 1].key, #[trigger] all[k].key),
                {
                    if i > 0 {
                        let before = chars_of(entries[i - 1].key.as_str());
                        let here = chars_of(entries[i].key.as_str());
                        if !text_less(&before, &here) {
                            assert(!text_lt(all[i - 1].key, all[i as int].key));
                            return false;
                        }
                    }
                    if !entries[i].value.is_ordered() {
                        assert(!all[i as int].value.ordered());
                        assert(self@.ordered() ==> (self@->Object_0)[i as int].value.ordered());
                        return false;
                    }
                }
                true
            },
            _ => true,
        }
    }

    /// Prints the document as indented JSON text. A document in which the
    /// keys of some object do not strictly increase has no such text.
    pub fn to_pretty(&self) -> (r: Option<String>)
        ensures
            match r {
                Some(text) => printed(self@) == Some(text@),
                None => printed(self@) is None,
            },
    {
        if !self.is_ordered() {
            return None;
        }
        let v = export_value(self);
        pretty_value(&v)
    }
}

impl Json {
    /// Copies the document, value by value.
    pub fn duplicate(&self) -> (out: Json)
        ensures
            out@ == self@,
        decreases self,
    {
        match self {
            Json::Null => Json::Null,
            Json::Bool(b) => Json::Bool(*b),
            Json::Number(n) => Json::Number(n.clone()),
            Json::Text(s) => Json::Text(s.clone()),
            Json::Array(items) => {
                let mut out: Vec<Json> = Vec::new();
                proof {
                    lemma_array_view(*items);
                }
                for i in 0..items.len()
                    invariant
                        *self == Json::Array(*items),
                        self@ == JsonValue::Array(values(items@)),
                        out@.len() == i,
                        forall|k: int| 0 <= k < i ==> (#[trigger] out@[k])@ == items@[k]@,
                {
                    out.push(items[i].duplicate());
                }
                proof {
                    lemma_array_view(out);
                    assert(values(out@) =~= values(items@));
                }
                Json::Array(out)
            },
            Json::Object(entries) => {
                let mut out: Vec<Member> = Vec::new();
                proof {
                    lemma_object_view(*entries);
                }
                for i in 0..entries.len()
                    invariant
                        *self == Json::Object(*entries),
                        self@ == JsonValue::Object(members(entries@)),
                        out@.len() == i,
                        forall|k: int|
                            0 <= k < i ==> (#[trigger] out@[k]).key@ == entries@[k].key@
                                && out@[k].value@ == entries@[k].value@,
                {
                    out.push(
                        Member { key: entries[i].key.clone(), value: entries[i].value.duplicate() },
                    );
                }
                proof {
                    lemma_object_view(out);
                    assert(members(out@) =~= members(entries@));
                }
                Json::Object(out)
            },
        }
    }
}

} // verus!
