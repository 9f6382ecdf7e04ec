//! Brings an API description that was written for several platforms into
//! the shape that it has for one of them.
//!
//! A field of such a description is either given once, or as a list whose
//! first element holds one variant per platform, each under the platform's
//! tag. Flattening a field keeps the variant of the platform that is asked
//! for.

use crate::documentation_generator::normal_form::lemma_normalizing_keeps_order;
use crate::json::{
    find_key, lemma_array_view, lemma_key_index, lemma_object_view, members, parsed_json,
    pretty_json, printed, swap_value, values, Json, JsonValue, Member, MemberValue,
};
use crate::text::{chars_of, is_text, push_chars, string_of, trim, trimmed};
use vstd::prelude::*;

verus! {

/// The tag of the platform whose variants are kept.
pub open spec fn primary_tag() -> Seq<char> {
    "TC23"@
}

/// The tag of the other platform that descriptions are written for.
pub open spec fn other_tag() -> Seq<char> {
    "ARM-CMX"@
}

/// The items of a field once flattened for the platform `target`.
///
/// Where the first item holds a list under `target`, the items are that list;
/// where it holds a text there, the items are that one text. Otherwise, a
/// first item that holds anything under the other platform's tag leaves no
/// items, and any other field stays as it is.
pub open spec fn flattened(items: Seq<JsonValue>, target: Seq<char>) -> Seq<JsonValue> {
    if items.len() == 0 {
        items
    } else {
        match items[0].member(target) {
            Some(JsonValue::Array(variant)) => variant,
            Some(JsonValue::Text(t)) => seq![JsonValue::Text(t)],
            _ => if items[0].member(other_tag()) is Some {
                Seq::empty()
            } else {
                items
            },
        }
    }
}

/// A field's value once flattened: only a list changes.
pub open spec fn flattened_value(value: JsonValue, target: Seq<char>) -> JsonValue {
    match value {
        JsonValue::Array(items) => JsonValue::Array(flattened(items, target)),
        _ => value,
    }
}

/// `doc` with its field `key` flattened, where it has that field.
pub open spec fn with_field_flattened(
    doc: JsonValue,
    key: Seq<char>,
    target: Seq<char>,
) -> JsonValue {
    match doc.member(key) {
        Some(value) => doc.with_member(key, flattened_value(value, target)),
        None => doc,
    }
}

/// The text of the paragraphs in `parts`: each text between two line
/// breaks. What is no text adds nothing.
pub open spec fn paragraphs_text(parts: Seq<JsonValue>) -> Seq<char>
    decreases parts.len(),
{
    if parts.len() == 0 {
        Seq::<char>::empty()
    } else {
        paragraphs_text(parts.drop_last()) + match parts.last() {
            JsonValue::Text(t) => "\n"@ + t + "\n"@,
            _ => Seq::<char>::empty(),
        }
    }
}

/// The text of the bullets in `items`: each text on a line of its own
/// behind a star. What is no text adds nothing.
pub open spec fn bullets_text(items: Seq<JsonValue>) -> Seq<char>
    decreases items.len(),
{
    if items.len() == 0 {
        Seq::<char>::empty()
    } else {
        bullets_text(items.drop_last()) + match items.last() {
            JsonValue::Text(t) => "\n * "@ + t,
            _ => Seq::<char>::empty(),
        }
    }
}

/// The text of a paragraph block: the paragraphs of its variant for
/// `target`, or else its own text between two line breaks.
pub open spec fn paragraph_block_text(block: JsonValue, target: Seq<char>) -> Seq<char> {
    match block.member(target) {
        Some(JsonValue::Array(parts)) => paragraphs_text(parts),
        _ => match block.member("text"@) {
            Some(JsonValue::Text(t)) => "\n"@ + t + "\n"@,
            _ => Seq::<char>::empty(),
        },
    }
}

/// The text of a bullet list block: the bullets of its variant for `target`,
/// or else its own bullets and a line break.
pub open spec fn bullet_block_text(block: JsonValue, target: Seq<char>) -> Seq<char> {
    match block.member(target) {
        Some(JsonValue::Array(items)) => bullets_text(items),
        _ => match block.member("text"@) {
            Some(JsonValue::Array(items)) => bullets_text(items) + "\n"@,
            _ => Seq::<char>::empty(),
        },
    }
}

/// The text of one block of a long description. A block of another type
/// than paragraph and bullet list has none.
pub open spec fn block_text(block: JsonValue, target: Seq<char>) -> Seq<char> {
    match block.member("type"@) {
        Some(JsonValue::Text(kind)) => if kind == "PP"@ {
            paragraph_block_text(block, target)
        } else if kind == "BL"@ {
            bullet_block_text(block, target)
        } else {
            Seq::<char>::empty()
        },
        _ => Seq::<char>::empty(),
    }
}

/// The texts of all `blocks`, in a row.
pub open spec fn blocks_text(blocks: Seq<JsonValue>, target: Seq<char>) -> Seq<char>
    decreases blocks.len(),
{
    if blocks.len() == 0 {
        Seq::<char>::empty()
    } else {
        blocks_text(blocks.drop_last(), target) + block_text(blocks.last(), target)
    }
}

/// A paragraph block that holds `text`.
pub open spec fn paragraph_block(text: Seq<char>) -> JsonValue {
    JsonValue::Object(
        seq![
            MemberValue { key: "text"@, value: JsonValue::Text(text) },
            MemberValue { key: "type"@, value: JsonValue::Text("PP"@) },
        ],
    )
}

/// The one paragraph block that stands for all `blocks`.
pub open spec fn merged_block(blocks: Seq<JsonValue>, target: Seq<char>) -> JsonValue {
    paragraph_block(trimmed(blocks_text(blocks, target)))
}

/// A description whose list of blocks, where it has one, is merged into one
/// block.
pub open spec fn with_long_merged(description: JsonValue, target: Seq<char>) -> JsonValue {
    match description.member("long"@) {
        Some(JsonValue::Array(blocks)) => description.with_member(
            "long"@,
            JsonValue::Array(seq![merged_block(blocks, target)]),
        ),
        _ => description,
    }
}

/// `doc` with the long form of its description merged.
pub open spec fn with_description_merged(doc: JsonValue, target: Seq<char>) -> JsonValue {
    match doc.member("description"@) {
        Some(description) => doc.with_member("description"@, with_long_merged(description, target)),
        None => doc,
    }
}

/// The conditions of use with each of their three sections flattened.
pub open spec fn conditions_flattened(cop: JsonValue, target: Seq<char>) -> JsonValue {
    with_field_flattened(
        with_field_flattened(with_field_flattened(cop, "BeforeCall"@, target), "AfterCall"@, target),
        "BestPractice"@,
        target,
    )
}

/// `doc` with the sections of its conditions of use flattened.
pub open spec fn with_conditions_flattened(doc: JsonValue, target: Seq<char>) -> JsonValue {
    match doc.member("cop"@) {
        Some(cop) => doc.with_member("cop"@, conditions_flattened(cop, target)),
        None => doc,
    }
}

/// `doc` with its five plain fields flattened.
pub open spec fn with_fields_flattened(doc: JsonValue, target: Seq<char>) -> JsonValue {
    with_field_flattened(
        with_field_flattened(
            with_field_flattened(
                with_field_flattened(with_field_flattened(doc, "synopsis"@, target), "arguments"@, target),
                "appliesTo"@,
                target,
            ),
            "errCodes"@,
            target,
        ),
        "usage"@,
        target,
    )
}

/// The description `doc` in the shape that it has for the platform `target`.
pub open spec fn normalized_for(doc: JsonValue, target: Seq<char>) -> JsonValue {
    with_conditions_flattened(
        with_description_merged(with_fields_flattened(doc, target), target),
        target,
    )
}

/// The description `doc` in the shape that it has for the primary platform.
pub open spec fn normalized(doc: JsonValue) -> JsonValue {
    normalized_for(doc, primary_tag())
}

/// Flattens the items of a field for the platform `target_key`.
pub fn flatten(items: Vec<Json>, target_key: &str) -> (out: Vec<Json>)
    ensures
        values(out@) == flattened(values(items@), target_key@),
{
    if items.len() == 0 {
        return items;
    }
    let ghost before = values(items@);
    let takes_variant = match items[0].get(target_key) {
        Some(Json::Array(_)) => true,
        Some(Json::Text(_)) => true,
        _ => false,
    };
    if takes_variant {
        let mut items = items;
        let mut first = Json::Null;
        std::mem::swap(&mut items[0], &mut first);
        assert(first@ == before[0]);
        match first {
            Json::Object(mut entries) => {
                proof {
                    lemma_object_view(entries);
                }
                match find_key(&entries, target_key) {
                    Some(i) => {
                        let variant = swap_value(&mut entries, i, Json::Null);
                        match variant {
                            Json::Array(list) => {
                                proof {
                                    lemma_array_view(list);
                                }
                                list
                            },
                            Json::Text(t) => {
                                let out = vec![Json::Text(t)];
                                assert(values(out@) =~= seq![JsonValue::Text(t@)]);
                                out
                            },
                            _ => Vec::new(),
                        }
                    },
                    None => Vec::new(),
                }
            },
            _ => Vec::new(),
        }
    } else if items[0].get("ARM-CMX").is_some() {
        let out: Vec<Json> = Vec::new();
        assert(values(out@) =~= Seq::<JsonValue>::empty());
        out
    } else {
        items
    }
}

/// Flattens the value of a field for the platform `target_key`.
pub fn flatten_value(value: Json, target_key: &str) -> (out: Json)
    ensures
        out@ == flattened_value(value@, target_key@),
{
    match value {
        Json::Array(items) => {
            proof {
                lemma_array_view(items);
            }
            let flat = flatten(items, target_key);
            proof {
                lemma_array_view(flat);
            }
            Json::Array(flat)
        },
        other => other,
    }
}

/// Flattens the field `key` of `doc` for the platform `target_key`. A
/// document without that field stays as it is.
pub fn modify_structure(doc: Json, key: &str, target_key: &str) -> (out: Json)
    ensures
        out@ == with_field_flattened(doc@, key@, target_key@),
{
    match doc {
        Json::Object(mut entries) => {
            proof {
                lemma_object_view(entries);
            }
            let ghost before = members(entries@);
            match find_key(&entries, key) {
                Some(i) => {
                    let value = swap_value(&mut entries, i, Json::Null);
                    let flat = flatten_value(value, target_key);
                    let _ = swap_value(&mut entries, i, flat);
                    proof {
                        lemma_object_view(entries);
                        lemma_key_index(before, key@);
                        assert(members(entries@) =~= before.update(
                            i as int,
                            MemberValue { key: key@, value: flat@ },
                        ));
                    }
                    Json::Object(entries)
                },
                None => Json::Object(entries),
            }
        },
        other => other,
    }
}

/// Appends the text of the paragraphs in `parts` to `out`.
fn push_paragraphs(out: &mut Vec<char>, parts: &Vec<Json>)
    ensures
        final(out)@ == old(out)@ + paragraphs_text(values(parts@)),
{
    let ghost all = values(parts@);
    assert(all.take(0) =~= Seq::<JsonValue>::empty());
    assert(old(out)@ + Seq::<char>::empty() =~= old(out)@);
    for i in 0..parts.len()
        invariant
            all == values(parts@),
            out@ == old(out)@ + paragraphs_text(all.take(i as int)),
    {
        assert(all.take(i + 1).drop_last() =~= all.take(i as int));
        assert(all.take(i + 1).last() == parts@[i as int]@);
        let ghost so_far = out@;
        match &parts[i] {
            Json::Text(t) => {
                push_chars(out, "\n");
                push_chars(out, t.as_str());
                push_chars(out, "\n");
                assert(out@ =~= so_far + ("\n"@ + t@ + "\n"@));
            },
            _ => {
                assert(out@ =~= so_far + Seq::<char>::empty());
            },
        }
        assert(out@ =~= old(out)@ + paragraphs_text(all.take(i + 1)));
    }
    assert(all.take(parts.len() as int) =~= all);
}

/// Appends the text of the bullets in `items` to `out`.
fn push_bullets(out: &mut Vec<char>, items: &Vec<Json>)
    ensures
        final(out)@ == old(out)@ + bullets_text(values(items@)),
{
    let ghost all = values(items@);
    assert(all.take(0) =~= Seq::<JsonValue>::empty());
    assert(old(out)@ + Seq::<char>::empty() =~= old(out)@);
    for i in 0..items.len()
        invariant
            all == values(items@),
            out@ == old(out)@ + bullets_text(all.take(i as int)),
    {
        assert(all.take(i + 1).drop_last() =~= all.take(i as int));
        assert(all.take(i + 1).last() == items@[i as int]@);
        let ghost so_far = out@;
        match &items[i] {
            Json::Text(t) => {
                push_chars(out, "\n * ");
                push_chars(out, t.as_str());
                assert(out@ =~= so_far + ("\n * "@ + t@));
            },
            _ => {
                assert(out@ =~= so_far + Seq::<char>::empty());
            },
        }
        assert(out@ =~= old(out)@ + bullets_text(all.take(i + 1)));
    }
    assert(all.take(items.len() as int) =~= all);
}

/// Appends the text of one block of a long description to `out`.
fn push_block(out: &mut Vec<char>, block: &Json, target_key: &str)
    ensures
        final(out)@ == old(out)@ + block_text(block@, target_key@),
{
    assert(old(out)@ + Seq::<char>::empty() =~= old(out)@);
    let ghost so_far = out@;
    match block.get("type") {
        Some(Json::Text(kind)) => {
            let kind = chars_of(kind.as_str());
            if is_text(&kind, "PP") {
                match block.get(target_key) {
                    Some(Json::Array(parts)) => {
                        proof {
                            lemma_array_view(*parts);
                        }
                        push_paragraphs(out, parts);
                    },
                    _ => match block.get("text") {
                        Some(Json::Text(t)) => {
                            push_chars(out, "\n");
                            push_chars(out, t.as_str());
                            push_chars(out, "\n");
                            assert(out@ =~= so_far + ("\n"@ + t@ + "\n"@));
                        },
                        _ => {},
                    },
                }
            } else if is_text(&kind, "BL") {
                match block.get(target_key) {
                    Some(Json::Array(items)) => {
                        proof {
                            lemma_array_view(*items);
                        }
                        push_bullets(out, items);
                    },
                    _ => match block.get("text") {
                        Some(Json::Array(items)) => {
                            proof {
                                lemma_array_view(*items);
                            }
                            push_bullets(out, items);
                            push_chars(out, "\n");
                            assert(out@ =~= so_far + (bullets_text(values(items@)) + "\n"@));
                        },
                        _ => {},
                    },
                }
            }
        },
        _ => {},
    }
}

/// Builds the one paragraph block that stands for all `blocks`.
fn merge_blocks(blocks: &Vec<Json>, target_key: &str) -> (out: Json)
    ensures
        out@ == merged_block(values(blocks@), target_key@),
{
    let mut text: Vec<char> = Vec::new();
    let ghost all = values(blocks@);
    assert(all.take(0) =~= Seq::<JsonValue>::empty());
    for i in 0..blocks.len()
        invariant
            all == values(blocks@),
            text@ == blocks_text(all.take(i as int), target_key@),
    {
        assert(all.take(i + 1).drop_last() =~= all.take(i as int));
        assert(all.take(i + 1).last() == blocks@[i as int]@);
        push_block(&mut text, &blocks[i], target_key);
    }
    assert(all.take(blocks.len() as int) =~= all);
    let kept = string_of(&trim(&text));
    let entries = vec![
        Member { key: "text".to_owned(), value: Json::Text(kept) },
        Member { key: "type".to_owned(), value: Json::Text("PP".to_owned()) },
    ];
    proof {
        lemma_object_view(entries);
        assert(members(entries@) =~= seq![
            MemberValue { key: "text"@, value: JsonValue::Text(kept@) },
            MemberValue { key: "type"@, value: JsonValue::Text("PP"@) },
        ]);
    }
    Json::Object(entries)
}

/// Merges the list of blocks of a description into one block.
fn merge_long(description: Json, target_key: &str) -> (out: Json)
    ensures
        out@ == with_long_merged(description@, target_key@),
{
    match description {
        Json::Object(mut entries) => {
            proof {
                lemma_object_view(entries);
            }
            let ghost before = members(entries@);
            match find_key(&entries, "long") {
                Some(i) => {
                    let merged = match &entries[i].value {
                        Json::Array(blocks) => {
                            proof {
                                lemma_array_view(*blocks);
                            }
                            Some(merge_blocks(blocks, target_key))
                        },
                        _ => None,
                    };
                    match merged {
                        Some(block) => {
                            let list = vec![block];
                            let _ = swap_value(&mut entries, i, Json::Array(list));
                            proof {
                                lemma_array_view(list);
                                assert(values(list@) =~= seq![block@]);
                                lemma_object_view(entries);
                                lemma_key_index(before, "long"@);
                                assert(members(entries@) =~= before.update(
                                    i as int,
                                    MemberValue { key: "long"@, value: Json::Array(list)@ },
                                ));
                            }
                            Json::Object(entries)
                        },
                        None => Json::Object(entries),
                    }
                },
                None => Json::Object(entries),
            }
        },
        other => other,
    }
}

/// Merges the long form of the description of `doc` into one paragraph
/// block, reading each block in its variant for the platform `target_key`.
pub fn transform_description(doc: Json, target_key: &str) -> (out: Json)
    ensures
        out@ == with_description_merged(doc@, target_key@),
{
    match doc {
        Json::Object(mut entries) => {
            proof {
                lemma_object_view(entries);
            }
            let ghost before = members(entries@);
            match find_key(&entries, "description") {
                Some(i) => {
                    let description = swap_value(&mut entries, i, Json::Null);
                    let merged = merge_long(description, target_key);
                    let _ = swap_value(&mut entries, i, merged);
                    proof {
                        lemma_object_view(entries);
                        lemma_key_index(before, "description"@);
                        assert(members(entries@) =~= before.update(
                            i as int,
                            MemberValue { key: "description"@, value: merged@ },
                        ));
                    }
                    Json::Object(entries)
                },
                None => Json::Object(entries),
            }
        },
        other => other,
    }
}

/// Flattens the three sections of the conditions of use of `doc` for the
/// platform `target_key`.
pub fn transform_cop(doc: Json, target_key: &str) -> (out: Json)
    ensures
        out@ == with_conditions_flattened(doc@, target_key@),
{
    match doc {
        Json::Object(mut entries) => {
            proof {
                lemma_object_view(entries);
            }
            let ghost before = members(entries@);
            match find_key(&entries, "cop") {
                Some(i) => {
                    let cop = swap_value(&mut entries, i, Json::Null);
                    let cop = modify_structure(cop, "BeforeCall", target_key);
                    let cop = modify_structure(cop, "AfterCall", target_key);
                    let cop = modify_structure(cop, "BestPractice", target_key);
                    let ghost flat = cop@;
                    let _ = swap_value(&mut entries, i, cop);
                    proof {
                        lemma_object_view(entries);
                        lemma_key_index(before, "cop"@);
                        assert(members(entries@) =~= before.update(
                            i as int,
                            MemberValue { key: "cop"@, value: flat },
                        ));
                    }
                    Json::Object(entries)
                },
                None => Json::Object(entries),
            }
        },
        other => other,
    }
}

/// Brings the description `doc` into the shape that it has for the primary
/// platform.
pub fn normalize(doc: Json) -> (out: Json)
    ensures
        out@ == normalized(doc@),
        doc@.ordered() ==> out@.ordered(),
{
    proof {
        if doc@.ordered() {
            lemma_normalizing_keeps_order(doc@, primary_tag());
        }
    }
    let doc = modify_structure(doc, "synopsis", "TC23");
    let doc = modify_structure(doc, "arguments", "TC23");
    let doc = modify_structure(doc, "appliesTo", "TC23");
    let doc = modify_structure(doc, "errCodes", "TC23");
    let doc = modify_structure(doc, "usage", "TC23");
    let doc = transform_description(doc, "TC23");
    transform_cop(doc, "TC23")
}

/// Why a text could not be brought into the shape of the primary platform.
#[derive(Debug, PartialEq)]
pub enum TransformError {
    /// The text is no JSON document. Holds the message of the parser.
    Syntax(String),
    /// The document that was made has no text.
    Unprintable,
}

/// The mathematical value of a `TransformError`.
pub enum TransformFailure {
    Syntax(Seq<char>),
    Unprintable,
}

impl View for TransformError {
    type V = TransformFailure;

    open spec fn view(&self) -> TransformFailure {
        match self {
            TransformError::Syntax(message) => TransformFailure::Syntax(message@),
            TransformError::Unprintable => TransformFailure::Unprintable,
        }
    }
}

/// The text of the description `doc` in the shape of the primary platform.
pub open spec fn transformed_document(doc: JsonValue) -> Result<Seq<char>, TransformFailure> {
    match printed(normalized(doc)) {
        Some(text) => Ok(text),
        None => Err(TransformFailure::Unprintable),
    }
}

/// What becomes of a text that was parsed: the text that is printed for the
/// normalized description, or the reason for which there is none.
pub open spec fn transformed(
    outcome: Result<JsonValue, Seq<char>>,
) -> Result<Seq<char>, TransformFailure> {
    match outcome {
        Ok(doc) => match pretty_json(normalized(doc)) {
            Some(text) => Ok(text),
            None => Err(TransformFailure::Unprintable),
        },
        Err(message) => Err(TransformFailure::Syntax(message)),
    }
}

/// Brings the description `doc` into the shape of the primary platform and
/// prints it as indented JSON text.
pub fn transform_document(doc: Json) -> (r: Result<String, TransformError>)
    ensures
        match r {
            Ok(text) => transformed_document(doc@) == Ok::<Seq<char>, TransformFailure>(text@),
            Err(error) => transformed_document(doc@) == Err::<Seq<char>, TransformFailure>(error@),
        },
{
    match normalize(doc).to_pretty() {
        Some(text) => Ok(text),
        None => Err(TransformError::Unprintable),
    }
}

/// Transforms the JSON text of an API description: parses it, brings the
/// description into the shape of the primary platform, and prints it as
/// indented JSON text.
pub fn transform_input(json_text: &str) -> (r: Result<String, TransformError>)
    ensures
        match r {
            Ok(text) => transformed(parsed_json(json_text@)) == Ok::<Seq<char>, TransformFailure>(
                text@,
            ),
            Err(error) => transformed(parsed_json(json_text@)) == Err::<
                Seq<char>,
                TransformFailure,
            >(error@),
        },
{
    match Json::parse(json_text) {
        Ok(doc) => {
            proof {
                lemma_normalizing_keeps_order(doc@, primary_tag());
            }
            transform_document(doc)
        },
        Err(message) => Err(TransformError::Syntax(message)),
    }
}

} // verus!
