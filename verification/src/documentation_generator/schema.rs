//! Reads the description of an API function from a JSON document.
//!
//! Only the short description and the list of platforms are mandatory. A
//! member that is absent or `null` stands for a field that is not given;
//! members that the description does not know are passed over.

use crate::documentation_generator::api_docs_generator::{
    all_signatures, argument_views, paragraph_views, renderable, see_also_views, ApiDescription,
    ApiDescriptionView, Argument, ArgumentView, Cop, CopView, Description, Name, NameView,
    Paragraph, ParagraphView, SeeAlso,
};
use crate::documentation_generator::signature::{holds_signature, is_signature};
use crate::json::{lemma_array_view, values, Json, JsonValue};
use crate::text::texts;
use vstd::prelude::*;

verus! {

/// A field of the description of an API function. `Document` stands for
/// the description as a whole.
#[derive(Clone, Copy, Debug, PartialEq, Eq)]
pub enum Field {
    Document,
    Name,
    Synopsis,
    Arguments,
    RetValues,
    ErrCodes,
    AppliesTo,
    Description,
    SeeAlso,
    Usage,
    Cop,
}

/// Why a JSON document is no description of an API function.
#[derive(Clone, Copy, Debug, PartialEq, Eq)]
pub enum SchemaError {
    /// A mandatory field is not given.
    Missing(Field),
    /// A field does not have the shape that the description asks for.
    Invalid(Field),
}

/// The name of a field in the JSON document.
pub open spec fn field_name(field: Field) -> Seq<char> {
    match field {
        Field::Document => "document"@,
        Field::Name => "name"@,
        Field::Synopsis => "synopsis"@,
        Field::Arguments => "arguments"@,
        Field::RetValues => "retValues"@,
        Field::ErrCodes => "errCodes"@,
        Field::AppliesTo => "appliesTo"@,
        Field::Description => "description"@,
        Field::SeeAlso => "seeAlso"@,
        Field::Usage => "usage"@,
        Field::Cop => "cop"@,
    }
}

/// The sentence that states a schema error.
pub open spec fn schema_message(error: SchemaError) -> Seq<char> {
    match error {
        SchemaError::Missing(field) => "missing field `"@ + field_name(field) + "`"@,
        SchemaError::Invalid(field) => "invalid field `"@ + field_name(field) + "`"@,
    }
}

impl Field {
    /// The name of the field in the JSON document.
    pub fn name(&self) -> (name: &'static str)
        ensures
            name@ == field_name(*self),
    {
        match self {
            Field::Document => "document",
            Field::Name => "name",
            Field::Synopsis => "synopsis",
            Field::Arguments => "arguments",
            Field::RetValues => "retValues",
            Field::ErrCodes => "errCodes",
            Field::AppliesTo => "appliesTo",
            Field::Description => "description",
            Field::SeeAlso => "seeAlso",
            Field::Usage => "usage",
            Field::Cop => "cop",
        }
    }
}

impl SchemaError {
    /// States the error in a sentence.
    pub fn message(&self) -> (out: String)
        ensures
            out@ == schema_message(*self),
    {
        let mut out = String::new();
        match self {
            SchemaError::Missing(field) => {
                out.append("missing field `");
                out.append(field.name());
            },
            SchemaError::Invalid(field) => {
                out.append("invalid field `");
                out.append(field.name());
            },
        }
        out.append("`");
        out
    }
}

/// The member of `doc` under `key`, unless it is `null`.
pub open spec fn present(doc: JsonValue, key: Seq<char>) -> Option<JsonValue> {
    match doc.member(key) {
        Some(JsonValue::Null) => None,
        other => other,
    }
}

/// The text that `v` holds, where it is a text.
pub open spec fn text_of(v: JsonValue) -> Option<Seq<char>> {
    match v {
        JsonValue::Text(t) => Some(t),
        _ => None,
    }
}

/// The texts that `v` holds, where it is a list of texts.
pub open spec fn text_list(v: JsonValue) -> Option<Seq<Seq<char>>> {
    match v {
        JsonValue::Array(items) => if forall|i: int|
            0 <= i < items.len() ==> text_of(#[trigger] items[i]) is Some {
            Some(items.map_values(|x: JsonValue| text_of(x)->0))
        } else {
            None
        },
        _ => None,
    }
}

/// The name that `v` holds, where it has a key and a display form that are
/// texts.
pub open spec fn name_of(v: JsonValue) -> Option<NameView> {
    match v.member("key"@) {
        Some(JsonValue::Text(key)) => match v.member("display"@) {
            Some(JsonValue::Text(display)) => Some(NameView { key, display }),
            _ => None,
        },
        _ => None,
    }
}

/// The names that `v` holds, where it is a list of names.
pub open spec fn name_list(v: JsonValue) -> Option<Seq<NameView>> {
    match v {
        JsonValue::Array(items) => if forall|i: int|
            0 <= i < items.len() ==> name_of(#[trigger] items[i]) is Some {
            Some(items.map_values(|x: JsonValue| name_of(x)->0))
        } else {
            None
        },
        _ => None,
    }
}

/// The argument that `v` holds, where it has a name and a description that
/// are texts.
pub open spec fn argument_of(v: JsonValue) -> Option<ArgumentView> {
    match v.member("name"@) {
        Some(JsonValue::Text(name)) => match v.member("description"@) {
            Some(JsonValue::Text(description)) => Some(ArgumentView { name, description }),
            _ => None,
        },
        _ => None,
    }
}

/// The arguments that `v` holds, where it is a list of arguments.
pub open spec fn argument_list(v: JsonValue) -> Option<Seq<ArgumentView>> {
    match v {
        JsonValue::Array(items) => if forall|i: int|
            0 <= i < items.len() ==> argument_of(#[trigger] items[i]) is Some {
            Some(items.map_values(|x: JsonValue| argument_of(x)->0))
        } else {
            None
        },
        _ => None,
    }
}

/// The block that `v` holds, where it has a type and a text that are texts.
pub open spec fn paragraph_of(v: JsonValue) -> Option<ParagraphView> {
    match v.member("type"@) {
        Some(JsonValue::Text(kind)) => match v.member("text"@) {
            Some(JsonValue::Text(text)) => Some(ParagraphView { kind, text }),
            _ => None,
        },
        _ => None,
    }
}

/// The blocks that `v` holds, where it is a list of blocks.
pub open spec fn paragraph_list(v: JsonValue) -> Option<Seq<ParagraphView>> {
    match v {
        JsonValue::Array(items) => if forall|i: int|
            0 <= i < items.len() ==> paragraph_of(#[trigger] items[i]) is Some {
            Some(items.map_values(|x: JsonValue| paragraph_of(x)->0))
        } else {
            None
        },
        _ => None,
    }
}

/// The lines of one part of the conditions of use: none where the part is
/// not given.
pub open spec fn condition_part(cop: JsonValue, key: Seq<char>) -> Option<Seq<Seq<char>>> {
    match present(cop, key) {
        Some(v) => text_list(v),
        None => Some(Seq::<Seq<char>>::empty()),
    }
}

/// The conditions of use that `v` holds, where each part that is given is a
/// list of texts.
pub open spec fn cop_of(v: JsonValue) -> Option<CopView> {
    match condition_part(v, "BeforeCall"@) {
        Some(before_call) => match condition_part(v, "AfterCall"@) {
            Some(after_call) => match condition_part(v, "BestPractice"@) {
                Some(best_practice) => Some(CopView { before_call, after_call, best_practice }),
                None => None,
            },
            None => None,
        },
        None => None,
    }
}

/// The blocks of the long form of a description: none where it is not
/// given.
pub open spec fn long_of(description: JsonValue) -> Option<Seq<ParagraphView>> {
    match present(description, "long"@) {
        Some(v) => paragraph_list(v),
        None => Some(Seq::<ParagraphView>::empty()),
    }
}

/// Whether the synopsis of `doc` is given and is no list of signatures.
pub open spec fn synopsis_invalid(doc: JsonValue) -> bool {
    match present(doc, "synopsis"@) {
        Some(v) => match text_list(v) {
            Some(list) => !all_signatures(list),
            None => true,
        },
        None => false,
    }
}

/// The first reason for which `doc` is no description, where there is one.
/// The fields are looked at in the order of `Field`.
pub open spec fn schema_error(doc: JsonValue) -> Option<SchemaError> {
    if !(doc is Object) {
        Some(SchemaError::Invalid(Field::Document))
    } else if present(doc, "name"@) is Some && name_of(present(doc, "name"@)->0) is None {
        Some(SchemaError::Invalid(Field::Name))
    } else if synopsis_invalid(doc) {
        Some(SchemaError::Invalid(Field::Synopsis))
    } else if present(doc, "arguments"@) is Some && argument_list(present(doc, "arguments"@)->0)
        is None {
        Some(SchemaError::Invalid(Field::Arguments))
    } else if present(doc, "retValues"@) is Some && text_list(present(doc, "retValues"@)->0)
        is None {
        Some(SchemaError::Invalid(Field::RetValues))
    } else if present(doc, "errCodes"@) is Some && text_list(present(doc, "errCodes"@)->0)
        is None {
        Some(SchemaError::Invalid(Field::ErrCodes))
    } else if doc.member("appliesTo"@) is None {
        Some(SchemaError::Missing(Field::AppliesTo))
    } else if text_list(doc.member("appliesTo"@)->0) is None {
        Some(SchemaError::Invalid(Field::AppliesTo))
    } else if doc.member("description"@) is None {
        Some(SchemaError::Missing(Field::Description))
    } else if text_of_short(doc.member("description"@)->0) is None || long_of(
        doc.member("description"@)->0,
    ) is None {
        Some(SchemaError::Invalid(Field::Description))
    } else if present(doc, "seeAlso"@) is Some && name_list(present(doc, "seeAlso"@)->0) is None {
        Some(SchemaError::Invalid(Field::SeeAlso))
    } else if present(doc, "usage"@) is Some && text_list(present(doc, "usage"@)->0) is None {
        Some(SchemaError::Invalid(Field::Usage))
    } else if present(doc, "cop"@) is Some && cop_of(present(doc, "cop"@)->0) is None {
        Some(SchemaError::Invalid(Field::Cop))
    } else {
        None
    }
}

/// The short form of a description, where it is a text.
pub open spec fn text_of_short(description: JsonValue) -> Option<Seq<char>> {
    match description.member("short"@) {
        Some(v) => text_of(v),
        None => None,
    }
}

/// The texts of an optional field of `doc`.
pub open spec fn optional_text_list(doc: JsonValue, key: Seq<char>) -> Option<Seq<Seq<char>>> {
    match present(doc, key) {
        Some(v) => text_list(v),
        None => None,
    }
}

/// The description that `doc` holds, where nothing is wrong with it.
pub open spec fn description_in(doc: JsonValue) -> ApiDescriptionView {
    ApiDescriptionView {
        name: match present(doc, "name"@) {
            Some(v) => name_of(v),
            None => None,
        },
        synopsis: optional_text_list(doc, "synopsis"@),
        arguments: match present(doc, "arguments"@) {
            Some(v) => argument_list(v),
            None => None,
        },
        ret_values: optional_text_list(doc, "retValues"@),
        err_codes: optional_text_list(doc, "errCodes"@),
        applies_to: text_list(doc.member("appliesTo"@)->0)->0,
        short: text_of_short(doc.member("description"@)->0)->0,
        long: long_of(doc.member("description"@)->0)->0,
        see_also: match present(doc, "seeAlso"@) {
            Some(v) => name_list(v),
            None => None,
        },
        usage: optional_text_list(doc, "usage"@),
        cop: match present(doc, "cop"@) {
            Some(v) => cop_of(v),
            None => None,
        },
    }
}

/// What reading `doc` as a description gives: the description, or the
/// first reason for which it is none.
pub open spec fn decoded(doc: JsonValue) -> Result<ApiDescriptionView, SchemaError> {
    match schema_error(doc) {
        Some(error) => Err(error),
        None => Ok(description_in(doc)),
    }
}

fn get_present<'a>(doc: &'a Json, key: &str) -> (found: Option<&'a Json>)
    ensures
        match found {
            Some(v) => present(doc@, key@) == Some(v@),
            None => present(doc@, key@) is None,
        },
{
    match doc.get(key) {
        Some(Json::Null) => None,
        other => other,
    }
}

fn decode_text(v: &Json) -> (r: Option<String>)
    ensures
        match r {
            Some(t) => text_of(v@) == Some(t@),
            None => text_of(v@) is None,
        },
{
    match v {
        Json::Text(t) => Some(t.clone()),
        _ => None,
    }
}

fn decode_text_list(v: &Json) -> (r: Option<Vec<String>>)
    ensures
        match r {
            Some(list) => text_list(v@) == Some(texts(list@)),
            None => text_list(v@) is None,
        },
{
    match v {
        Json::Array(items) => {
            proof {
                lemma_array_view(*items);
            }
            let ghost all = values(items@);
            let mut out: Vec<String> = Vec::new();
            for i in 0..items.len()
                invariant
                    all == values(items@),
                    v@ == JsonValue::Array(all),
                    out@.len() == i,
                    forall|k: int| 0 <= k < i ==> text_of(#[trigger] all[k]) == Some(out@[k]@),
            {
                match decode_text(&items[i]) {
                    Some(t) => out.push(t),
                    None => {
                        assert(text_of(all[i as int]) is None);
                        return None;
                    },
                }
            }
            assert(texts(out@) =~= all.map_values(|x: JsonValue| text_of(x)->0));
            Some(out)
        },
        _ => None,
    }
}

fn decode_name(v: &Json) -> (r: Option<Name>)
    ensures
        match r {
            Some(name) => name_of(v@) == Some(name@),
            None => name_of(v@) is None,
        },
{
    match v.get("key") {
        Some(Json::Text(key)) => match v.get("display") {
            Some(Json::Text(display)) => Some(Name { key: key.clone(), display: display.clone() }),
            _ => None,
        },
        _ => None,
    }
}

fn decode_see_also(v: &Json) -> (r: Option<Vec<SeeAlso>>)
    ensures
        match r {
            Some(list) => name_list(v@) == Some(see_also_views(list@)),
            None => name_list(v@) is None,
        },
{
    match v {
        Json::Array(items) => {
            proof {
                lemma_array_view(*items);
            }
            let ghost all = values(items@);
            let mut out: Vec<SeeAlso> = Vec::new();
            for i in 0..items.len()
                invariant
                    all == values(items@),
                    v@ == JsonValue::Array(all),
                    out@.len() == i,
                    forall|k: int| 0 <= k < i ==> name_of(#[trigger] all[k]) == Some(out@[k]@),
            {
                match decode_name(&items[i]) {
                    Some(name) => out.push(SeeAlso { key: name.key, display: name.display }),
                    None => {
                        assert(name_of(all[i as int]) is None);
                        return None;
                    },
                }
            }
            assert(see_also_views(out@) =~= all.map_values(|x: JsonValue| name_of(x)->0));
            Some(out)
        },
        _ => None,
    }
}

fn decode_argument(v: &Json) -> (r: Option<Argument>)
    ensures
        match r {
            Some(argument) => argument_of(v@) == Some(argument@),
            None => argument_of(v@) is None,
        },
{
    match v.get("name") {
        Some(Json::Text(name)) => match v.get("description") {
            Some(Json::Text(description)) => Some(
                Argument { name: name.clone(), description: description.clone() },
            ),
            _ => None,
        },
        _ => None,
    }
}

fn decode_arguments(v: &Json) -> (r: Option<Vec<Argument>>)
    ensures
        match r {
            Some(list) => argument_list(v@) == Some(argument_views(list@)),
            None => argument_list(v@) is None,
        },
{
    match v {
        Json::Array(items) => {
            proof {
                lemma_array_view(*items);
            }
            let ghost all = values(items@);
            let mut out: Vec<Argument> = Vec::new();
            for i in 0..items.len()
                invariant
                    all == values(items@),
                    v@ == JsonValue::Array(all),
                    out@.len() == i,
                    forall|k: int| 0 <= k < i ==> argument_of(#[trigger] all[k]) == Some(out@[k]@),
            {
                match decode_argument(&items[i]) {
                    Some(argument) => out.push(argument),
                    None => {
                        assert(argument_of(all[i as int]) is None);
                        return None;
                    },
                }
            }
            assert(argument_views(out@) =~= all.map_values(|x: JsonValue| argument_of(x)->0));
            Some(out)
        },
        _ => None,
    }
}

fn decode_paragraph(v: &Json) -> (r: Option<Paragraph>)
    ensures
        match r {
            Some(paragraph) => paragraph_of(v@) == Some(paragraph@),
            None => paragraph_of(v@) is None,
        },
{
    match v.get("type") {
        Some(Json::Text(kind)) => match v.get("text") {
            Some(Json::Text(text)) => Some(Paragraph { kind: kind.clone(), text: text.clone() }),
            _ => None,
        },
        _ => None,
    }
}

fn decode_paragraphs(v: &Json) -> (r: Option<Vec<Paragraph>>)
    ensures
        match r {
            Some(list) => paragraph_list(v@) == Some(paragraph_views(list@)),
            None => paragraph_list(v@) is None,
        },
{
    match v {
        Json::Array(items) => {
            proof {
                lemma_array_view(*items);
            }
            let ghost all = values(items@);
            let mut out: Vec<Paragraph> = Vec::new();
            for i in 0..items.len()
                invariant
                    all == values(items@),
                    v@ == JsonValue::Array(all),
                    out@.len() == i,
                    forall|k: int| 0 <= k < i ==> paragraph_of(#[trigger] all[k]) == Some(out@[k]@),
            {
                match decode_paragraph(&items[i]) {
                    Some(paragraph) => out.push(paragraph),
                    None => {
                        assert(paragraph_of(all[i as int]) is None);
                        return None;
                    },
                }
            }
            assert(paragraph_views(out@) =~= all.map_values(|x: JsonValue| paragraph_of(x)->0));
            Some(out)
        },
        _ => None,
    }
}

fn decode_condition_part(cop: &Json, key: &str) -> (r: Option<Vec<String>>)
    ensures
        match r {
            Some(list) => condition_part(cop@, key@) == Some(texts(list@)),
            None => condition_part(cop@, key@) is None,
        },
{
    match get_present(cop, key) {
        Some(v) => decode_text_list(v),
        None => {
            let none: Vec<String> = Vec::new();
            assert(texts(none@) =~= Seq::<Seq<char>>::empty());
            Some(none)
        },
    }
}

fn decode_cop(v: &Json) -> (r: Option<Cop>)
    ensures
        match r {
            Some(cop) => cop_of(v@) == Some(cop@),
            None => cop_of(v@) is None,
        },
{
    let before_call = match decode_condition_part(v, "BeforeCall") {
        Some(list) => list,
        None => {
            return None;
        },
    };
    let after_call = match decode_condition_part(v, "AfterCall") {
        Some(list) => list,
        None => {
            return None;
        },
    };
    let best_practice = match decode_condition_part(v, "BestPractice") {
        Some(list) => list,
        None => {
            return None;
        },
    };
    Some(Cop { before_call, after_call, best_practice })
}

fn decode_long(description: &Json) -> (r: Option<Vec<Paragraph>>)
    ensures
        match r {
            Some(list) => long_of(description@) == Some(paragraph_views(list@)),
            None => long_of(description@) is None,
        },
{
    match get_present(description, "long") {
        Some(v) => decode_paragraphs(v),
        None => {
            let none: Vec<Paragraph> = Vec::new();
            assert(paragraph_views(none@) =~= Seq::<ParagraphView>::empty());
            Some(none)
        },
    }
}

fn decode_optional_texts(doc: &Json, key: &str) -> (r: Result<Option<Vec<String>>, ()>)
    ensures
        match r {
            Ok(Some(list)) => optional_text_list(doc@, key@) == Some(texts(list@)) && present(
                doc@,
                key@,
            ) is Some,
            Ok(None) => present(doc@, key@) is None,
            Err(_) => present(doc@, key@) is Some && text_list(present(doc@, key@)->0) is None,
        },
{
    match get_present(doc, key) {
        Some(v) => match decode_text_list(v) {
            Some(list) => Ok(Some(list)),
            None => Err(()),
        },
        None => Ok(None),
    }
}

fn all_hold_signatures(list: &Vec<String>) -> (r: bool)
    ensures
        r == all_signatures(texts(list@)),
{
    for i in 0..list.len()
        invariant
            forall|k: int| 0 <= k < i ==> is_signature(#[trigger] texts(list@)[k]),
    {
        if !holds_signature(list[i].as_str()) {
            assert(!is_signature(texts(list@)[i as int]));
            return false;
        }
    }
    true
}

impl ApiDescription {
    /// Reads a description from a JSON document. The fields are read in the
    /// order of `Field`, and the first one that is missing or misshapen is
    /// reported.
    pub fn from_json(doc: &Json) -> (r: Result<ApiDescription, SchemaError>)
        ensures
            match r {
                Ok(description) => decoded(doc@) == Ok::<ApiDescriptionView, SchemaError>(
                    description@,
                ) && renderable(description@),
                Err(error) => decoded(doc@) == Err::<ApiDescriptionView, SchemaError>(error),
            },
    {
        match doc {
            Json::Object(_) => {},
            _ => {
                return Err(SchemaError::Invalid(Field::Document));
            },
        }
        let name = match get_present(doc, "name") {
            Some(v) => match decode_name(v) {
                Some(name) => Some(name),
                None => {
                    return Err(SchemaError::Invalid(Field::Name));
                },
            },
            None => None,
        };
        let synopsis = match decode_optional_texts(doc, "synopsis") {
            Ok(Some(list)) => {
                if !all_hold_signatures(&list) {
                    return Err(SchemaError::Invalid(Field::Synopsis));
                }
                Some(list)
            },
            Ok(None) => None,
            Err(_) => {
                return Err(SchemaError::Invalid(Field::Synopsis));
            },
        };
        let arguments = match get_present(doc, "arguments") {
            Some(v) => match decode_arguments(v) {
                Some(list) => Some(list),
                None => {
                    return Err(SchemaError::Invalid(Field::Arguments));
                },
            },
            None => None,
        };
        let ret_values = match decode_optional_texts(doc, "retValues") {
            Ok(list) => list,
            Err(_) => {
                return Err(SchemaError::Invalid(Field::RetValues));
            },
        };
        let err_codes = match decode_optional_texts(doc, "errCodes") {
            Ok(list) => list,
            Err(_) => {
                return Err(SchemaError::Invalid(Field::ErrCodes));
            },
        };
        let applies_to = match doc.get("appliesTo") {
            Some(v) => match decode_text_list(v) {
                Some(list) => list,
                None => {
                    return Err(SchemaError::Invalid(Field::AppliesTo));
                },
            },
            None => {
                return Err(SchemaError::Missing(Field::AppliesTo));
            },
        };
        let description = match doc.get("description") {
            Some(v) => {
                let short = match v.get("short") {
                    Some(Json::Text(t)) => t.clone(),
                    _ => {
                        return Err(SchemaError::Invalid(Field::Description));
                    },
                };
                let long = match decode_long(v) {
                    Some(list) => list,
                    None => {
                        return Err(SchemaError::Invalid(Field::Description));
                    },
                };
                Description { short, long }
            },
            None => {
                return Err(SchemaError::Missing(Field::Description));
            },
        };
        let see_also = match get_present(doc, "seeAlso") {
            Some(v) => match decode_see_also(v) {
                Some(list) => Some(list),
                None => {
                    return Err(SchemaError::Invalid(Field::SeeAlso));
                },
            },
            None => None,
        };
        let usage = match decode_optional_texts(doc, "usage") {
            Ok(list) => list,
            Err(_) => {
                return Err(SchemaError::Invalid(Field::Usage));
            },
        };
        let cop = match get_present(doc, "cop") {
            Some(v) => match decode_cop(v) {
                Some(cop) => Some(cop),
                None => {
                    return Err(SchemaError::Invalid(Field::Cop));
                },
            },
            None => None,
        };
        let description = ApiDescription {
            name,
            synopsis,
            arguments,
            ret_values,
            err_codes,
            applies_to,
            description,
            see_also,
            usage,
            cop,
        };
        assert(schema_error(doc@) is None);
        assert(description@ == description_in(doc@));
        Ok(description)
    }
}

} // verus!
