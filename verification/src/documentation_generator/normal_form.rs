//! What holds of descriptions that were brought into the shape of one
//! platform.

use crate::documentation_generator::transform_input::{
    block_text, blocks_text, conditions_flattened, flattened, flattened_value, merged_block,
    normalized, normalized_for, other_tag, paragraph_block, paragraph_block_text, primary_tag,
    with_conditions_flattened, with_description_merged, with_field_flattened,
    with_fields_flattened, with_long_merged,
};
use crate::json::{key_index, keys_increase, lemma_key_index, text_lt, JsonValue, MemberValue};
use crate::text::{is_trimmed, lemma_trim_padded, lemma_trimmed_is_trimmed, trimmed};
use vstd::prelude::*;

verus! {

/// Whether `items` is a list of variants for several platforms: its first
/// item holds a list or a text under `target`, or anything under the other
/// platform's tag.
pub open spec fn holds_variants(items: Seq<JsonValue>, target: Seq<char>) -> bool {
    items.len() > 0 && match items[0].member(target) {
        Some(JsonValue::Array(_)) => true,
        Some(JsonValue::Text(_)) => true,
        _ => items[0].member(other_tag()) is Some,
    }
}

/// Whether `value` is a list of variants whose variant for `target` is a
/// list of variants again.
pub open spec fn nests_variants(value: JsonValue, target: Seq<char>) -> bool {
    match value {
        JsonValue::Array(items) => items.len() > 0 && match items[0].member(target) {
            Some(JsonValue::Array(variant)) => holds_variants(variant, target),
            _ => false,
        },
        _ => false,
    }
}

/// Whether the field `key` of `doc` is absent or nests no variants.
pub open spec fn field_settles(doc: JsonValue, key: Seq<char>, target: Seq<char>) -> bool {
    match doc.member(key) {
        Some(value) => !nests_variants(value, target),
        None => true,
    }
}

/// Whether no field that is flattened for `target` nests variants in `doc`.
pub open spec fn free_of_nested_variants(doc: JsonValue, target: Seq<char>) -> bool {
    &&& field_settles(doc, "synopsis"@, target)
    &&& field_settles(doc, "arguments"@, target)
    &&& field_settles(doc, "appliesTo"@, target)
    &&& field_settles(doc, "errCodes"@, target)
    &&& field_settles(doc, "usage"@, target)
    &&& match doc.member("cop"@) {
        Some(cop) => {
            &&& field_settles(cop, "BeforeCall"@, target)
            &&& field_settles(cop, "AfterCall"@, target)
            &&& field_settles(cop, "BestPractice"@, target)
        },
        None => true,
    }
}

/// A list that holds no variants is left as it is.
pub proof fn lemma_flat_stays(items: Seq<JsonValue>, target: Seq<char>)
    requires
        !holds_variants(items, target),
    ensures
        flattened(items, target) == items,
{
}

/// Flattening a value that nests no variants a second time changes nothing.
pub proof fn lemma_flatten_settles(value: JsonValue, target: Seq<char>)
    requires
        !nests_variants(value, target),
    ensures
        flattened_value(flattened_value(value, target), target) == flattened_value(value, target),
{
    match value {
        JsonValue::Array(items) => {
            if items.len() > 0 {
                match items[0].member(target) {
                    Some(JsonValue::Array(variant)) => {
                        lemma_flat_stays(variant, target);
                    },
                    Some(JsonValue::Text(t)) => {
                        let one = seq![JsonValue::Text(t)];
                        assert(one[0].member(target) is None);
                        assert(one[0].member(other_tag()) is None);
                    },
                    _ => {
                        if items[0].member(other_tag()) is Some {
                            assert(flattened(items, target) =~= Seq::<JsonValue>::empty());
                        }
                    },
                }
            }
        },
        _ => {},
    }
}

proof fn lemma_key_index_kept(
    entries: Seq<MemberValue>,
    i: int,
    value: JsonValue,
    key: Seq<char>,
)
    requires
        0 <= i < entries.len(),
    ensures
        key_index(entries.update(i, MemberValue { key: entries[i].key, value }), key) == key_index(
            entries,
            key,
        ),
    decreases entries.len(),
{
    let changed = entries.update(i, MemberValue { key: entries[i].key, value });
    if entries[0].key != key {
        if i == 0 {
            assert(changed.drop_first() =~= entries.drop_first());
        } else {
            assert(changed.drop_first() =~= entries.drop_first().update(
                i - 1,
                MemberValue { key: entries.drop_first()[i - 1].key, value },
            ));
            lemma_key_index_kept(entries.drop_first(), i - 1, value, key);
        }
    }
}

/// What stands under `other` after the member under `key` was replaced.
pub proof fn lemma_member_after_replacing(
    doc: JsonValue,
    key: Seq<char>,
    value: JsonValue,
    other: Seq<char>,
)
    ensures
        doc.with_member(key, value).member(other) == if other == key && doc.member(key) is Some {
            Some(value)
        } else {
            doc.member(other)
        },
{
    match doc {
        JsonValue::Object(entries) => {
            lemma_key_index(entries, key);
            lemma_key_index(entries, other);
            match key_index(entries, key) {
                Some(i) => {
                    lemma_key_index_kept(entries, i, value, other);
                },
                None => {},
            }
        },
        _ => {},
    }
}

/// Putting a member's own value in its place changes nothing.
pub proof fn lemma_replacing_by_itself(doc: JsonValue, key: Seq<char>)
    ensures
        doc.member(key) matches Some(value) ==> doc.with_member(key, value) == doc,
{
    match doc {
        JsonValue::Object(entries) => {
            lemma_key_index(entries, key);
            match key_index(entries, key) {
                Some(i) => {
                    assert(entries.update(i, MemberValue { key, value: entries[i].value })
                        =~= entries);
                },
                None => {},
            }
        },
        _ => {},
    }
}

/// What stands under `other` after the field `key` was flattened.
pub proof fn lemma_member_after_flattening(
    doc: JsonValue,
    key: Seq<char>,
    target: Seq<char>,
    other: Seq<char>,
)
    ensures
        with_field_flattened(doc, key, target).member(other) == if other == key {
            match doc.member(key) {
                Some(value) => Some(flattened_value(value, target)),
                None => None,
            }
        } else {
            doc.member(other)
        },
{
    match doc.member(key) {
        Some(value) => {
            lemma_member_after_replacing(doc, key, flattened_value(value, target), other);
        },
        None => {},
    }
}

/// Flattening a field whose value flattening leaves alone changes nothing.
pub proof fn lemma_flattening_settled_field(doc: JsonValue, key: Seq<char>, target: Seq<char>)
    requires
        doc.member(key) matches Some(value) ==> flattened_value(value, target) == value,
    ensures
        with_field_flattened(doc, key, target) == doc,
{
    lemma_replacing_by_itself(doc, key);
}

/// The names of the fields of a description differ from each other.
pub proof fn lemma_field_names_differ()
    ensures
        "synopsis"@ != "arguments"@,
        "synopsis"@ != "appliesTo"@,
        "synopsis"@ != "errCodes"@,
        "synopsis"@ != "usage"@,
        "synopsis"@ != "description"@,
        "synopsis"@ != "cop"@,
        "arguments"@ != "appliesTo"@,
        "arguments"@ != "errCodes"@,
        "arguments"@ != "usage"@,
        "arguments"@ != "description"@,
        "arguments"@ != "cop"@,
        "appliesTo"@ != "errCodes"@,
        "appliesTo"@ != "usage"@,
        "appliesTo"@ != "description"@,
        "appliesTo"@ != "cop"@,
        "errCodes"@ != "usage"@,
        "errCodes"@ != "description"@,
        "errCodes"@ != "cop"@,
        "usage"@ != "description"@,
        "usage"@ != "cop"@,
        "description"@ != "cop"@,
        "BeforeCall"@ != "AfterCall"@,
        "BeforeCall"@ != "BestPractice"@,
        "AfterCall"@ != "BestPractice"@,
        "text"@ != "type"@,
{
    reveal_strlit("synopsis");
    reveal_strlit("arguments");
    reveal_strlit("appliesTo");
    reveal_strlit("errCodes");
    reveal_strlit("usage");
    reveal_strlit("description");
    reveal_strlit("cop");
    reveal_strlit("BeforeCall");
    reveal_strlit("AfterCall");
    reveal_strlit("BestPractice");
    reveal_strlit("text");
    reveal_strlit("type");
    assert("synopsis"@.len() == 8 && "errCodes"@.len() == 8);
    assert("arguments"@.len() == 9 && "appliesTo"@.len() == 9);
    assert("usage"@.len() == 5 && "description"@.len() == 11 && "cop"@.len() == 3);
    assert("BeforeCall"@.len() == 10 && "AfterCall"@.len() == 9 && "BestPractice"@.len() == 12);
    assert("synopsis"@[0] != "errCodes"@[0]);
    assert("arguments"@[1] != "appliesTo"@[1]);
    assert("text"@[1] != "type"@[1]);
}

/// What stands under `other` after the five plain fields were flattened.
pub proof fn lemma_member_after_fields(doc: JsonValue, target: Seq<char>, other: Seq<char>)
    ensures
        with_fields_flattened(doc, target).member(other) == if other == "synopsis"@ || other
            == "arguments"@ || other == "appliesTo"@ || other == "errCodes"@ || other == "usage"@ {
            match doc.member(other) {
                Some(value) => Some(flattened_value(value, target)),
                None => None,
            }
        } else {
            doc.member(other)
        },
{
    lemma_field_names_differ();
    let a = with_field_flattened(doc, "synopsis"@, target);
    let b = with_field_flattened(a, "arguments"@, target);
    let c = with_field_flattened(b, "appliesTo"@, target);
    let d = with_field_flattened(c, "errCodes"@, target);
    lemma_member_after_flattening(doc, "synopsis"@, target, other);
    lemma_member_after_flattening(a, "arguments"@, target, other);
    lemma_member_after_flattening(b, "appliesTo"@, target, other);
    lemma_member_after_flattening(c, "errCodes"@, target, other);
    lemma_member_after_flattening(d, "usage"@, target, other);
}

/// What stands under `other` after the three sections of the conditions of
/// use were flattened.
pub proof fn lemma_member_after_sections(cop: JsonValue, target: Seq<char>, other: Seq<char>)
    ensures
        conditions_flattened(cop, target).member(other) == if other == "BeforeCall"@ || other
            == "AfterCall"@ || other == "BestPractice"@ {
            match cop.member(other) {
                Some(value) => Some(flattened_value(value, target)),
                None => None,
            }
        } else {
            cop.member(other)
        },
{
    lemma_field_names_differ();
    let a = with_field_flattened(cop, "BeforeCall"@, target);
    let b = with_field_flattened(a, "AfterCall"@, target);
    lemma_member_after_flattening(cop, "BeforeCall"@, target, other);
    lemma_member_after_flattening(a, "AfterCall"@, target, other);
    lemma_member_after_flattening(b, "BestPractice"@, target, other);
}

/// Flattening the sections of conditions of use that nest no variants a
/// second time changes nothing.
pub proof fn lemma_sections_settle(cop: JsonValue, target: Seq<char>)
    requires
        field_settles(cop, "BeforeCall"@, target),
        field_settles(cop, "AfterCall"@, target),
        field_settles(cop, "BestPractice"@, target),
    ensures
        conditions_flattened(conditions_flattened(cop, target), target) == conditions_flattened(
            cop,
            target,
        ),
{
    let flat = conditions_flattened(cop, target);
    lemma_member_after_sections(cop, target, "BeforeCall"@);
    lemma_member_after_sections(cop, target, "AfterCall"@);
    lemma_member_after_sections(cop, target, "BestPractice"@);
    if cop.member("BeforeCall"@) is Some {
        lemma_flatten_settles(cop.member("BeforeCall"@)->0, target);
    }
    if cop.member("AfterCall"@) is Some {
        lemma_flatten_settles(cop.member("AfterCall"@)->0, target);
    }
    if cop.member("BestPractice"@) is Some {
        lemma_flatten_settles(cop.member("BestPractice"@)->0, target);
    }
    lemma_flattening_settled_field(flat, "BeforeCall"@, target);
    lemma_flattening_settled_field(flat, "AfterCall"@, target);
    lemma_flattening_settled_field(flat, "BestPractice"@, target);
}

/// A paragraph block that holds a trimmed text stands for itself.
pub proof fn lemma_paragraph_block_merges_to_itself(text: Seq<char>, target: Seq<char>)
    requires
        is_trimmed(text),
    ensures
        merged_block(seq![paragraph_block(text)], target) == paragraph_block(text),
{
    lemma_field_names_differ();
    reveal_strlit("\n");
    let block = paragraph_block(text);
    let entries = block->Object_0;
    assert(entries.drop_first()[0].key == "type"@);
    assert(key_index(entries.drop_first(), "type"@) == Some(0int));
    assert(key_index(entries, "type"@) == Some(1int));
    assert(key_index(entries, "text"@) == Some(0int));
    assert(block.member("type"@) == Some(JsonValue::Text("PP"@)));
    assert(block.member("text"@) == Some(JsonValue::Text(text)));
    lemma_key_index(entries, target);
    assert(!(block.member(target) matches Some(JsonValue::Array(_))));
    assert(paragraph_block_text(block, target) == "\n"@ + text + "\n"@);
    reveal_strlit("PP");
    reveal_strlit("BL");
    assert("PP"@[0] != "BL"@[0]);
    assert(block_text(block, target) == "\n"@ + text + "\n"@);
    let blocks = seq![block];
    assert(blocks.drop_last() =~= Seq::<JsonValue>::empty());
    assert(blocks_text(blocks.drop_last(), target) =~= Seq::<char>::empty());
    assert(blocks_text(blocks, target) =~= "\n"@ + text + "\n"@);
    assert("\n"@ =~= seq!['\n']);
    lemma_trim_padded('\n', text, '\n');
}

/// Merging the long form of a description a second time changes nothing.
pub proof fn lemma_long_settles(description: JsonValue, target: Seq<char>)
    ensures
        with_long_merged(with_long_merged(description, target), target) == with_long_merged(
            description,
            target,
        ),
{
    match description.member("long"@) {
        Some(JsonValue::Array(blocks)) => {
            let text = trimmed(blocks_text(blocks, target));
            let merged = with_long_merged(description, target);
            let list = JsonValue::Array(seq![merged_block(blocks, target)]);
            lemma_trimmed_is_trimmed(blocks_text(blocks, target));
            lemma_paragraph_block_merges_to_itself(text, target);
            lemma_member_after_replacing(description, "long"@, list, "long"@);
            assert(merged.member("long"@) == Some(list));
            lemma_replacing_by_itself(merged, "long"@);
        },
        _ => {},
    }
}

/// What stands under `other` once a description was brought into the shape
/// of the platform `target`.
pub proof fn lemma_member_after_normalizing(doc: JsonValue, target: Seq<char>, other: Seq<char>)
    ensures
        normalized_for(doc, target).member(other) == match doc.member(other) {
            Some(value) => Some(
                if other == "synopsis"@ || other == "arguments"@ || other == "appliesTo"@ || other
                    == "errCodes"@ || other == "usage"@ {
                    flattened_value(value, target)
                } else if other == "description"@ {
                    with_long_merged(value, target)
                } else if other == "cop"@ {
                    conditions_flattened(value, target)
                } else {
                    value
                },
            ),
            None => None,
        },
{
    lemma_field_names_differ();
    let fields = with_fields_flattened(doc, target);
    let merged = with_description_merged(fields, target);
    lemma_member_after_fields(doc, target, other);
    lemma_member_after_fields(doc, target, "description"@);
    match fields.member("description"@) {
        Some(description) => {
            lemma_member_after_replacing(
                fields,
                "description"@,
                with_long_merged(description, target),
                other,
            );
            lemma_member_after_replacing(
                fields,
                "description"@,
                with_long_merged(description, target),
                "cop"@,
            );
        },
        None => {},
    }
    lemma_member_after_fields(doc, target, "cop"@);
    match merged.member("cop"@) {
        Some(cop) => {
            lemma_member_after_replacing(merged, "cop"@, conditions_flattened(cop, target), other);
        },
        None => {},
    }
}

/// Bringing a description into the shape of a platform a second time
/// changes nothing, where no flattened field nests variants: where no
/// variant for that platform is a list of variants again.
pub proof fn lemma_normalizing_twice(doc: JsonValue, target: Seq<char>)
    requires
        free_of_nested_variants(doc, target),
    ensures
        normalized_for(normalized_for(doc, target), target) == normalized_for(doc, target),
{
    let once = normalized_for(doc, target);
    lemma_field_names_differ();
    lemma_member_after_normalizing(doc, target, "synopsis"@);
    lemma_member_after_normalizing(doc, target, "arguments"@);
    lemma_member_after_normalizing(doc, target, "appliesTo"@);
    lemma_member_after_normalizing(doc, target, "errCodes"@);
    lemma_member_after_normalizing(doc, target, "usage"@);
    lemma_member_after_normalizing(doc, target, "description"@);
    lemma_member_after_normalizing(doc, target, "cop"@);
    if doc.member("synopsis"@) is Some {
        lemma_flatten_settles(doc.member("synopsis"@)->0, target);
    }
    if doc.member("arguments"@) is Some {
        lemma_flatten_settles(doc.member("arguments"@)->0, target);
    }
    if doc.member("appliesTo"@) is Some {
        lemma_flatten_settles(doc.member("appliesTo"@)->0, target);
    }
    if doc.member("errCodes"@) is Some {
        lemma_flatten_settles(doc.member("errCodes"@)->0, target);
    }
    if doc.member("usage"@) is Some {
        lemma_flatten_settles(doc.member("usage"@)->0, target);
    }
    lemma_flattening_settled_field(once, "synopsis"@, target);
    lemma_flattening_settled_field(once, "arguments"@, target);
    lemma_flattening_settled_field(once, "appliesTo"@, target);
    lemma_flattening_settled_field(once, "errCodes"@, target);
    lemma_flattening_settled_field(once, "usage"@, target);
    assert(with_fields_flattened(once, target) == once);
    if doc.member("description"@) is Some {
        lemma_long_settles(doc.member("description"@)->0, target);
    }
    lemma_replacing_by_itself(once, "description"@);
    assert(with_description_merged(once, target) == once);
    if doc.member("cop"@) is Some {
        lemma_sections_settle(doc.member("cop"@)->0, target);
    }
    lemma_replacing_by_itself(once, "cop"@);
    assert(with_conditions_flattened(once, target) == once);
}

/// Normalization is idempotent: a description that was normalized stays as
/// it is when it is normalized again, where none of its flattened fields
/// nests variants.
pub proof fn lemma_normalization_idempotent(doc: JsonValue)
    requires
        free_of_nested_variants(doc, primary_tag()),
    ensures
        normalized(normalized(doc)) == normalized(doc),
{
    lemma_normalizing_twice(doc, primary_tag());
}

/// The members of an ordered document are ordered.
pub proof fn lemma_member_ordered(doc: JsonValue, key: Seq<char>)
    requires
        doc.ordered(),
    ensures
        doc.member(key) matches Some(value) ==> value.ordered(),
{
    match doc {
        JsonValue::Object(entries) => {
            lemma_key_index(entries, key);
        },
        _ => {},
    }
}

/// An ordered document stays ordered when an ordered value takes the place
/// of one of its members.
pub proof fn lemma_replacing_keeps_order(doc: JsonValue, key: Seq<char>, value: JsonValue)
    requires
        doc.ordered(),
        value.ordered(),
    ensures
        doc.with_member(key, value).ordered(),
{
    match doc {
        JsonValue::Object(entries) => {
            lemma_key_index(entries, key);
            match key_index(entries, key) {
                Some(i) => {
                    let changed = entries.update(i, MemberValue { key, value });
                    assert forall|j: int| 0 < j < changed.len() implies text_lt(
                        changed[j - 1].key,
                        #[trigger] changed[j].key,
                    ) by {
                        assert(changed[j].key == entries[j].key);
                        assert(changed[j - 1].key == entries[j - 1].key);
                    }
                    assert forall|j: int| 0 <= j < changed.len() implies (
                    #[trigger] changed[j]).value.ordered() by {
                        if j != i {
                            assert(changed[j] == entries[j]);
                        }
                    }
                },
                None => {},
            }
        },
        _ => {},
    }
}

/// Flattening keeps a value ordered.
pub proof fn lemma_flattening_keeps_order(value: JsonValue, target: Seq<char>)
    requires
        value.ordered(),
    ensures
        flattened_value(value, target).ordered(),
{
    match value {
        JsonValue::Array(items) => {
            if items.len() > 0 {
                assert(items[0].ordered());
                lemma_member_ordered(items[0], target);
                match items[0].member(target) {
                    Some(JsonValue::Array(variant)) => {},
                    Some(JsonValue::Text(t)) => {
                        let one = seq![JsonValue::Text(t)];
                        assert forall|i: int| 0 <= i < one.len() implies (#[trigger] one[i]).ordered() by {
                        }
                    },
                    _ => {},
                }
            }
        },
        _ => {},
    }
}

/// Flattening a field keeps a document ordered.
pub proof fn lemma_field_flattening_keeps_order(doc: JsonValue, key: Seq<char>, target: Seq<char>)
    requires
        doc.ordered(),
    ensures
        with_field_flattened(doc, key, target).ordered(),
{
    lemma_member_ordered(doc, key);
    match doc.member(key) {
        Some(value) => {
            lemma_flattening_keeps_order(value, target);
            lemma_replacing_keeps_order(doc, key, flattened_value(value, target));
        },
        None => {},
    }
}

/// A paragraph block is ordered.
pub proof fn lemma_paragraph_block_ordered(text: Seq<char>)
    ensures
        paragraph_block(text).ordered(),
{
    reveal_strlit("text");
    reveal_strlit("type");
    let entries = paragraph_block(text)->Object_0;
    assert("text"@.drop_first()[0] == 'e');
    assert("type"@.drop_first()[0] == 'y');
    assert(text_lt("text"@.drop_first(), "type"@.drop_first()));
    assert(text_lt("text"@, "type"@));
    assert forall|j: int| 0 < j < entries.len() implies text_lt(
        entries[j - 1].key,
        #[trigger] entries[j].key,
    ) by {
        assert(j == 1);
    }
    assert(keys_increase(entries));
    assert forall|j: int| 0 <= j < entries.len() implies (#[trigger] entries[j]).value.ordered() by {
    }
}

/// Bringing an ordered document into the shape of a platform keeps it
/// ordered, so that it can be printed.
pub proof fn lemma_normalizing_keeps_order(doc: JsonValue, target: Seq<char>)
    requires
        doc.ordered(),
    ensures
        normalized_for(doc, target).ordered(),
{
    let a = with_field_flattened(doc, "synopsis"@, target);
    let b = with_field_flattened(a, "arguments"@, target);
    let c = with_field_flattened(b, "appliesTo"@, target);
    let d = with_field_flattened(c, "errCodes"@, target);
    let fields = with_field_flattened(d, "usage"@, target);
    lemma_field_flattening_keeps_order(doc, "synopsis"@, target);
    lemma_field_flattening_keeps_order(a, "arguments"@, target);
    lemma_field_flattening_keeps_order(b, "appliesTo"@, target);
    lemma_field_flattening_keeps_order(c, "errCodes"@, target);
    lemma_field_flattening_keeps_order(d, "usage"@, target);
    assert(fields == with_fields_flattened(doc, target));
    let merged = with_description_merged(fields, target);
    lemma_member_ordered(fields, "description"@);
    match fields.member("description"@) {
        Some(description) => {
            lemma_member_ordered(description, "long"@);
            match description.member("long"@) {
                Some(JsonValue::Array(blocks)) => {
                    let block = merged_block(blocks, target);
                    lemma_paragraph_block_ordered(trimmed(blocks_text(blocks, target)));
                    let list = seq![block];
                    assert forall|i: int| 0 <= i < list.len() implies (#[trigger] list[i]).ordered() by {
                    }
                    lemma_replacing_keeps_order(description, "long"@, JsonValue::Array(list));
                },
                _ => {},
            }
            lemma_replacing_keeps_order(
                fields,
                "description"@,
                with_long_merged(description, target),
            );
        },
        None => {},
    }
    lemma_member_ordered(merged, "cop"@);
    match merged.member("cop"@) {
        Some(cop) => {
            let x = with_field_flattened(cop, "BeforeCall"@, target);
            let y = with_field_flattened(x, "AfterCall"@, target);
            lemma_field_flattening_keeps_order(cop, "BeforeCall"@, target);
            lemma_field_flattening_keeps_order(x, "AfterCall"@, target);
            lemma_field_flattening_keeps_order(y, "BestPractice"@, target);
            lemma_replacing_keeps_order(merged, "cop"@, conditions_flattened(cop, target));
        },
        None => {},
    }
}

} // verus!
