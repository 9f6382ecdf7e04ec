//! The description of an API function, and the documentation comments that
//! are written for it.

use crate::documentation_generator::schema::{decoded, schema_message, SchemaError};
use crate::documentation_generator::signature::{
    convert_c_func_to_rust, converted, is_signature,
};
use crate::documentation_generator::transform_input::{normalize, normalized};
use crate::json::{parsed_json, Json, JsonValue};
use crate::pattern::{regex_replaced, replace_all};
use crate::split::{pieces, replace_char, split, with_char_replaced};
use crate::text::{chars_of, rows, string_of, texts, Delimiter};
use vstd::prelude::*;

verus! {

/// The key and the display form of a name.
#[derive(Debug, PartialEq)]
pub struct Name {
    pub key: String,
    pub display: String,
}

/// One argument of a function: its name and what is said of it.
#[derive(Debug, PartialEq)]
pub struct Argument {
    pub name: String,
    pub description: String,
}

/// One block of a long description.
#[derive(Debug, PartialEq)]
pub struct Paragraph {
    pub kind: String,
    pub text: String,
}

/// The short and the long form of a description.
#[derive(Debug, PartialEq)]
pub struct Description {
    pub short: String,
    pub long: Vec<Paragraph>,
}

/// A reference to another function.
#[derive(Debug, PartialEq)]
pub struct SeeAlso {
    pub key: String,
    pub display: String,
}

/// The conditions under which a function is to be used.
#[derive(Debug, PartialEq)]
pub struct Cop {
    pub before_call: Vec<String>,
    pub after_call: Vec<String>,
    pub best_practice: Vec<String>,
}

/// Represents the complete description of an API, including its name,
/// arguments, return values, and associated metadata.
#[derive(Debug, PartialEq)]
pub struct ApiDescription {
    pub name: Option<Name>,
    pub synopsis: Option<Vec<String>>,
    pub arguments: Option<Vec<Argument>>,
    pub ret_values: Option<Vec<String>>,
    pub err_codes: Option<Vec<String>>,
    pub applies_to: Vec<String>,
    pub description: Description,
    pub see_also: Option<Vec<SeeAlso>>,
    pub usage: Option<Vec<String>>,
    pub cop: Option<Cop>,
}

/// The mathematical value of a `Name` or a `SeeAlso`.
pub struct NameView {
    pub key: Seq<char>,
    pub display: Seq<char>,
}

/// The mathematical value of an `Argument`.
pub struct ArgumentView {
    pub name: Seq<char>,
    pub description: Seq<char>,
}

/// The mathematical value of a `Paragraph`.
pub struct ParagraphView {
    pub kind: Seq<char>,
    pub text: Seq<char>,
}

/// The mathematical value of a `Cop`.
pub struct CopView {
    pub before_call: Seq<Seq<char>>,
    pub after_call: Seq<Seq<char>>,
    pub best_practice: Seq<Seq<char>>,
}

/// The mathematical value of an `ApiDescription`.
pub struct ApiDescriptionView {
    pub name: Option<NameView>,
    pub synopsis: Option<Seq<Seq<char>>>,
    pub arguments: Option<Seq<ArgumentView>>,
    pub ret_values: Option<Seq<Seq<char>>>,
    pub err_codes: Option<Seq<Seq<char>>>,
    pub applies_to: Seq<Seq<char>>,
    pub short: Seq<char>,
    pub long: Seq<ParagraphView>,
    pub see_also: Option<Seq<NameView>>,
    pub usage: Option<Seq<Seq<char>>>,
    pub cop: Option<CopView>,
}

impl View for Name {
    type V = NameView;

    open spec fn view(&self) -> NameView {
        NameView { key: self.key@, display: self.display@ }
    }
}

impl View for SeeAlso {
    type V = NameView;

    open spec fn view(&self) -> NameView {
        NameView { key: self.key@, display: self.display@ }
    }
}

impl View for Argument {
    type V = ArgumentView;

    open spec fn view(&self) -> ArgumentView {
        ArgumentView { name: self.name@, description: self.description@ }
    }
}

impl View for Paragraph {
    type V = ParagraphView;

    open spec fn view(&self) -> ParagraphView {
        ParagraphView { kind: self.kind@, text: self.text@ }
    }
}

impl View for Cop {
    type V = CopView;

    open spec fn view(&self) -> CopView {
        CopView {
            before_call: texts(self.before_call@),
            after_call: texts(self.after_call@),
            best_practice: texts(self.best_practice@),
        }
    }
}

/// The values of a list of arguments.
pub open spec fn argument_views(list: Seq<Argument>) -> Seq<ArgumentView> {
    list.map_values(|a: Argument| a@)
}

/// The values of a list of blocks.
pub open spec fn paragraph_views(list: Seq<Paragraph>) -> Seq<ParagraphView> {
    list.map_values(|p: Paragraph| p@)
}

/// The values of a list of references.
pub open spec fn see_also_views(list: Seq<SeeAlso>) -> Seq<NameView> {
    list.map_values(|s: SeeAlso| s@)
}

/// The texts of a list of strings that may be absent.
pub open spec fn optional_texts(list: Option<Vec<String>>) -> Option<Seq<Seq<char>>> {
    match list {
        Some(items) => Some(texts(items@)),
        None => None,
    }
}

impl View for ApiDescription {
    type V = ApiDescriptionView;

    open spec fn view(&self) -> ApiDescriptionView {
        ApiDescriptionView {
            name: match self.name {
                Some(name) => Some(name@),
                None => None,
            },
            synopsis: optional_texts(self.synopsis),
            arguments: match self.arguments {
                Some(list) => Some(argument_views(list@)),
                None => None,
            },
            ret_values: optional_texts(self.ret_values),
            err_codes: optional_texts(self.err_codes),
            applies_to: texts(self.applies_to@),
            short: self.description.short@,
            long: paragraph_views(self.description.long@),
            see_also: match self.see_also {
                Some(list) => Some(see_also_views(list@)),
                None => None,
            },
            usage: optional_texts(self.usage),
            cop: match self.cop {
                Some(cop) => Some(cop@),
                None => None,
            },
        }
    }
}

/// Specifies the formatting type for documentation sections.
#[derive(Clone, Copy, Debug)]
pub enum FormatType {
    /// Each item is a C signature, written as a Rust signature.
    Normal,
    /// Each item is a bullet; `literal` asks to mark names in capitals.
    List { literal: bool },
    /// The items are the lines of a code sample.
    Code,
}

/// The pattern that finds names in capitals: runs of capital letters and
/// underscores between word boundaries.
pub open spec fn capitals_pattern() -> Seq<char> {
    "\\b[A-Z_]+\\b"@
}

/// `text` with each name in capitals between backticks, as the pattern and
/// the replacement say. Where the pattern cannot be used, the text stays as
/// it is.
pub open spec fn literal_marked(text: Seq<char>) -> Seq<char> {
    match regex_replaced(capitals_pattern(), text, "`$0`"@) {
        Some(marked) => marked,
        None => text,
    }
}

/// Encapsulates sequences of capital letters with backticks for markdown
/// formatting.
pub fn make_literal(input: &str) -> (out: String)
    ensures
        out@ == literal_marked(input@),
{
    match replace_all("\\b[A-Z_]+\\b", input, "`$0`") {
        Some(marked) => marked,
        None => input.to_owned(),
    }
}

/// A line as it is written into a comment: a line that starts or ends with
/// a line break stays as it is, in any other line each line break becomes a
/// space.
pub open spec fn unfolded(line: Seq<char>) -> Seq<char> {
    if line.len() > 0 && (line[0] == '\n' || line.last() == '\n') {
        line
    } else {
        with_char_replaced(line, '\n', ' ')
    }
}

/// Replaces the line breaks inside `line` by spaces, unless the line starts
/// or ends with one.
pub fn remove_new_lines(line: &str) -> (out: String)
    ensures
        out@ == unfolded(line@),
{
    let chars = chars_of(line);
    let n = chars.len();
    if n > 0 && (chars[0] == '\n' || chars[n - 1] == '\n') {
        line.to_owned()
    } else {
        string_of(&replace_char(&chars, '\n', ' '))
    }
}

/// The lines that hold `items`, each behind `prefix` and closed by a line
/// break.
pub open spec fn prefixed_lines(prefix: Seq<char>, items: Seq<Seq<char>>) -> Seq<char>
    decreases items.len(),
{
    if items.len() == 0 {
        Seq::<char>::empty()
    } else {
        prefixed_lines(prefix, items.drop_last()) + prefix + items.last() + "\n"@
    }
}

/// Appends one line for each of `items` to `out`.
pub fn push_lines(out: &mut String, prefix: &str, items: &Vec<String>)
    ensures
        final(out)@ == old(out)@ + prefixed_lines(prefix@, texts(items@)),
{
    let ghost all = texts(items@);
    assert(all.take(0) =~= Seq::<Seq<char>>::empty());
    assert(old(out)@ + Seq::<char>::empty() =~= old(out)@);
    for i in 0..items.len()
        invariant
            all == texts(items@),
            out@ == old(out)@ + prefixed_lines(prefix@, all.take(i as int)),
    {
        assert(all.take(i + 1).drop_last() =~= all.take(i as int));
        assert(all.take(i + 1).last() == items@[i as int]@);
        out.append(prefix);
        out.append(items[i].as_str());
        out.append("\n");
        assert(out@ =~= old(out)@ + (prefixed_lines(prefix@, all.take(i as int)) + prefix@
            + items@[i as int]@ + "\n"@));
    }
    assert(all.take(items.len() as int) =~= all);
}

/// The items of a section as they are written, by its format.
pub open spec fn section_items(items: Seq<Seq<char>>, format_type: FormatType) -> Seq<Seq<char>> {
    match format_type {
        FormatType::Normal => items.map_values(|item: Seq<char>| converted(item)),
        FormatType::List { literal } => if literal {
            items.map_values(|item: Seq<char>| literal_marked(item))
        } else {
            items
        },
        FormatType::Code => items.map_values(|item: Seq<char>| with_char_replaced(item, '\t', ' ')),
    }
}

/// The text of a section: an empty comment line, the title, and the items
/// in the section's format. Signatures stand one to a line, a list has a
/// bullet to a line, and a code sample stands between two fences.
pub open spec fn section_text(
    title: Seq<char>,
    items: Seq<Seq<char>>,
    format_type: FormatType,
) -> Seq<char> {
    let written = section_items(items, format_type);
    "///\n"@ + "/// ### "@ + title + "\n"@ + match format_type {
        FormatType::Normal => prefixed_lines("/// "@, written),
        FormatType::List { literal } => prefixed_lines("/// * "@, written),
        FormatType::Code => "/// ```c\n"@ + prefixed_lines("/// "@, written) + "/// ```\n"@,
    }
}

/// Whether every text in `items` holds a return type and a name.
pub open spec fn all_signatures(items: Seq<Seq<char>>) -> bool {
    forall|i: int| 0 <= i < items.len() ==> is_signature(#[trigger] items[i])
}

fn converted_items(items: &Vec<String>) -> (out: Vec<String>)
    requires
        all_signatures(texts(items@)),
    ensures
        texts(out@) == texts(items@).map_values(|item: Seq<char>| converted(item)),
{
    let mut out: Vec<String> = Vec::new();
    for i in 0..items.len()
        invariant
            all_signatures(texts(items@)),
            out@.len() == i,
            forall|k: int| 0 <= k < i ==> (#[trigger] out@[k])@ == converted(items@[k]@),
    {
        assert(texts(items@)[i as int] == items@[i as int]@);
        out.push(convert_c_func_to_rust(items[i].as_str()));
    }
    assert(texts(out@) =~= texts(items@).map_values(|item: Seq<char>| converted(item)));
    out
}

fn literal_items(items: &Vec<String>) -> (out: Vec<String>)
    ensures
        texts(out@) == texts(items@).map_values(|item: Seq<char>| literal_marked(item)),
{
    let mut out: Vec<String> = Vec::new();
    for i in 0..items.len()
        invariant
            out@.len() == i,
            forall|k: int| 0 <= k < i ==> (#[trigger] out@[k])@ == literal_marked(items@[k]@),
    {
        out.push(make_literal(items[i].as_str()));
    }
    assert(texts(out@) =~= texts(items@).map_values(|item: Seq<char>| literal_marked(item)));
    out
}

fn code_items(items: &Vec<String>) -> (out: Vec<String>)
    ensures
        texts(out@) == texts(items@).map_values(
            |item: Seq<char>| with_char_replaced(item, '\t', ' '),
        ),
{
    let mut out: Vec<String> = Vec::new();
    for i in 0..items.len()
        invariant
            out@.len() == i,
            forall|k: int|
                0 <= k < i ==> (#[trigger] out@[k])@ == with_char_replaced(
                    items@[k]@,
                    '\t',
                    ' ',
                ),
    {
        out.push(string_of(&replace_char(&chars_of(items[i].as_str()), '\t', ' ')));
    }
    assert(texts(out@) =~= texts(items@).map_values(
        |item: Seq<char>| with_char_replaced(item, '\t', ' '),
    ));
    out
}

fn unfolded_items(items: &Vec<String>) -> (out: Vec<String>)
    ensures
        texts(out@) == texts(items@).map_values(|item: Seq<char>| unfolded(item)),
{
    let mut out: Vec<String> = Vec::new();
    for i in 0..items.len()
        invariant
            out@.len() == i,
            forall|k: int| 0 <= k < i ==> (#[trigger] out@[k])@ == unfolded(items@[k]@),
    {
        out.push(remove_new_lines(items[i].as_str()));
    }
    assert(texts(out@) =~= texts(items@).map_values(|item: Seq<char>| unfolded(item)));
    out
}

/// Writes a documentation section with a given title and items list,
/// formatted according to `format_type`.
pub fn write_section(out: &mut String, title: &str, items: &Vec<String>, format_type: FormatType)
    requires
        format_type is Normal ==> all_signatures(texts(items@)),
    ensures
        final(out)@ == old(out)@ + section_text(title@, texts(items@), format_type),
{
    let ghost before = out@;
    out.append("///\n");
    out.append("/// ### ");
    out.append(title);
    out.append("\n");
    let ghost head = out@;
    assert(head =~= before + ("///\n"@ + "/// ### "@ + title@ + "\n"@));
    match format_type {
        FormatType::Normal => {
            let written = converted_items(items);
            push_lines(out, "/// ", &written);
        },
        FormatType::List { literal } => {
            if literal {
                let written = literal_items(items);
                push_lines(out, "/// * ", &written);
            } else {
                push_lines(out, "/// * ", items);
            }
        },
        FormatType::Code => {
            let written = code_items(items);
            out.append("/// ```c\n");
            push_lines(out, "/// ", &written);
            out.append("/// ```\n");
        },
    }
    assert(out@ =~= before + section_text(title@, texts(items@), format_type));
}

/// One comment line that holds `text`.
pub open spec fn comment_line(text: Seq<char>) -> Seq<char> {
    "/// "@ + text + "\n"@
}

/// Each of `lines` as it is written into a comment.
pub open spec fn all_unfolded(lines: Seq<Seq<char>>) -> Seq<Seq<char>> {
    lines.map_values(|line: Seq<char>| unfolded(line))
}

/// The text of one block of a long description: an empty comment line, and
/// a comment line for each line of the block's text.
pub open spec fn paragraph_text(paragraph: ParagraphView) -> Seq<char> {
    "///\n"@ + prefixed_lines(
        "/// "@,
        all_unfolded(pieces(paragraph.text, Delimiter::Char('\n'))),
    )
}

/// The text of a long description: its blocks in order.
pub open spec fn long_text(paragraphs: Seq<ParagraphView>) -> Seq<char>
    decreases paragraphs.len(),
{
    if paragraphs.len() == 0 {
        Seq::<char>::empty()
    } else {
        long_text(paragraphs.drop_last()) + paragraph_text(paragraphs.last())
    }
}

/// The text of a section whose items may be absent: nothing where there
/// are no items.
pub open spec fn optional_section(
    title: Seq<char>,
    list: Option<Seq<Seq<char>>>,
    format_type: FormatType,
) -> Seq<char> {
    match list {
        Some(items) => if items.len() > 0 {
            section_text(title, items, format_type)
        } else {
            Seq::<char>::empty()
        },
        None => Seq::<char>::empty(),
    }
}

/// The bullet of one argument: its name between backticks, and what is said
/// of it.
pub open spec fn argument_item(argument: ArgumentView) -> Seq<char> {
    "`"@ + argument.name + "`: "@ + argument.description
}

/// The text of the section on arguments.
pub open spec fn arguments_text(arguments: Option<Seq<ArgumentView>>) -> Seq<char> {
    match arguments {
        Some(list) => if list.len() > 0 {
            "///\n"@ + "/// ### Arguments\n"@ + prefixed_lines(
                "/// * "@,
                list.map_values(|a: ArgumentView| argument_item(a)),
            )
        } else {
            Seq::<char>::empty()
        },
        None => Seq::<char>::empty(),
    }
}

/// The text of one part of the conditions of use: its title line and its
/// lines, or nothing where it has no lines.
pub open spec fn condition_lines(title_line: Seq<char>, lines: Seq<Seq<char>>) -> Seq<char> {
    if lines.len() > 0 {
        title_line + prefixed_lines("/// "@, all_unfolded(lines))
    } else {
        Seq::<char>::empty()
    }
}

/// The text of the section on conditions of use: nothing where all three
/// parts are empty.
pub open spec fn conditions_text(cop: Option<CopView>) -> Seq<char> {
    match cop {
        Some(c) => if c.before_call.len() > 0 || c.after_call.len() > 0 || c.best_practice.len()
            > 0 {
            "///\n"@ + "/// ### Conditions of Use\n"@ + condition_lines(
                "/// #### Before Call\n"@,
                c.before_call,
            ) + condition_lines("/// #### After Call\n"@, c.after_call) + condition_lines(
                "/// ### Best Practice\n"@,
                c.best_practice,
            )
        } else {
            Seq::<char>::empty()
        },
        None => Seq::<char>::empty(),
    }
}

/// The text of the section on related functions: one bullet for the display
/// form of each.
pub open spec fn see_also_text(see_also: Option<Seq<NameView>>) -> Seq<char> {
    match see_also {
        Some(list) => if list.len() > 0 {
            "///\n"@ + "/// ### See Also\n"@ + prefixed_lines(
                "/// * "@,
                list.map_values(|s: NameView| s.display),
            )
        } else {
            Seq::<char>::empty()
        },
        None => Seq::<char>::empty(),
    }
}

/// The text of the section on platforms.
pub open spec fn applies_to_text(applies_to: Seq<Seq<char>>) -> Seq<char> {
    if applies_to.len() > 0 {
        section_text("Applies To"@, applies_to, FormatType::List { literal: false })
    } else {
        Seq::<char>::empty()
    }
}

/// The documentation comments for a description: the short description,
/// the long description, and then each section that has anything to show,
/// always in the same order.
pub open spec fn rendered(d: ApiDescriptionView) -> Seq<char> {
    comment_line(d.short) + long_text(d.long) + applies_to_text(d.applies_to) + optional_section(
        "Synopsis"@,
        d.synopsis,
        FormatType::Normal,
    ) + arguments_text(d.arguments) + optional_section(
        "Return Values"@,
        d.ret_values,
        FormatType::List { literal: false },
    ) + optional_section("Error Codes"@, d.err_codes, FormatType::List { literal: true })
        + conditions_text(d.cop) + see_also_text(d.see_also) + optional_section(
        "Usage"@,
        d.usage,
        FormatType::Code,
    )
}

/// Whether comments can be written for a description: whether each entry of
/// its synopsis holds a return type and a name.
pub open spec fn renderable(d: ApiDescriptionView) -> bool {
    match d.synopsis {
        Some(list) => all_signatures(list),
        None => true,
    }
}

/// The comments for a description start with the line that holds its short
/// description, as it stands.
pub proof fn lemma_short_description_first(d: ApiDescriptionView)
    ensures
        comment_line(d.short).is_prefix_of(rendered(d)),
        comment_line(d.short) == "/// "@ + d.short + "\n"@,
{
    let first = comment_line(d.short);
    assert(rendered(d).subrange(0, first.len() as int) =~= first);
}

fn unfolded_rows(lines: &Vec<Vec<char>>) -> (out: Vec<String>)
    ensures
        texts(out@) == all_unfolded(rows(lines@)),
{
    let mut out: Vec<String> = Vec::new();
    for i in 0..lines.len()
        invariant
            out@.len() == i,
            forall|k: int| 0 <= k < i ==> (#[trigger] out@[k])@ == unfolded(lines@[k]@),
    {
        let line = string_of(&lines[i]);
        out.push(remove_new_lines(line.as_str()));
    }
    assert(texts(out@) =~= all_unfolded(rows(lines@)));
    out
}

fn push_long(out: &mut String, paragraphs: &Vec<Paragraph>)
    ensures
        final(out)@ == old(out)@ + long_text(paragraph_views(paragraphs@)),
{
    let ghost all = paragraph_views(paragraphs@);
    assert(all.take(0) =~= Seq::<ParagraphView>::empty());
    assert(old(out)@ + Seq::<char>::empty() =~= old(out)@);
    for i in 0..paragraphs.len()
        invariant
            all == paragraph_views(paragraphs@),
            out@ == old(out)@ + long_text(all.take(i as int)),
    {
        let ghost so_far = out@;
        assert(all.take(i + 1).drop_last() =~= all.take(i as int));
        assert(all.take(i + 1).last() == paragraphs@[i as int]@);
        out.append("///\n");
        let lines = split(&chars_of(paragraphs[i].text.as_str()), Delimiter::Char('\n'));
        let written = unfolded_rows(&lines);
        push_lines(out, "/// ", &written);
        assert(out@ =~= so_far + paragraph_text(paragraphs@[i as int]@));
        assert(out@ =~= old(out)@ + (long_text(all.take(i as int)) + paragraph_text(
            paragraphs@[i as int]@,
        )));
    }
    assert(all.take(paragraphs.len() as int) =~= all);
}

fn push_optional_section(
    out: &mut String,
    title: &str,
    list: &Option<Vec<String>>,
    format_type: FormatType,
)
    requires
        format_type is Normal ==> (list matches Some(items) ==> all_signatures(texts(items@))),
    ensures
        final(out)@ == old(out)@ + optional_section(title@, optional_texts(*list), format_type),
{
    assert(old(out)@ + Seq::<char>::empty() =~= old(out)@);
    match list {
        Some(items) => {
            if items.len() > 0 {
                write_section(out, title, items, format_type);
            }
        },
        None => {},
    }
}

fn push_arguments(out: &mut String, arguments: &Option<Vec<Argument>>)
    ensures
        final(out)@ == old(out)@ + arguments_text(
            match *arguments {
                Some(list) => Some(argument_views(list@)),
                None => None,
            },
        ),
{
    assert(old(out)@ + Seq::<char>::empty() =~= old(out)@);
    match arguments {
        Some(list) => {
            if list.len() > 0 {
                let ghost before = out@;
                let mut items: Vec<String> = Vec::new();
                for i in 0..list.len()
                    invariant
                        items@.len() == i,
                        forall|k: int|
                            0 <= k < i ==> (#[trigger] items@[k])@ == argument_item(list@[k]@),
                {
                    let mut item = String::new();
                    item.append("`");
                    item.append(list[i].name.as_str());
                    item.append("`: ");
                    item.append(list[i].description.as_str());
                    assert(item@ =~= argument_item(list@[i as int]@));
                    items.push(item);
                }
                assert(texts(items@) =~= argument_views(list@).map_values(
                    |a: ArgumentView| argument_item(a),
                ));
                out.append("///\n");
                out.append("/// ### Arguments\n");
                push_lines(out, "/// * ", &items);
                assert(out@ =~= before + ("///\n"@ + "/// ### Arguments\n"@ + prefixed_lines(
                    "/// * "@,
                    texts(items@),
                )));
            }
        },
        None => {},
    }
}

fn push_condition_lines(out: &mut String, title_line: &str, lines: &Vec<String>)
    ensures
        final(out)@ == old(out)@ + condition_lines(title_line@, texts(lines@)),
{
    assert(old(out)@ + Seq::<char>::empty() =~= old(out)@);
    if lines.len() > 0 {
        let ghost before = out@;
        out.append(title_line);
        let written = unfolded_items(lines);
        assert(texts(written@) =~= all_unfolded(texts(lines@)));
        push_lines(out, "/// ", &written);
        assert(out@ =~= before + (title_line@ + prefixed_lines("/// "@, texts(written@))));
    }
}

fn push_conditions(out: &mut String, cop: &Option<Cop>)
    ensures
        final(out)@ == old(out)@ + conditions_text(
            match *cop {
                Some(c) => Some(c@),
                None => None,
            },
        ),
{
    assert(old(out)@ + Seq::<char>::empty() =~= old(out)@);
    match cop {
        Some(c) => {
            if c.before_call.len() > 0 || c.after_call.len() > 0 || c.best_practice.len() > 0 {
                let ghost before = out@;
                out.append("///\n");
                out.append("/// ### Conditions of Use\n");
                push_condition_lines(out, "/// #### Before Call\n", &c.before_call);
                push_condition_lines(out, "/// #### After Call\n", &c.after_call);
                push_condition_lines(out, "/// ### Best Practice\n", &c.best_practice);
                assert(out@ =~= before + ("///\n"@ + "/// ### Conditions of Use\n"@
                    + condition_lines("/// #### Before Call\n"@, c@.before_call)
                    + condition_lines("/// #### After Call\n"@, c@.after_call) + condition_lines(
                    "/// ### Best Practice\n"@,
                    c@.best_practice,
                )));
            }
        },
        None => {},
    }
}

fn push_see_also(out: &mut String, see_also: &Option<Vec<SeeAlso>>)
    ensures
        final(out)@ == old(out)@ + see_also_text(
            match *see_also {
                Some(list) => Some(see_also_views(list@)),
                None => None,
            },
        ),
{
    assert(old(out)@ + Seq::<char>::empty() =~= old(out)@);
    match see_also {
        Some(list) => {
            if list.len() > 0 {
                let ghost before = out@;
                out.append("///\n");
                out.append("/// ### See Also\n");
                let ghost head = out@;
                let ghost all = see_also_views(list@).map_values(
                    |s: NameView| s.display,
                );
                assert(all.take(0) =~= Seq::<Seq<char>>::empty());
                assert(head + Seq::<char>::empty() =~= head);
                for i in 0..list.len()
                    invariant
                        all == see_also_views(list@).map_values(
                            |s: NameView| s.display,
                        ),
                        out@ == head + prefixed_lines("/// * "@, all.take(i as int)),
                {
                    assert(all.take(i + 1).drop_last() =~= all.take(i as int));
                    assert(all.take(i + 1).last() == list@[i as int].display@);
                    out.append("/// * ");
                    out.append(list[i].display.as_str());
                    out.append("\n");
                    assert(out@ =~= head + (prefixed_lines("/// * "@, all.take(i as int))
                        + "/// * "@ + list@[i as int].display@ + "\n"@));
                }
                assert(all.take(list.len() as int) =~= all);
                assert(out@ =~= before + ("///\n"@ + "/// ### See Also\n"@ + prefixed_lines(
                    "/// * "@,
                    all,
                )));
            }
        },
        None => {},
    }
}

impl ApiDescription {
    /// Tests whether each entry of the synopsis holds a return type and a
    /// name.
    pub fn is_renderable(&self) -> (r: bool)
        ensures
            r == renderable(self@),
    {
        match &self.synopsis {
            Some(list) => {
                for i in 0..list.len()
                    invariant
                        self.synopsis == Some(*list),
                        forall|k: int| 0 <= k < i ==> is_signature(#[trigger] texts(list@)[k]),
                {
                    if !crate::documentation_generator::signature::holds_signature(
                        list[i].as_str(),
                    ) {
                        assert(!is_signature(texts(list@)[i as int]));
                        assert(self@.synopsis == Some(texts(list@)));
                        return false;
                    }
                }
                true
            },
            None => true,
        }
    }

    /// Writes the documentation comments for this description.
    pub fn to_string(&self) -> (out: String)
        requires
            renderable(self@),
        ensures
            out@ == rendered(self@),
            comment_line(self@.short).is_prefix_of(out@),
    {
        let mut out = String::new();
        out.append("/// ");
        out.append(self.description.short.as_str());
        out.append("\n");
        assert(out@ =~= comment_line(self@.short));
        push_long(&mut out, &self.description.long);
        if self.applies_to.len() > 0 {
            write_section(
                &mut out,
                "Applies To",
                &self.applies_to,
                FormatType::List { literal: false },
            );
        }
        assert(out@ =~= comment_line(self@.short) + long_text(self@.long) + applies_to_text(
            self@.applies_to,
        ));
        push_optional_section(&mut out, "Synopsis", &self.synopsis, FormatType::Normal);
        push_arguments(&mut out, &self.arguments);
        push_optional_section(
            &mut out,
            "Return Values",
            &self.ret_values,
            FormatType::List { literal: false },
        );
        push_optional_section(
            &mut out,
            "Error Codes",
            &self.err_codes,
            FormatType::List { literal: true },
        );
        push_conditions(&mut out, &self.cop);
        push_see_also(&mut out, &self.see_also);
        push_optional_section(&mut out, "Usage", &self.usage, FormatType::Code);
        proof {
            lemma_short_description_first(self@);
        }
        out
    }
}

/// Why a text holds no description of an API function.
#[derive(Debug, PartialEq)]
pub enum DocError {
    /// The text is no JSON document. Holds the message of the parser.
    Syntax(String),
    /// The document is no description.
    Schema(SchemaError),
}

/// The mathematical value of a `DocError`.
pub enum DocFailure {
    Syntax(Seq<char>),
    Schema(SchemaError),
}

impl View for DocError {
    type V = DocFailure;

    open spec fn view(&self) -> DocFailure {
        match self {
            DocError::Syntax(message) => DocFailure::Syntax(message@),
            DocError::Schema(error) => DocFailure::Schema(*error),
        }
    }
}

/// The sentence that states why a text holds no description.
pub open spec fn failure_message(failure: DocFailure) -> Seq<char> {
    match failure {
        DocFailure::Syntax(message) => message,
        DocFailure::Schema(error) => schema_message(error),
    }
}

impl DocError {
    /// States the error in a sentence.
    pub fn message(&self) -> (out: String)
        ensures
            out@ == failure_message(self@),
    {
        match self {
            DocError::Syntax(message) => message.clone(),
            DocError::Schema(error) => error.message(),
        }
    }
}

/// What reading a text that was parsed gives: the description that the
/// document holds as it stands, or the reason for which there is none.
pub open spec fn description_of(
    outcome: Result<JsonValue, Seq<char>>,
) -> Result<ApiDescriptionView, DocFailure> {
    match outcome {
        Ok(doc) => match decoded(doc) {
            Ok(description) => Ok(description),
            Err(error) => Err(DocFailure::Schema(error)),
        },
        Err(message) => Err(DocFailure::Syntax(message)),
    }
}

impl ApiDescription {
    /// Reads a description from JSON text that is in the shape of one
    /// platform already.
    pub fn from_modified_string(json_string: &str) -> (r: Result<ApiDescription, DocError>)
        ensures
            match r {
                Ok(description) => description_of(parsed_json(json_string@)) == Ok::<
                    ApiDescriptionView,
                    DocFailure,
                >(description@) && renderable(description@),
                Err(error) => description_of(parsed_json(json_string@)) == Err::<
                    ApiDescriptionView,
                    DocFailure,
                >(error@),
            },
    {
        match Json::parse(json_string) {
            Ok(doc) => match ApiDescription::from_json(&doc) {
                Ok(description) => Ok(description),
                Err(error) => Err(DocError::Schema(error)),
            },
            Err(message) => Err(DocError::Syntax(message)),
        }
    }
}

/// The comments for the document `doc`: those of the description that it
/// holds once it is normalized, or one line that states why it holds none.
pub open spec fn comments_for(doc: JsonValue) -> Seq<char> {
    match decoded(normalized(doc)) {
        Ok(description) => rendered(description),
        Err(error) => "Failed to parse JSON: "@ + schema_message(error),
    }
}

/// The comments for a text that was parsed.
pub open spec fn generated_comments(outcome: Result<JsonValue, Seq<char>>) -> Seq<char> {
    match outcome {
        Ok(doc) => comments_for(doc),
        Err(message) => "Failed to parse JSON: "@ + message,
    }
}

/// Generates the documentation comments for the description in `doc`: the
/// document is brought into the shape of the primary platform, read as a
/// description and written out as comments. A document that holds no
/// description gives one line that says so.
pub fn comments_from_document(doc: Json) -> (out: String)
    ensures
        out@ == comments_for(doc@),
{
    let doc = normalize(doc);
    match ApiDescription::from_json(&doc) {
        Ok(description) => description.to_string(),
        Err(error) => {
            let mut out = String::new();
            out.append("Failed to parse JSON: ");
            out.append(error.message().as_str());
            out
        },
    }
}

/// Generates formatted documentation comments for a given API.
///
/// `json_text` is the JSON text that describes the API. It is parsed,
/// brought into the shape of the primary platform, read as a description
/// and written out as comments. If the text cannot be parsed or holds no
/// description, the result is one line that says so.
pub fn generate_comments(json_text: &str) -> (out: String)
    ensures
        out@ == generated_comments(parsed_json(json_text@)),
{
    match Json::parse(json_text) {
        Ok(doc) => comments_from_document(doc),
        Err(message) => {
            let mut out = String::new();
            out.append("Failed to parse JSON: ");
            out.append(message.as_str());
            out
        },
    }
}

} // verus!
