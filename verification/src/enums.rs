//! C# enums: how they are read from source text and written as TypeScript
//! string enums.

use crate::config::{Config, ConfigModel};
use crate::header::{
    file_header, generate_file_header, lemma_same_but_for_timestamp, same_but_for_timestamp,
};
use crate::patterns::{
    all_captures, captures_iter, documentation_in, find_documentation, first_group,
    first_group_of, group_or_default, group_or_empty, prefix, text_before, DISPLAY_PATTERN,
    ENUM_PATTERN,
};
use crate::text::{
    fields, final_word, join, joined, last_lines, last_reversed, last_word, lemma_append_associates,
    line_seq, split, trim, trimmed,
};
use vstd::prelude::*;
use vstd::string::*;

verus! {

/// One value of an enum.
#[derive(Debug)]
pub struct EnumValue {
    pub name: String,
    /// The name that a `Display` attribute gives the value.
    pub display_name: Option<String>,
    pub documentation: Option<String>,
}

/// The mathematical value of an `EnumValue`.
pub struct EnumValueModel {
    pub name: Seq<char>,
    pub display_name: Option<Seq<char>>,
    pub documentation: Option<Seq<char>>,
}

impl View for EnumValue {
    type V = EnumValueModel;

    open spec fn view(&self) -> EnumValueModel {
        EnumValueModel {
            name: self.name@,
            display_name: self.display_name.deep_view(),
            documentation: self.documentation.deep_view(),
        }
    }
}

impl DeepView for EnumValue {
    type V = EnumValueModel;

    open spec fn deep_view(&self) -> EnumValueModel {
        self.view()
    }
}

/// A C# enum: its name and its values in the order of the source.
#[derive(Debug)]
pub struct CSharpEnum {
    pub name: String,
    pub values: Vec<EnumValue>,
    pub documentation: Option<String>,
}

/// The mathematical value of a `CSharpEnum`.
pub struct EnumModel {
    pub name: Seq<char>,
    pub values: Seq<EnumValueModel>,
    pub documentation: Option<Seq<char>>,
}

impl View for CSharpEnum {
    type V = EnumModel;

    open spec fn view(&self) -> EnumModel {
        EnumModel {
            name: self.name@,
            values: self.values.deep_view(),
            documentation: self.documentation.deep_view(),
        }
    }
}

impl DeepView for CSharpEnum {
    type V = EnumModel;

    open spec fn deep_view(&self) -> EnumModel {
        self.view()
    }
}

/// The value that one item of an enum body declares. The item is trimmed
/// and not empty; its last word is the value's name.
pub open spec fn enum_value(item: Seq<char>) -> EnumValueModel {
    EnumValueModel {
        name: final_word(item),
        display_name: first_group(DISPLAY_PATTERN@, item, 1),
        documentation: documentation_in(item),
    }
}

/// The values that the pieces of an enum body declare: each piece is
/// trimmed, and a piece that is then empty declares nothing.
pub open spec fn enum_values(pieces: Seq<Seq<char>>) -> Seq<EnumValueModel>
    decreases pieces.len(),
{
    if pieces.len() == 0 {
        Seq::empty()
    } else {
        let earlier = enum_values(pieces.drop_last());
        let item = trimmed(pieces.last());
        if item.len() == 0 {
            earlier
        } else {
            earlier.push(enum_value(item))
        }
    }
}

/// The text in which the documentation of a declaration is looked for: the
/// last three lines of what stands before the declaration, the nearest
/// line first.
pub open spec fn documentation_window(before: Seq<char>) -> Seq<char> {
    joined(last_reversed(line_seq(before), 3), "\n"@)
}

/// The enum that one match of the enum pattern in `content` declares.
pub open spec fn enum_of(content: Seq<char>, found: (usize, Seq<Option<Seq<char>>>)) -> EnumModel {
    EnumModel {
        name: group_or_empty(found, 1),
        values: enum_values(fields(group_or_empty(found, 2), ',')),
        documentation: documentation_in(
            documentation_window(text_before(content, found.0 as int)),
        ),
    }
}

/// The enums that `content` declares, in the order of the text.
pub open spec fn parsed_enums(content: Seq<char>) -> Seq<EnumModel> {
    match all_captures(ENUM_PATTERN@, content) {
        Some(matches) => Seq::new(matches.len(), |i: int| enum_of(content, matches[i])),
        None => Seq::empty(),
    }
}

/// The comment block above an enum: one line for each line of the documentation.
pub open spec fn paragraph_lines(paragraphs: Seq<Seq<char>>) -> Seq<char>
    decreases paragraphs.len(),
{
    if paragraphs.len() == 0 {
        Seq::empty()
    } else {
        paragraph_lines(paragraphs.drop_last()) + (" * "@ + paragraphs.last() + "\n"@)
    }
}

/// The comment block above an enum, if the enum is documented.
pub open spec fn enum_comment(documentation: Option<Seq<char>>) -> Seq<char> {
    match documentation {
        Some(text) => "/**\n"@ + paragraph_lines(fields(text, '\n')) + " */\n"@,
        None => Seq::empty(),
    }
}

/// The lines of one enum value: its comment, if it is documented, and the
/// member that assigns it its display name, or its own name where it has none.
pub open spec fn value_lines(value: EnumValueModel) -> Seq<char> {
    let comment = match value.documentation {
        Some(text) => "  /** "@ + text + " */\n"@,
        None => Seq::empty(),
    };
    let shown = match value.display_name {
        Some(display) => display,
        None => value.name,
    };
    comment + ("  "@ + value.name + " = '"@ + shown + "',\n"@)
}

/// The lines of the values, in their order.
pub open spec fn all_value_lines(values: Seq<EnumValueModel>) -> Seq<char>
    decreases values.len(),
{
    if values.len() == 0 {
        Seq::empty()
    } else {
        all_value_lines(values.drop_last()) + value_lines(values.last())
    }
}

/// The TypeScript declaration of an enum.
pub open spec fn enum_declaration(e: EnumModel) -> Seq<char> {
    enum_comment(e.documentation) + ("export enum "@ + e.name + " {\n"@) + all_value_lines(e.values)
        + "}\n"@
}

/// The TypeScript file of an enum generated at `timestamp` under `config`.
pub open spec fn typescript_text(e: EnumModel, config: ConfigModel, timestamp: Seq<char>) -> Seq<
    char,
> {
    file_header(config, "Enum"@, timestamp) + enum_declaration(e)
}

/// The values of an enum body are read in the order of its pieces: the
/// values of pieces put together are those of the first part followed by
/// those of the second.
pub proof fn law_values_parse_in_order(front: Seq<Seq<char>>, back: Seq<Seq<char>>)
    ensures
        enum_values(front + back) == enum_values(front) + enum_values(back),
    decreases back.len(),
{
    if back.len() == 0 {
        assert(front + back =~= front);
        assert(enum_values(front) + Seq::<EnumValueModel>::empty() =~= enum_values(front));
    } else {
        law_values_parse_in_order(front, back.drop_last());
        assert((front + back).drop_last() =~= front + back.drop_last());
        assert((front + back).last() == back.last());
        let item = trimmed(back.last());
        if item.len() != 0 {
            assert((enum_values(front) + enum_values(back.drop_last())).push(enum_value(item))
                =~= enum_values(front) + enum_values(back.drop_last()).push(enum_value(item)));
        }
    }
}

/// The values of a list are written in the order of the list: the lines of
/// lists put together are the lines of the first followed by the lines of
/// the second.
pub proof fn law_values_render_in_order(front: Seq<EnumValueModel>, back: Seq<EnumValueModel>)
    ensures
        all_value_lines(front + back) == all_value_lines(front) + all_value_lines(back),
    decreases back.len(),
{
    if back.len() == 0 {
        assert(front + back =~= front);
        assert(all_value_lines(front) + Seq::<char>::empty() =~= all_value_lines(front));
    } else {
        law_values_render_in_order(front, back.drop_last());
        assert((front + back).drop_last() =~= front + back.drop_last());
        assert((front + back).last() == back.last());
        lemma_append_associates(
            all_value_lines(front),
            all_value_lines(back.drop_last()),
            value_lines(back.last()),
        );
    }
}

/// Rendering is determined by the enum, the configuration and the
/// timestamp: two renderings of one enum under one configuration are one
/// text but for the timestamps they were given, and with one timestamp
/// they are one text.
pub proof fn law_enum_rendering_is_determined(
    e: EnumModel,
    config: ConfigModel,
    first_time: Seq<char>,
    second_time: Seq<char>,
)
    ensures
        same_but_for_timestamp(
            typescript_text(e, config, first_time),
            first_time,
            typescript_text(e, config, second_time),
            second_time,
        ),
        first_time == second_time ==> typescript_text(e, config, first_time) == typescript_text(
            e,
            config,
            second_time,
        ),
{
    lemma_same_but_for_timestamp(config, "Enum"@, first_time, second_time, enum_declaration(e));
}

impl EnumValue {
    /// The value that `item` declares, given what the two patterns found in it.
    pub fn new(item: &str, display_name: Option<String>, documentation: Option<String>) -> (r:
        EnumValue)
        ensures
            r@ == (EnumValueModel {
                name: final_word(item@),
                display_name: display_name.deep_view(),
                documentation: documentation.deep_view(),
            }),
    {
        EnumValue { name: last_word(item), display_name, documentation }
    }

    /// The value that one item of an enum body declares.
    pub fn parse(item: &str) -> (r: EnumValue)
        ensures
            r@ == enum_value(item@),
    {
        let found = captures_iter(DISPLAY_PATTERN, item);
        let display_name = first_group_of(&found, 1);
        let documentation = find_documentation(item);
        EnumValue::new(item, display_name, documentation)
    }

    /// The lines of this value in a TypeScript enum.
    pub fn to_typescript(&self) -> (r: String)
        ensures
            r@ == value_lines(self@),
    {
        let mut comment = String::new();
        match &self.documentation {
            Some(text) => {
                comment = "  /** ".to_owned();
                comment.append(text.as_str());
                comment.append(" */\n");
            },
            None => {},
        }
        let mut member = "  ".to_owned();
        member.append(self.name.as_str());
        member.append(" = '");
        match &self.display_name {
            Some(display) => member.append(display.as_str()),
            None => member.append(self.name.as_str()),
        }
        member.append("',\n");
        comment.append(member.as_str());
        comment
    }
}

/// The values that the body of an enum declares.
pub fn parse_values(body: &str) -> (r: Vec<EnumValue>)
    ensures
        r.deep_view() == enum_values(fields(body@, ',')),
{
    let pieces = split(body, ',');
    let mut r: Vec<EnumValue> = Vec::new();
    let mut i: usize = 0;
    assert(pieces.deep_view().take(0) =~= Seq::<Seq<char>>::empty());
    assert(r.deep_view() =~= Seq::<EnumValueModel>::empty());
    while i < pieces.len()
        invariant
            i <= pieces.len(),
            r.deep_view() == enum_values(pieces.deep_view().take(i as int)),
        decreases pieces.len() - i,
    {
        let ghost before = r.deep_view();
        assert(pieces.deep_view().take(i + 1).drop_last() =~= pieces.deep_view().take(i as int));
        assert(pieces.deep_view().take(i + 1).last() == pieces@[i as int]@);
        let item = trim(pieces[i].as_str());
        if item.as_str().unicode_len() > 0 {
            let value = EnumValue::parse(item.as_str());
            r.push(value);
            assert(r.deep_view() =~= before.push(value@));
        }
        i += 1;
    }
    assert(pieces.deep_view().take(pieces.len() as int) =~= pieces.deep_view());
    r
}

/// The text in which the documentation of a declaration is looked for.
pub fn window_before(before: &str) -> (r: String)
    ensures
        r@ == documentation_window(before@),
{
    let lines = last_lines(before, 3);
    join(&lines, "\n")
}

fn render_paragraphs(text: &str) -> (r: String)
    ensures
        r@ == paragraph_lines(fields(text@, '\n')),
{
    let paragraphs = split(text, '\n');
    let mut r = String::new();
    let mut i: usize = 0;
    assert(paragraphs.deep_view().take(0) =~= Seq::<Seq<char>>::empty());
    while i < paragraphs.len()
        invariant
            i <= paragraphs.len(),
            r@ == paragraph_lines(paragraphs.deep_view().take(i as int)),
        decreases paragraphs.len() - i,
    {
        assert(paragraphs.deep_view().take(i + 1).drop_last() =~= paragraphs.deep_view().take(
            i as int,
        ));
        assert(paragraphs.deep_view().take(i + 1).last() == paragraphs@[i as int]@);
        let mut line = " * ".to_owned();
        line.append(paragraphs[i].as_str());
        line.append("\n");
        r.append(line.as_str());
        i += 1;
    }
    assert(paragraphs.deep_view().take(paragraphs.len() as int) =~= paragraphs.deep_view());
    r
}

fn render_enum_comment(documentation: &Option<String>) -> (r: String)
    ensures
        r@ == enum_comment(documentation.deep_view()),
{
    match documentation {
        Some(text) => {
            let lines = render_paragraphs(text.as_str());
            let mut r = "/**\n".to_owned();
            r.append(lines.as_str());
            r.append(" */\n");
            r
        },
        None => String::new(),
    }
}

impl CSharpEnum {
    /// The enum that one match of the enum pattern in `content` declares.
    pub fn from_match(content: &str, found: &(usize, Vec<Option<String>>)) -> (r: CSharpEnum)
        requires
            vstd::utf8::is_char_boundary(content.spec_bytes(), found.0 as int),
        ensures
            r@ == enum_of(content@, found.deep_view()),
    {
        let name = group_or_default(found, 1);
        let body = group_or_default(found, 2);
        let window = window_before(prefix(content, found.0));
        let documentation = find_documentation(window.as_str());
        let values = parse_values(body.as_str());
        CSharpEnum { name, values, documentation }
    }

    /// The enums that `content` declares, in the order of the text. Text in
    /// which no declaration is found declares none; nothing is an error.
    pub fn parse(content: &str) -> (r: Result<Vec<CSharpEnum>, &'static str>)
        ensures
            r matches Ok(enums) && enums.deep_view() == parsed_enums(content@),
    {
        let mut enums: Vec<CSharpEnum> = Vec::new();
        match captures_iter(ENUM_PATTERN, content) {
            Some(matches) => {
                let mut i: usize = 0;
                while i < matches.len()
                    invariant
                        i <= matches.len(),
                        enums.len() == i,
                        forall|j: int|
                            0 <= j < matches.len() ==> vstd::utf8::is_char_boundary(
                                content.spec_bytes(),
                                (#[trigger] matches@[j]).0 as int,
                            ),
                        forall|j: int|
                            0 <= j < i ==> (#[trigger] enums@[j])@ == enum_of(
                                content@,
                                matches@[j].deep_view(),
                            ),
                    decreases matches.len() - i,
                {
                    let declared = CSharpEnum::from_match(content, &matches[i]);
                    enums.push(declared);
                    i += 1;
                }
                assert(enums.deep_view() =~= parsed_enums(content@));
            },
            None => {
                assert(enums.deep_view() =~= parsed_enums(content@));
            },
        }
        Ok(enums)
    }

    /// The TypeScript declaration of this enum.
    pub fn to_declaration(&self) -> (r: String)
        ensures
            r@ == enum_declaration(self@),
    {
        let mut lines = String::new();
        let mut i: usize = 0;
        assert(self.values.deep_view().take(0) =~= Seq::<EnumValueModel>::empty());
        while i < self.values.len()
            invariant
                i <= self.values.len(),
                lines@ == all_value_lines(self.values.deep_view().take(i as int)),
            decreases self.values.len() - i,
        {
            assert(self.values.deep_view().take(i + 1).drop_last() =~= self.values.deep_view().take(
                i as int,
            ));
            assert(self.values.deep_view().take(i + 1).last() == self.values@[i as int]@);
            let line = self.values[i].to_typescript();
            lines.append(line.as_str());
            i += 1;
        }
        assert(self.values.deep_view().take(self.values.len() as int)
            =~= self.values.deep_view());
        let mut opening = "export enum ".to_owned();
        opening.append(self.name.as_str());
        opening.append(" {\n");
        let mut r = render_enum_comment(&self.documentation);
        r.append(opening.as_str());
        r.append(lines.as_str());
        r.append("}\n");
        r
    }

    /// The TypeScript file of this enum generated at `timestamp` under `config`.
    pub fn to_typescript(&self, config: &Config, timestamp: &str) -> (r: String)
        ensures
            r@ == typescript_text(self@, config@, timestamp@),
    {
        let mut r = generate_file_header(config, "Enum", timestamp);
        let declaration = self.to_declaration();
        r.append(declaration.as_str());
        r
    }
}

} // verus!
