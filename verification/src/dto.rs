//! C# records used as DTOs: how they are read from source text and written
//! as Zod schemas.

use crate::config::{Config, ConfigModel, ImportModel};
use crate::csharp_type::{lexicon, zod_type, CSharpType, TypeModel};
use crate::header::{
    file_header, generate_file_header, lemma_same_but_for_timestamp, same_but_for_timestamp,
};
use crate::patterns::{
    all_captures, all_documentation_in, captures_iter, find_all_documentation, group_or_default,
    group_or_empty, prefix, text_before, DTO_PATTERN, PROPERTY_PATTERN,
};
use crate::text::{
    fields, has_prefix, has_suffix, join, joined, lemma_append_associates, split, starts_with,
    trim, trimmed,
};
use crate::validation::{fragment, fragments, RuleModel, ValidationRule};
use vstd::prelude::*;
use vstd::string::*;

verus! {

/// One parameter of a record: a field of the schema.
#[derive(Debug)]
pub struct DtoProperty {
    pub name: String,
    pub csharp_type: CSharpType,
    pub validations: Vec<ValidationRule>,
    pub documentation: Option<String>,
}

/// The mathematical value of a `DtoProperty`.
pub struct PropertyModel {
    pub name: Seq<char>,
    pub csharp_type: TypeModel,
    pub validations: Seq<RuleModel>,
    pub documentation: Option<Seq<char>>,
}

impl View for DtoProperty {
    type V = PropertyModel;

    open spec fn view(&self) -> PropertyModel {
        PropertyModel {
            name: self.name@,
            csharp_type: self.csharp_type@,
            validations: self.validations.deep_view(),
            documentation: self.documentation.deep_view(),
        }
    }
}

impl DeepView for DtoProperty {
    type V = PropertyModel;

    open spec fn deep_view(&self) -> PropertyModel {
        self.view()
    }
}

/// A C# record: its name and its parameters in the order of the source.
#[derive(Debug)]
pub struct CSharpDto {
    pub name: String,
    pub properties: Vec<DtoProperty>,
    pub documentation: Option<String>,
}

/// The mathematical value of a `CSharpDto`.
pub struct DtoModel {
    pub name: Seq<char>,
    pub properties: Seq<PropertyModel>,
    pub documentation: Option<Seq<char>>,
}

impl View for CSharpDto {
    type V = DtoModel;

    open spec fn view(&self) -> DtoModel {
        DtoModel {
            name: self.name@,
            properties: self.properties.deep_view(),
            documentation: self.documentation.deep_view(),
        }
    }
}

impl DeepView for CSharpDto {
    type V = DtoModel;

    open spec fn deep_view(&self) -> DtoModel {
        self.view()
    }
}

impl DtoModel {
    /// Whether the record is an update DTO: its name starts with `Update`.
    pub open spec fn is_update(self) -> bool {
        has_prefix(self.name, "Update"@)
    }
}

/// The documentation that a list of comments amounts to: the comments one
/// per line, or none where there is no text at all.
pub open spec fn documentation_of(comments: Seq<Seq<char>>) -> Option<Seq<char>> {
    let text = joined(comments, "\n"@);
    if text.len() == 0 {
        None
    } else {
        Some(text)
    }
}

/// The property that a piece of a parameter list declares, given the match
/// of the property pattern in the trimmed piece. The piece's documentation
/// is looked for in the piece as it stands.
pub open spec fn property_of(piece: Seq<char>, found: (usize, Seq<Option<Seq<char>>>)) -> PropertyModel {
    PropertyModel {
        name: trimmed(group_or_empty(found, 2)),
        csharp_type: lexicon(trimmed(group_or_empty(found, 1))),
        validations: Seq::empty(),
        documentation: documentation_of(all_documentation_in(piece)),
    }
}

/// The properties that the pieces of a parameter list declare: a piece in
/// which the property pattern finds nothing declares none.
pub open spec fn dto_properties(pieces: Seq<Seq<char>>) -> Seq<PropertyModel>
    decreases pieces.len(),
{
    if pieces.len() == 0 {
        Seq::empty()
    } else {
        let earlier = dto_properties(pieces.drop_last());
        match all_captures(PROPERTY_PATTERN@, trimmed(pieces.last())) {
            Some(matches) => if matches.len() > 0 {
                earlier.push(property_of(pieces.last(), matches[0]))
            } else {
                earlier
            },
            None => earlier,
        }
    }
}

/// The record that one match of the record pattern in `content` declares.
/// Its documentation is every documentation comment that stands before it.
pub open spec fn dto_of(content: Seq<char>, found: (usize, Seq<Option<Seq<char>>>)) -> DtoModel {
    DtoModel {
        name: group_or_empty(found, 1),
        properties: dto_properties(fields(group_or_empty(found, 2), ',')),
        documentation: documentation_of(
            all_documentation_in(text_before(content, found.0 as int)),
        ),
    }
}

/// The records that `content` declares, in the order of the text.
pub open spec fn parsed_dtos(content: Seq<char>) -> Seq<DtoModel> {
    match all_captures(DTO_PATTERN@, content) {
        Some(matches) => Seq::new(matches.len(), |i: int| dto_of(content, matches[i])),
        None => Seq::empty(),
    }
}

/// The modifier that ends the type of a field: optional in an update DTO,
/// required in any other.
pub open spec fn presence(is_update: bool) -> Seq<char> {
    if is_update {
        ".optional()"@
    } else {
        ".required()"@
    }
}

/// The expression of a field: its type, the modifier, and what its rules add.
pub open spec fn field_expression(property: PropertyModel, localized: bool, is_update: bool) -> Seq<
    char,
> {
    zod_type(property.csharp_type, localized) + presence(is_update) + fragments(
        property.validations,
        property.name,
        localized,
    )
}

/// The lines of a field: its comment, if it is documented, and its entry.
pub open spec fn field_lines(property: PropertyModel, localized: bool, is_update: bool) -> Seq<char> {
    let comment = match property.documentation {
        Some(text) => "    /** "@ + text + " */\n"@,
        None => Seq::empty(),
    };
    comment + ("    "@ + property.name + ": "@ + field_expression(property, localized, is_update)
        + ",\n"@)
}

/// The lines of the fields, in their order.
pub open spec fn all_field_lines(properties: Seq<PropertyModel>, localized: bool, is_update: bool) -> Seq<
    char,
>
    decreases properties.len(),
{
    if properties.len() == 0 {
        Seq::empty()
    } else {
        all_field_lines(properties.drop_last(), localized, is_update) + field_lines(
            properties.last(),
            localized,
            is_update,
        )
    }
}

/// The lines of the additional imports, in their order.
pub open spec fn import_lines(imports: Seq<ImportModel>) -> Seq<char>
    decreases imports.len(),
{
    if imports.len() == 0 {
        Seq::empty()
    } else {
        import_lines(imports.drop_last()) + ("import "@ + imports.last().name + " from '"@
            + imports.last().path + "';\n"@)
    }
}

/// The imports of a schema file and the blank line that follows them.
pub open spec fn schema_imports(config: ConfigModel) -> Seq<char> {
    let translator = if config.localized {
        "import { useI18n } from '"@ + config.i18n_library + "';\n"@
    } else {
        Seq::empty()
    };
    "import { z } from 'zod';\n"@ + translator + import_lines(config.additional_imports) + "\n"@
}

/// The comment block above a schema, if the record is documented.
pub open spec fn schema_comment(documentation: Option<Seq<char>>) -> Seq<char> {
    match documentation {
        Some(text) => "/**\n"@ + (" * "@ + text + "\n"@) + " */\n"@,
        None => Seq::empty(),
    }
}

/// The line or lines that open the schema's object.
pub open spec fn schema_opening(name: Seq<char>, localized: bool) -> Seq<char> {
    if localized {
        "export const "@ + name + "Schema = () => {\n"@ + "  const { t } = useI18n();\n"@
            + "  return z.object({\n"@
    } else {
        "export const "@ + name + "Schema = z.object({\n"@
    }
}

/// The line or lines that close the schema's object.
pub open spec fn schema_closing(localized: bool) -> Seq<char> {
    if localized {
        "  });\n};\n"@
    } else {
        "});\n"@
    }
}

/// The type alias that ends a schema file.
pub open spec fn schema_alias(name: Seq<char>) -> Seq<char> {
    "\nexport type "@ + name + " = z.infer<typeof "@ + name + "Schema>;\n"@
}

/// A schema file from its imports on.
pub open spec fn schema_body(dto: DtoModel, config: ConfigModel) -> Seq<char> {
    schema_imports(config) + schema_comment(dto.documentation) + schema_opening(
        dto.name,
        config.localized,
    ) + all_field_lines(dto.properties, config.localized, dto.is_update()) + schema_closing(
        config.localized,
    ) + schema_alias(dto.name)
}

/// The Zod schema file of a record generated at `timestamp` under `config`.
pub open spec fn schema_text(dto: DtoModel, config: ConfigModel, timestamp: Seq<char>) -> Seq<char> {
    file_header(config, "Zod Schema"@, timestamp) + schema_body(dto, config)
}

/// The properties of a parameter list are read in the order of its
/// pieces: the properties of pieces put together are those of the first
/// part followed by those of the second.
pub proof fn law_properties_parse_in_order(front: Seq<Seq<char>>, back: Seq<Seq<char>>)
    ensures
        dto_properties(front + back) == dto_properties(front) + dto_properties(back),
    decreases back.len(),
{
    if back.len() == 0 {
        assert(front + back =~= front);
        assert(dto_properties(front) + Seq::<PropertyModel>::empty() =~= dto_properties(front));
    } else {
        law_properties_parse_in_order(front, back.drop_last());
        assert((front + back).drop_last() =~= front + back.drop_last());
        assert((front + back).last() == back.last());
        match all_captures(PROPERTY_PATTERN@, trimmed(back.last())) {
            Some(matches) => {
                if matches.len() > 0 {
                    let property = property_of(back.last(), matches[0]);
                    assert((dto_properties(front) + dto_properties(back.drop_last())).push(property)
                        =~= dto_properties(front) + dto_properties(back.drop_last()).push(
                        property,
                    ));
                }
            },
            None => {},
        }
    }
}

/// The fields of a list are written in the order of the list: the lines of
/// lists put together are the lines of the first followed by the lines of
/// the second.
pub proof fn law_fields_render_in_order(
    front: Seq<PropertyModel>,
    back: Seq<PropertyModel>,
    localized: bool,
    is_update: bool,
)
    ensures
        all_field_lines(front + back, localized, is_update) == all_field_lines(
            front,
            localized,
            is_update,
        ) + all_field_lines(back, localized, is_update),
    decreases back.len(),
{
    let lines_front = all_field_lines(front, localized, is_update);
    if back.len() == 0 {
        assert(front + back =~= front);
        assert(lines_front + Seq::<char>::empty() =~= lines_front);
    } else {
        law_fields_render_in_order(front, back.drop_last(), localized, is_update);
        assert((front + back).drop_last() =~= front + back.drop_last());
        assert((front + back).last() == back.last());
        lemma_append_associates(
            lines_front,
            all_field_lines(back.drop_last(), localized, is_update),
            field_lines(back.last(), localized, is_update),
        );
    }
}

/// The expression of a field whose rules add nothing ends with the
/// modifier: `.optional()` in an update DTO, `.required()` in any other.
pub proof fn law_field_ends_with_presence(property: PropertyModel, localized: bool, is_update: bool)
    requires
        fragments(property.validations, property.name, localized).len() == 0,
    ensures
        field_expression(property, localized, is_update) == zod_type(property.csharp_type, localized)
            + presence(is_update),
        is_update ==> has_suffix(field_expression(property, localized, is_update), ".optional()"@),
        !is_update ==> has_suffix(field_expression(property, localized, is_update), ".required()"@),
{
    let kind = zod_type(property.csharp_type, localized);
    let base = kind + presence(is_update);
    assert(base + fragments(property.validations, property.name, localized) =~= base);
    assert(base.subrange(base.len() - presence(is_update).len(), base.len() as int) =~= presence(
        is_update,
    ));
}

/// The expression of a field without rules, as every field is that was
/// read from source text, ends with the modifier.
pub proof fn law_plain_field_ends_with_presence(
    property: PropertyModel,
    localized: bool,
    is_update: bool,
)
    requires
        property.validations.len() == 0,
    ensures
        is_update ==> has_suffix(field_expression(property, localized, is_update), ".optional()"@),
        !is_update ==> has_suffix(field_expression(property, localized, is_update), ".required()"@),
{
    law_field_ends_with_presence(property, localized, is_update);
}

/// Rendering is determined by the record, the configuration and the
/// timestamp: two renderings of one record under one configuration are one
/// text but for the timestamps they were given, and with one timestamp
/// they are one text.
pub proof fn law_schema_rendering_is_determined(
    dto: DtoModel,
    config: ConfigModel,
    first_time: Seq<char>,
    second_time: Seq<char>,
)
    ensures
        same_but_for_timestamp(
            schema_text(dto, config, first_time),
            first_time,
            schema_text(dto, config, second_time),
            second_time,
        ),
        first_time == second_time ==> schema_text(dto, config, first_time) == schema_text(
            dto,
            config,
            second_time,
        ),
{
    lemma_same_but_for_timestamp(
        config,
        "Zod Schema"@,
        first_time,
        second_time,
        schema_body(dto, config),
    );
}

fn documentation_from(comments: &Vec<String>) -> (r: Option<String>)
    ensures
        r.deep_view() == documentation_of(comments.deep_view()),
{
    let text = join(comments, "\n");
    if text.as_str().unicode_len() == 0 {
        None
    } else {
        Some(text)
    }
}

impl DtoProperty {
    /// The property that a piece of a parameter list declares, given the
    /// match of the property pattern in the trimmed piece and the
    /// documentation comments of the piece.
    pub fn new(found: &(usize, Vec<Option<String>>), comments: &Vec<String>) -> (r: DtoProperty)
        ensures
            r@ == (PropertyModel {
                name: trimmed(group_or_empty(found.deep_view(), 2)),
                csharp_type: lexicon(trimmed(group_or_empty(found.deep_view(), 1))),
                validations: Seq::empty(),
                documentation: documentation_of(comments.deep_view()),
            }),
    {
        let type_text = group_or_default(found, 1);
        let name_text = group_or_default(found, 2);
        let type_token = trim(type_text.as_str());
        let validations: Vec<ValidationRule> = Vec::new();
        assert(validations.deep_view() =~= Seq::<RuleModel>::empty());
        DtoProperty {
            name: trim(name_text.as_str()),
            csharp_type: CSharpType::from_string(type_token.as_str()),
            validations,
            documentation: documentation_from(comments),
        }
    }

    /// The expression of this field.
    pub fn to_expression(&self, localized: bool, is_update: bool) -> (r: String)
        ensures
            r@ == field_expression(self@, localized, is_update),
    {
        let mut added = String::new();
        let mut i: usize = 0;
        assert(self.validations.deep_view().take(0) =~= Seq::<RuleModel>::empty());
        while i < self.validations.len()
            invariant
                i <= self.validations.len(),
                added@ == fragments(
                    self.validations.deep_view().take(i as int),
                    self.name@,
                    localized,
                ),
            decreases self.validations.len() - i,
        {
            assert(self.validations.deep_view().take(i + 1).drop_last()
                =~= self.validations.deep_view().take(i as int));
            assert(self.validations.deep_view().take(i + 1).last() == self.validations@[i as int]@);
            let code = self.validations[i].to_fragment(self.name.as_str(), localized);
            added.append(code.as_str());
            i += 1;
        }
        assert(self.validations.deep_view().take(self.validations.len() as int)
            =~= self.validations.deep_view());
        let mut r = self.csharp_type.to_zod_type(localized, is_update);
        if is_update {
            r.append(".optional()");
        } else {
            r.append(".required()");
        }
        r.append(added.as_str());
        r
    }

    /// The lines of this field in a schema.
    pub fn to_lines(&self, localized: bool, is_update: bool) -> (r: String)
        ensures
            r@ == field_lines(self@, localized, is_update),
    {
        let mut comment = String::new();
        match &self.documentation {
            Some(text) => {
                comment = "    /** ".to_owned();
                comment.append(text.as_str());
                comment.append(" */\n");
            },
            None => {},
        }
        let expression = self.to_expression(localized, is_update);
        let mut entry = "    ".to_owned();
        entry.append(self.name.as_str());
        entry.append(": ");
        entry.append(expression.as_str());
        entry.append(",\n");
        comment.append(entry.as_str());
        comment
    }
}

/// The properties that a parameter list declares.
pub fn parse_properties(parameters: &str) -> (r: Vec<DtoProperty>)
    ensures
        r.deep_view() == dto_properties(fields(parameters@, ',')),
{
    let pieces = split(parameters, ',');
    let mut r: Vec<DtoProperty> = Vec::new();
    let mut i: usize = 0;
    assert(pieces.deep_view().take(0) =~= Seq::<Seq<char>>::empty());
    assert(r.deep_view() =~= Seq::<PropertyModel>::empty());
    while i < pieces.len()
        invariant
            i <= pieces.len(),
            r.deep_view() == dto_properties(pieces.deep_view().take(i as int)),
        decreases pieces.len() - i,
    {
        let ghost before = r.deep_view();
        assert(pieces.deep_view().take(i + 1).drop_last() =~= pieces.deep_view().take(i as int));
        assert(pieces.deep_view().take(i + 1).last() == pieces@[i as int]@);
        let piece = pieces[i].as_str();
        let item = trim(piece);
        match captures_iter(PROPERTY_PATTERN, item.as_str()) {
            Some(matches) => {
                if matches.len() > 0 {
                    assert(matches.deep_view()[0] == matches@[0].deep_view());
                    let comments = find_all_documentation(piece);
                    let property = DtoProperty::new(&matches[0], &comments);
                    r.push(property);
                    assert(r.deep_view() =~= before.push(property@));
                }
            },
            None => {},
        }
        i += 1;
    }
    assert(pieces.deep_view().take(pieces.len() as int) =~= pieces.deep_view());
    r
}

fn render_import_lines(imports: &Vec<crate::config::ImportConfig>) -> (r: String)
    ensures
        r@ == import_lines(imports.deep_view()),
{
    let mut r = String::new();
    let mut i: usize = 0;
    assert(imports.deep_view().take(0) =~= Seq::<ImportModel>::empty());
    while i < imports.len()
        invariant
            i <= imports.len(),
            r@ == import_lines(imports.deep_view().take(i as int)),
        decreases imports.len() - i,
    {
        assert(imports.deep_view().take(i + 1).drop_last() =~= imports.deep_view().take(i as int));
        assert(imports.deep_view().take(i + 1).last() == imports@[i as int]@);
        let mut line = "import ".to_owned();
        line.append(imports[i].name.as_str());
        line.append(" from '");
        line.append(imports[i].path.as_str());
        line.append("';\n");
        r.append(line.as_str());
        i += 1;
    }
    assert(imports.deep_view().take(imports.len() as int) =~= imports.deep_view());
    r
}

fn render_schema_imports(config: &Config) -> (r: String)
    ensures
        r@ == schema_imports(config@),
{
    let mut translator = String::new();
    if config.localized {
        translator = "import { useI18n } from '".to_owned();
        translator.append(config.i18n_library.as_str());
        translator.append("';\n");
    }
    let additional = render_import_lines(&config.additional_imports);
    let mut r = "import { z } from 'zod';\n".to_owned();
    r.append(translator.as_str());
    r.append(additional.as_str());
    r.append("\n");
    r
}

fn render_schema_comment(documentation: &Option<String>) -> (r: String)
    ensures
        r@ == schema_comment(documentation.deep_view()),
{
    match documentation {
        Some(text) => {
            let mut line = " * ".to_owned();
            line.append(text.as_str());
            line.append("\n");
            let mut r = "/**\n".to_owned();
            r.append(line.as_str());
            r.append(" */\n");
            r
        },
        None => String::new(),
    }
}

fn render_schema_opening(name: &str, localized: bool) -> (r: String)
    ensures
        r@ == schema_opening(name@, localized),
{
    let mut r = "export const ".to_owned();
    r.append(name);
    if localized {
        r.append("Schema = () => {\n");
        r.append("  const { t } = useI18n();\n");
        r.append("  return z.object({\n");
    } else {
        r.append("Schema = z.object({\n");
    }
    r
}

fn render_schema_alias(name: &str) -> (r: String)
    ensures
        r@ == schema_alias(name@),
{
    let mut r = "\nexport type ".to_owned();
    r.append(name);
    r.append(" = z.infer<typeof ");
    r.append(name);
    r.append("Schema>;\n");
    r
}

impl CSharpDto {
    /// The record that one match of the record pattern in `content` declares.
    pub fn from_match(content: &str, found: &(usize, Vec<Option<String>>)) -> (r: CSharpDto)
        requires
            vstd::utf8::is_char_boundary(content.spec_bytes(), found.0 as int),
        ensures
            r@ == dto_of(content@, found.deep_view()),
    {
        let name = group_or_default(found, 1);
        let parameters = group_or_default(found, 2);
        let comments = find_all_documentation(prefix(content, found.0));
        let documentation = documentation_from(&comments);
        let properties = parse_properties(parameters.as_str());
        CSharpDto { name, properties, documentation }
    }

    /// The records that `content` declares, in the order of the text. Text
    /// in which no declaration is found declares none; nothing is an error.
    pub fn parse(content: &str) -> (r: Result<Vec<CSharpDto>, &'static str>)
        ensures
            r matches Ok(dtos) && dtos.deep_view() == parsed_dtos(content@),
    {
        let mut dtos: Vec<CSharpDto> = Vec::new();
        match captures_iter(DTO_PATTERN, content) {
            Some(matches) => {
                let mut i: usize = 0;
                while i < matches.len()
                    invariant
                        i <= matches.len(),
                        dtos.len() == i,
                        forall|j: int|
                            0 <= j < matches.len() ==> vstd::utf8::is_char_boundary(
                                content.spec_bytes(),
                                (#[trigger] matches@[j]).0 as int,
                            ),
                        forall|j: int|
                            0 <= j < i ==> (#[trigger] dtos@[j])@ == dto_of(
                                content@,
                                matches@[j].deep_view(),
                            ),
                    decreases matches.len() - i,
                {
                    let declared = CSharpDto::from_match(content, &matches[i]);
                    dtos.push(declared);
                    i += 1;
                }
                assert(dtos.deep_view() =~= parsed_dtos(content@));
            },
            None => {
                assert(dtos.deep_view() =~= parsed_dtos(content@));
            },
        }
        Ok(dtos)
    }

    /// Whether this record is an update DTO: its name starts with `Update`.
    pub fn is_update_dto(&self) -> (r: bool)
        ensures
            r == self@.is_update(),
    {
        starts_with(self.name.as_str(), "Update")
    }

    /// The schema file of this record from its imports on.
    pub fn to_schema_body(&self, config: &Config) -> (r: String)
        ensures
            r@ == schema_body(self@, config@),
    {
        let is_update = self.is_update_dto();
        let mut lines = String::new();
        let mut i: usize = 0;
        assert(self.properties.deep_view().take(0) =~= Seq::<PropertyModel>::empty());
        while i < self.properties.len()
            invariant
                i <= self.properties.len(),
                lines@ == all_field_lines(
                    self.properties.deep_view().take(i as int),
                    config.localized,
                    is_update,
                ),
            decreases self.properties.len() - i,
        {
            assert(self.properties.deep_view().take(i + 1).drop_last()
                =~= self.properties.deep_view().take(i as int));
            assert(self.properties.deep_view().take(i + 1).last() == self.properties@[i as int]@);
            let line = self.properties[i].to_lines(config.localized, is_update);
            lines.append(line.as_str());
            i += 1;
        }
        assert(self.properties.deep_view().take(self.properties.len() as int)
            =~= self.properties.deep_view());
        let comment = render_schema_comment(&self.documentation);
        let opening = render_schema_opening(self.name.as_str(), config.localized);
        let alias = render_schema_alias(self.name.as_str());
        let mut r = render_schema_imports(config);
        r.append(comment.as_str());
        r.append(opening.as_str());
        r.append(lines.as_str());
        if config.localized {
            r.append("  });\n};\n");
        } else {
            r.append("});\n");
        }
        r.append(alias.as_str());
        r
    }

    /// The Zod schema file of this record generated at `timestamp` under `config`.
    pub fn to_zod_schema(&self, config: &Config, timestamp: &str) -> (r: String)
        ensures
            r@ == schema_text(self@, config@, timestamp@),
    {
        let mut r = generate_file_header(config, "Zod Schema", timestamp);
        let body = self.to_schema_body(config);
        r.append(body.as_str());
        r
    }
}

} // verus!
