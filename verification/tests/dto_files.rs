use cs2ts::config::{Config, ImportConfig};
use cs2ts::csharp_type::CSharpType;
use cs2ts::dto::{parse_properties, CSharpDto, DtoProperty};
use cs2ts::validation::ValidationRule;

fn property(name: &str, token: &str) -> DtoProperty {
    DtoProperty {
        name: name.to_string(),
        csharp_type: CSharpType::from_string(token),
        validations: Vec::new(),
        documentation: None,
    }
}

fn rule(kind: &str, parameters: &[(&str, &str)]) -> ValidationRule {
    ValidationRule {
        rule_type: kind.to_string(),
        parameters: parameters
            .iter()
            .map(|(name, value)| (name.to_string(), value.to_string()))
            .collect(),
        error_message: None,
        condition: None,
    }
}

#[test]
fn text_without_records_declares_none() {
    assert!(CSharpDto::parse("").unwrap().is_empty());
    assert!(CSharpDto::parse("public class User(string Name);").unwrap().is_empty());
    assert!(CSharpDto::parse("public record User();").unwrap().is_empty());
}

#[test]
fn properties_come_in_the_order_of_the_parameters() {
    let dtos = CSharpDto::parse("public record User(Guid Id, string Name, DateTime? Born);").unwrap();
    assert_eq!(dtos.len(), 1);
    assert_eq!(dtos[0].name, "User");
    let names: Vec<&str> = dtos[0].properties.iter().map(|p| p.name.as_str()).collect();
    assert_eq!(names, vec!["Id", "Name", "Born"]);
    let types: Vec<String> =
        dtos[0].properties.iter().map(|p| format!("{:?}", p.csharp_type)).collect();
    assert_eq!(types, vec!["Guid", "String", "Nullable(DateTime)"]);
    assert!(dtos[0].properties.iter().all(|p| p.validations.is_empty()));
    assert!(!dtos[0].is_update_dto());
}

#[test]
fn parameters_are_parted_at_every_comma() {
    let properties = parse_properties("Dictionary<string, int> Map, string Name");
    let names: Vec<&str> = properties.iter().map(|p| p.name.as_str()).collect();
    assert_eq!(names, vec!["Map", "Name"]);
    assert_eq!(format!("{:?}", properties[0].csharp_type), "Custom(\"int>\")");
}

#[test]
fn pieces_without_a_type_and_a_name_declare_nothing() {
    let properties = parse_properties("string Name, , Age, int Count");
    let names: Vec<&str> = properties.iter().map(|p| p.name.as_str()).collect();
    assert_eq!(names, vec!["Name", "Count"]);
}

#[test]
fn record_documentation_joins_every_comment_before_it() {
    let source = "/// <summary>First</summary>\n/// <remarks> Second </remarks>\npublic record A(int X);\n/// <summary>Third</summary>\npublic record B(int Y);";
    let dtos = CSharpDto::parse(source).unwrap();
    assert_eq!(dtos.len(), 2);
    assert_eq!(dtos[0].documentation.as_deref(), Some("First\nSecond"));
    assert_eq!(dtos[1].documentation.as_deref(), Some("First\nSecond\nThird"));
    assert_eq!(CSharpDto::parse("public record A(int X);").unwrap()[0].documentation, None);
}

#[test]
fn property_documentation_comes_from_its_piece() {
    let source = "public record A(\n    /// <summary>The name</summary>\n    string Name,\n    int Age);";
    let dtos = CSharpDto::parse(source).unwrap();
    assert_eq!(dtos[0].properties.len(), 2);
    assert_eq!(dtos[0].properties[0].name, "Name");
    assert_eq!(dtos[0].properties[0].documentation.as_deref(), Some("The name"));
    assert_eq!(dtos[0].properties[1].documentation, None);
}

#[test]
fn update_is_decided_by_the_name() {
    let update = CSharpDto { name: "UpdateUser".to_string(), properties: Vec::new(), documentation: None };
    let create = CSharpDto { name: "CreateUpdate".to_string(), properties: Vec::new(), documentation: None };
    let lower = CSharpDto { name: "updateUser".to_string(), properties: Vec::new(), documentation: None };
    let bare = CSharpDto { name: "Update".to_string(), properties: Vec::new(), documentation: None };
    assert!(update.is_update_dto());
    assert!(!create.is_update_dto());
    assert!(!lower.is_update_dto());
    assert!(bare.is_update_dto());
}

#[test]
fn field_expression_ends_with_the_modifier() {
    let p = property("Tags", "List<string>?");
    assert_eq!(p.to_expression(false, false), "z.array(z.string()).nullable().required()");
    assert_eq!(p.to_expression(false, true), "z.array(z.string()).nullable().optional()");
    assert!(p.to_expression(true, false).ends_with(".required()"));
    assert!(p.to_expression(true, true).ends_with(".optional()"));
}

#[test]
fn rules_add_their_fragments_behind_the_modifier() {
    let mut p = property("Email", "string");
    p.validations = vec![
        rule("Required", &[]),
        rule("StringLength", &[("MaximumLength", "50")]),
        rule("Unknown", &[]),
        rule("EmailAddress", &[]),
    ];
    assert_eq!(
        p.to_expression(false, false),
        "z.string().required().max(50, { message: Maximum length is 50 }).email({ message: Invalid email address })"
    );
    assert_eq!(
        p.to_expression(true, true),
        "z.string().optional().max(50, { message: t('Email.maxLength') }).email({ message: t('Email.email') })"
    );
}

#[test]
fn rules_without_fragments_leave_the_modifier_last() {
    let mut p = property("Name", "string");
    p.validations = vec![rule("Required", &[]), rule("Range", &[]), rule("Other", &[])];
    assert_eq!(p.to_expression(false, false), "z.string().required()");
    assert_eq!(p.to_expression(false, true), "z.string().optional()");
}

#[test]
fn field_lines_carry_the_documentation() {
    let mut p = property("Name", "string");
    p.documentation = Some("The name".to_string());
    assert_eq!(
        p.to_lines(false, false),
        "    /** The name */\n    Name: z.string().required(),\n"
    );
    p.documentation = None;
    assert_eq!(p.to_lines(false, true), "    Name: z.string().optional(),\n");
}

#[test]
fn schema_body_with_imports_and_documentation() {
    let config = Config {
        extensions: vec!["cs".to_string()],
        ignore: Vec::new(),
        input_dir: None,
        output_dir: None,
        localized: false,
        i18n_library: "vue-i18n".to_string(),
        additional_imports: vec![
            ImportConfig { name: "{ AddressSchema }".to_string(), path: "./Address.schema".to_string() },
            ImportConfig { name: "dayjs".to_string(), path: "dayjs".to_string() },
        ],
    };
    let dto = CSharpDto {
        name: "CreateUser".to_string(),
        properties: vec![property("Home", "Address"), property("Age", "int")],
        documentation: Some("A user\nto create".to_string()),
    };
    assert_eq!(
        dto.to_schema_body(&config),
        "import { z } from 'zod';\nimport { AddressSchema } from './Address.schema';\nimport dayjs from 'dayjs';\n\n/**\n * A user\nto create\n */\nexport const CreateUserSchema = z.object({\n    Home: AddressSchema.required(),\n    Age: z.number().int().required(),\n});\n\nexport type CreateUser = z.infer<typeof CreateUserSchema>;\n"
    );
}

#[test]
fn localized_schema_body_imports_the_configured_library() {
    let mut config = Config::default();
    config.localized = true;
    config.i18n_library = "my-i18n".to_string();
    let dto = CSharpDto {
        name: "UpdateUser".to_string(),
        properties: vec![property("Born", "DateTime")],
        documentation: None,
    };
    assert_eq!(
        dto.to_schema_body(&config),
        "import { z } from 'zod';\nimport { useI18n } from 'my-i18n';\n\nexport const UpdateUserSchema = () => {\n  const { t } = useI18n();\n  return z.object({\n    Born: z.date().or(z.string().datetime()).optional(),\n  });\n};\n\nexport type UpdateUser = z.infer<typeof UpdateUserSchema>;\n"
    );
}

#[test]
fn fields_render_in_their_order() {
    let dto = CSharpDto {
        name: "N".to_string(),
        properties: vec![property("C", "int"), property("A", "int"), property("B", "int")],
        documentation: None,
    };
    let text = dto.to_schema_body(&Config::default());
    let c = text.find("    C: ").unwrap();
    let a = text.find("    A: ").unwrap();
    let b = text.find("    B: ").unwrap();
    assert!(c < a && a < b);
}

#[test]
fn schema_file_is_header_then_body() {
    let dto = CSharpDto { name: "N".to_string(), properties: vec![property("A", "int")], documentation: None };
    let config = Config::default();
    let text = dto.to_zod_schema(&config, "2024-01-02 03:04:05");
    let header = cs2ts::header::generate_file_header(&config, "Zod Schema", "2024-01-02 03:04:05");
    assert_eq!(text, format!("{}{}", header, dto.to_schema_body(&config)));
    assert_eq!(text, dto.to_zod_schema(&config, "2024-01-02 03:04:05"));
    let other = dto.to_zod_schema(&config, "2030-01-01 00:00:00");
    assert_eq!(text.replace("2024-01-02 03:04:05", "2030-01-01 00:00:00"), other);
    assert!(other.ends_with(&dto.to_schema_body(&config)));
    assert!(other.starts_with("/**\n * Generated with UniTrackCodeGen at 2030-01-01 00:00:00\n"));
}
