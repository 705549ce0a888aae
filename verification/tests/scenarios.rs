use cs2ts::config::Config;
use cs2ts::dto::CSharpDto;
use cs2ts::enums::CSharpEnum;

fn after_header(text: &str) -> &str {
    let end = text.find(" */\n\n").expect("the header ends the comment") + " */\n\n".len();
    &text[end..]
}

#[test]
fn simple_enum_renders_as_string_enum() {
    let source = "public enum Color { Red, [Display(Name=\"Bright Green\")] Green, Blue }";
    let enums = CSharpEnum::parse(source).unwrap();
    assert_eq!(enums.len(), 1);
    assert_eq!(enums[0].name, "Color");
    assert_eq!(enums[0].values.len(), 3);
    assert_eq!(enums[0].values[1].name, "Green");
    assert_eq!(enums[0].values[1].display_name.as_deref(), Some("Bright Green"));
    let text = enums[0].to_typescript(&Config::default(), "2024-01-02 03:04:05");
    assert_eq!(
        after_header(&text),
        "export enum Color {\n  Red = 'Red',\n  Green = 'Bright Green',\n  Blue = 'Blue',\n}\n"
    );
}

#[test]
fn create_dto_renders_required_fields() {
    let source = "public record CreateUser(string Name, int? Age, List<string> Tags);";
    let dtos = CSharpDto::parse(source).unwrap();
    assert_eq!(dtos.len(), 1);
    let text = dtos[0].to_zod_schema(&Config::default(), "2024-01-02 03:04:05");
    assert_eq!(
        after_header(&text),
        "import { z } from 'zod';\n\nexport const CreateUserSchema = z.object({\n    Name: z.string().required(),\n    Age: z.number().int().nullable().required(),\n    Tags: z.array(z.string()).required(),\n});\n\nexport type CreateUser = z.infer<typeof CreateUserSchema>;\n"
    );
}

#[test]
fn update_dto_renders_optional_fields() {
    let source = "public record UpdateUser(string Name, int? Age, List<string> Tags);";
    let dtos = CSharpDto::parse(source).unwrap();
    assert_eq!(dtos.len(), 1);
    assert!(dtos[0].is_update_dto());
    let text = dtos[0].to_zod_schema(&Config::default(), "2024-01-02 03:04:05");
    assert_eq!(
        after_header(&text),
        "import { z } from 'zod';\n\nexport const UpdateUserSchema = z.object({\n    Name: z.string().optional(),\n    Age: z.number().int().nullable().optional(),\n    Tags: z.array(z.string()).optional(),\n});\n\nexport type UpdateUser = z.infer<typeof UpdateUserSchema>;\n"
    );
}

#[test]
fn localized_dto_renders_a_factory() {
    let mut config = Config::default();
    config.localized = true;
    config.i18n_library = "vue-i18n".to_string();
    let dtos = CSharpDto::parse("public record CreateUser(string Email);").unwrap();
    assert_eq!(dtos.len(), 1);
    let text = dtos[0].to_zod_schema(&config, "2024-01-02 03:04:05");
    assert_eq!(
        after_header(&text),
        "import { z } from 'zod';\nimport { useI18n } from 'vue-i18n';\n\nexport const CreateUserSchema = () => {\n  const { t } = useI18n();\n  return z.object({\n    Email: z.string().required(),\n  });\n};\n\nexport type CreateUser = z.infer<typeof CreateUserSchema>;\n"
    );
}
