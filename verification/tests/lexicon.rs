use cs2ts::csharp_type::CSharpType;

fn shown(token: &str) -> String {
    format!("{:?}", CSharpType::from_string(token))
}

#[test]
fn primitive_names_stand_for_themselves() {
    assert_eq!(shown("string"), "String");
    assert_eq!(shown("int"), "Int");
    assert_eq!(shown("Int32"), "Int");
    assert_eq!(shown("double"), "Double");
    assert_eq!(shown("Double"), "Double");
    assert_eq!(shown("decimal"), "Decimal");
    assert_eq!(shown("Decimal"), "Decimal");
    assert_eq!(shown("bool"), "Bool");
    assert_eq!(shown("Boolean"), "Bool");
    assert_eq!(shown("DateTime"), "DateTime");
    assert_eq!(shown("Guid"), "Guid");
}

#[test]
fn unknown_names_are_custom_types() {
    assert_eq!(shown("Address"), "Custom(\"Address\")");
    assert_eq!(shown("String"), "Custom(\"String\")");
    assert_eq!(shown(""), "Custom(\"\")");
    assert_eq!(shown("int "), "Custom(\"int \")");
}

#[test]
fn question_mark_makes_nullable() {
    assert_eq!(shown("int?"), "Nullable(Int)");
    assert_eq!(shown("Address?"), "Nullable(Custom(\"Address\"))");
    assert_eq!(shown("?"), "Nullable(Custom(\"\"))");
}

#[test]
fn nullable_is_decided_before_generics() {
    assert_eq!(shown("List<int>?"), "Nullable(Array(Int))");
    assert_eq!(shown("Dictionary<string, int>?"), "Nullable(Dictionary(String, Int))");
}

#[test]
fn lists_and_enumerables_are_arrays() {
    assert_eq!(shown("List<string>"), "Array(String)");
    assert_eq!(shown("IEnumerable<Guid>"), "Array(Guid)");
    assert_eq!(shown("List< int >"), "Array(Int)");
    assert_eq!(shown("List<int?>"), "Array(Nullable(Int))");
}

#[test]
fn nested_generics_take_the_outermost_argument() {
    assert_eq!(shown("List<List<int>>"), "Array(Array(Int))");
    assert_eq!(
        shown("List<Dictionary<string, int>>"),
        "Array(Dictionary(String, Int))"
    );
}

#[test]
fn dictionary_parts_at_first_top_level_comma() {
    assert_eq!(shown("Dictionary<string, int>"), "Dictionary(String, Int)");
    assert_eq!(
        shown("Dictionary<string, List<int>>"),
        "Dictionary(String, Array(Int))"
    );
    assert_eq!(
        shown("Dictionary<Dictionary<int, bool>, string>"),
        "Dictionary(Dictionary(Int, Bool), String)"
    );
    assert_eq!(
        shown("Dictionary<string, int, bool>"),
        "Dictionary(String, Custom(\"int, bool\"))"
    );
}

#[test]
fn malformed_generics_are_custom_types() {
    assert_eq!(shown("List<int"), "Custom(\"List<int\")");
    assert_eq!(shown("List<List<int>"), "Custom(\"List<List<int>\")");
    assert_eq!(shown("Dictionary<string>"), "Custom(\"Dictionary<string>\")");
    assert_eq!(shown("Dictionary<string, int"), "Custom(\"Dictionary<string, int\")");
    assert_eq!(
        shown("Dictionary<List<a, b>>"),
        "Custom(\"Dictionary<List<a, b>>\")"
    );
}

#[test]
fn text_after_the_closing_angle_is_passed_over() {
    assert_eq!(shown("List<int>[]"), "Array(Int)");
}

#[test]
fn two_question_marks_nest() {
    assert_eq!(shown("int??"), "Nullable(Nullable(Int))");
}

#[test]
fn zod_types_of_primitives() {
    assert_eq!(CSharpType::String.to_zod_type(false, false), "z.string()");
    assert_eq!(CSharpType::Int.to_zod_type(false, false), "z.number().int()");
    assert_eq!(CSharpType::Double.to_zod_type(false, false), "z.number()");
    assert_eq!(CSharpType::Decimal.to_zod_type(false, false), "z.number()");
    assert_eq!(CSharpType::Bool.to_zod_type(false, false), "z.boolean()");
    assert_eq!(CSharpType::Guid.to_zod_type(false, false), "z.string().uuid()");
    assert_eq!(
        CSharpType::Custom("Address".to_string()).to_zod_type(false, false),
        "AddressSchema"
    );
}

#[test]
fn zod_type_of_date_time_depends_on_localization() {
    assert_eq!(
        CSharpType::DateTime.to_zod_type(false, false),
        "z.string().datetime()"
    );
    assert_eq!(
        CSharpType::DateTime.to_zod_type(true, false),
        "z.date().or(z.string().datetime())"
    );
}

#[test]
fn zod_type_does_not_depend_on_update() {
    let t = CSharpType::from_string("List<int?>");
    assert_eq!(t.to_zod_type(false, true), t.to_zod_type(false, false));
    assert_eq!(t.to_zod_type(false, true), "z.array(z.number().int().nullable())");
}

#[test]
fn nullable_composition_on_values() {
    let inner = CSharpType::from_string("Dictionary<string, List<DateTime>>");
    let expected = format!("{}.nullable()", inner.to_zod_type(true, false));
    let outer = CSharpType::Nullable(Box::new(inner));
    assert_eq!(outer.to_zod_type(true, false), expected);
    assert_eq!(
        expected,
        "z.record(z.string(), z.array(z.date().or(z.string().datetime()))).nullable()"
    );
}

#[test]
fn array_composition_on_values() {
    let inner = CSharpType::from_string("Guid?");
    let expected = format!("z.array({})", inner.to_zod_type(false, false));
    let outer = CSharpType::Array(Box::new(inner));
    assert_eq!(outer.to_zod_type(false, false), expected);
    assert_eq!(expected, "z.array(z.string().uuid().nullable())");
}

#[test]
fn dictionary_renders_as_record() {
    let t = CSharpType::from_string("Dictionary<string, Address>");
    assert_eq!(t.to_zod_type(false, false), "z.record(z.string(), AddressSchema)");
}
