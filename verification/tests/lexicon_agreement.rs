use cs2ts::csharp_type::CSharpType;

fn has_nested_nullable(t: &CSharpType) -> bool {
    match t {
        CSharpType::Nullable(inner) => {
            matches!(**inner, CSharpType::Nullable(_)) || has_nested_nullable(inner)
        }
        CSharpType::Array(inner) => has_nested_nullable(inner),
        CSharpType::Dictionary(key, value) => has_nested_nullable(key) || has_nested_nullable(value),
        _ => false,
    }
}

#[test]
fn tokens_without_two_question_marks_have_no_nested_nullable() {
    let tokens = [
        "int?", "List<int?>?", "Dictionary<string?, List<Guid?>?>?", "IEnumerable<List<bool?>>",
        "A?b?", "List< int? >", "Dictionary<int?, int?>", "?x?", "List<?>",
    ];
    for token in tokens {
        assert!(!token.contains("??"));
        assert!(!has_nested_nullable(&CSharpType::from_string(token)), "{}", token);
    }
    assert!(has_nested_nullable(&CSharpType::from_string("List<int??>")));
}

#[test]
fn every_token_has_a_type() {
    let tokens = [
        "", "<", ">", "<>", "List<", "List<>", "List<>>", "IEnumerable<", "Dictionary<", "Dictionary<,>",
        "Dictionary<>", "Dictionary<,", ",", "??", "List<<<", "Dictionary<<,>,>", "List<é>", "é?",
    ];
    let expected = [
        "Custom(\"\")", "Custom(\"<\")", "Custom(\">\")", "Custom(\"<>\")", "Custom(\"List<\")",
        "Array(Custom(\"\"))", "Array(Custom(\"\"))", "Custom(\"IEnumerable<\")",
        "Custom(\"Dictionary<\")", "Dictionary(Custom(\"\"), Custom(\"\"))",
        "Custom(\"Dictionary<>\")", "Custom(\"Dictionary<,\")", "Custom(\",\")",
        "Nullable(Nullable(Custom(\"\")))", "Custom(\"List<<<\")",
        "Dictionary(Custom(\"<,>\"), Custom(\"\"))", "Array(Custom(\"é\"))",
        "Nullable(Custom(\"é\"))",
    ];
    for (token, shown) in tokens.iter().zip(expected.iter()) {
        assert_eq!(&format!("{:?}", CSharpType::from_string(token)), shown, "{}", token);
    }
}
