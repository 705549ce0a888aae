use cs2ts::validation::ValidationRule;

fn rule(kind: &str, parameters: &[(&str, &str)], message: Option<&str>) -> ValidationRule {
    ValidationRule {
        rule_type: kind.to_string(),
        parameters: parameters
            .iter()
            .map(|(name, value)| (name.to_string(), value.to_string()))
            .collect(),
        error_message: message.map(str::to_string),
        condition: None,
    }
}

#[test]
fn required_renders_required() {
    let r = rule("Required", &[], None);
    assert_eq!(r.to_zod_validation("Name", false).as_deref(), Some(".required()"));
    assert_eq!(r.to_zod_validation("Name", true).as_deref(), Some(".required()"));
    assert_eq!(r.to_fragment("Name", false), "");
}

#[test]
fn range_renders_both_limits() {
    let r = rule("Range", &[("Minimum", "1"), ("Maximum", "5")], None);
    assert_eq!(
        r.to_zod_validation("Age", false).as_deref(),
        Some(".min(1, { message: Value must be between 1 and 5 }).max(5, { message: Value must be between 1 and 5 })")
    );
    assert_eq!(
        r.to_zod_validation("Age", true).as_deref(),
        Some(".min(1, { message: t('Age.range') }).max(5, { message: t('Age.range') })")
    );
}

#[test]
fn range_takes_its_own_message() {
    let r = rule("Range", &[("Maximum", "5"), ("Minimum", "1")], Some("'out of range'"));
    assert_eq!(
        r.to_zod_validation("Age", false).as_deref(),
        Some(".min(1, { message: 'out of range' }).max(5, { message: 'out of range' })")
    );
    assert_eq!(
        r.to_zod_validation("Age", true).as_deref(),
        Some(".min(1, { message: t('Age.range') }).max(5, { message: t('Age.range') })")
    );
}

#[test]
fn range_without_a_limit_renders_nothing() {
    assert_eq!(rule("Range", &[("Minimum", "1")], None).to_zod_validation("Age", false), None);
    assert_eq!(rule("Range", &[("Maximum", "1")], None).to_zod_validation("Age", false), None);
    assert_eq!(rule("Range", &[], None).to_zod_validation("Age", true), None);
    assert_eq!(rule("Range", &[("Minimum", "1")], None).to_fragment("Age", false), "");
}

#[test]
fn string_length_renders_the_limits_it_has() {
    let both = rule("StringLength", &[("MinimumLength", "2"), ("MaximumLength", "9")], None);
    assert_eq!(
        both.to_zod_validation("Name", false).as_deref(),
        Some(".min(2, { message: Minimum length is 2 }).max(9, { message: Maximum length is 9 })")
    );
    assert_eq!(
        both.to_zod_validation("Name", true).as_deref(),
        Some(".min(2, { message: t('Name.minLength') }).max(9, { message: t('Name.maxLength') })")
    );
    let least = rule("StringLength", &[("MinimumLength", "2")], None);
    assert_eq!(
        least.to_zod_validation("Name", false).as_deref(),
        Some(".min(2, { message: Minimum length is 2 })")
    );
    let most = rule("StringLength", &[("MaximumLength", "9")], Some("too long"));
    assert_eq!(
        most.to_zod_validation("Name", false).as_deref(),
        Some(".max(9, { message: too long })")
    );
    let neither = rule("StringLength", &[], None);
    assert_eq!(neither.to_zod_validation("Name", false).as_deref(), Some(""));
}

#[test]
fn email_address_renders_email() {
    let r = rule("EmailAddress", &[], None);
    assert_eq!(
        r.to_zod_validation("Email", false).as_deref(),
        Some(".email({ message: Invalid email address })")
    );
    assert_eq!(
        r.to_zod_validation("Email", true).as_deref(),
        Some(".email({ message: t('Email.email') })")
    );
    let own = rule("EmailAddress", &[], Some("'bad'"));
    assert_eq!(
        own.to_zod_validation("Email", false).as_deref(),
        Some(".email({ message: 'bad' })")
    );
}

#[test]
fn phone_renders_a_regex() {
    let r = rule("Phone", &[], None);
    assert_eq!(
        r.to_zod_validation("Mobile", false).as_deref(),
        Some(".regex(/^\\+?[1-9]\\d{1,14}$/, { message: Invalid phone number })")
    );
    assert_eq!(
        r.to_zod_validation("Mobile", true).as_deref(),
        Some(".regex(/^\\+?[1-9]\\d{1,14}$/, { message: t('Mobile.phone') })")
    );
}

#[test]
fn regular_expression_renders_its_pattern() {
    let r = rule("RegularExpression", &[("pattern", "^[a-z]+$")], None);
    assert_eq!(
        r.to_zod_validation("Code", false).as_deref(),
        Some(".regex(new RegExp('^[a-z]+$'), { message: Invalid format })")
    );
    assert_eq!(
        r.to_zod_validation("Code", true).as_deref(),
        Some(".regex(new RegExp('^[a-z]+$'), { message: t('Code.pattern') })")
    );
    assert_eq!(rule("RegularExpression", &[], None).to_zod_validation("Code", false), None);
}

#[test]
fn unknown_rules_render_nothing() {
    assert_eq!(rule("CreditCard", &[], None).to_zod_validation("Card", false), None);
    assert_eq!(rule("required", &[], None).to_zod_validation("Card", false), None);
    assert_eq!(rule("", &[], None).to_zod_validation("Card", true), None);
    assert_eq!(rule("CreditCard", &[], None).to_fragment("Card", false), "");
}

#[test]
fn the_first_parameter_of_a_name_counts() {
    let r = rule("Range", &[("Minimum", "1"), ("Minimum", "2"), ("Maximum", "3")], None);
    assert_eq!(r.parameter("Minimum").as_deref(), Some("1"));
    assert_eq!(r.parameter("Maximum").as_deref(), Some("3"));
    assert_eq!(r.parameter("minimum"), None);
}

#[test]
fn messages_resolve_by_localization() {
    let own = rule("Phone", &[], Some("mine"));
    assert_eq!(own.message_for("P", true, "phone", "fallback"), "t('P.phone')");
    assert_eq!(own.message_for("P", false, "phone", "fallback"), "mine");
    let none = rule("Phone", &[], None);
    assert_eq!(none.message_for("P", false, "phone", "fallback"), "fallback");
}
