//! Validation rules of a record parameter and the Zod refinements that
//! stand for them.

use crate::text::same_text;
use vstd::prelude::*;
use vstd::string::*;

verus! {

/// One validation attribute of a record parameter.
#[derive(Debug)]
pub struct ValidationRule {
    /// The attribute's name: `Required`, `Range`, `StringLength`,
    /// `EmailAddress`, `Phone` or `RegularExpression`; a rule of any other
    /// name renders to nothing.
    pub rule_type: String,
    /// The attribute's named arguments, each a name and a value. Where a
    /// name occurs more than once, its first value counts.
    pub parameters: Vec<(String, String)>,
    pub error_message: Option<String>,
    pub condition: Option<String>,
}

/// The mathematical value of a `ValidationRule`.
pub struct RuleModel {
    pub rule_type: Seq<char>,
    pub parameters: Seq<(Seq<char>, Seq<char>)>,
    pub error_message: Option<Seq<char>>,
    pub condition: Option<Seq<char>>,
}

impl View for ValidationRule {
    type V = RuleModel;

    open spec fn view(&self) -> RuleModel {
        RuleModel {
            rule_type: self.rule_type@,
            parameters: self.parameters.deep_view(),
            error_message: self.error_message.deep_view(),
            condition: self.condition.deep_view(),
        }
    }
}

impl DeepView for ValidationRule {
    type V = RuleModel;

    open spec fn deep_view(&self) -> RuleModel {
        self.view()
    }
}

/// The value of the first of `parameters` that is named `name`.
pub open spec fn lookup(parameters: Seq<(Seq<char>, Seq<char>)>, name: Seq<char>) -> Option<
    Seq<char>,
>
    decreases parameters.len(),
{
    if parameters.len() == 0 {
        None
    } else if parameters[0].0 == name {
        Some(parameters[0].1)
    } else {
        lookup(parameters.drop_first(), name)
    }
}

/// The message of a refinement. A localized schema asks the translator for
/// the message under the key made of the property's name and `slot`;
/// another takes the rule's own message, or `fallback` where it has none.
pub open spec fn message(
    rule: RuleModel,
    property: Seq<char>,
    localized: bool,
    slot: Seq<char>,
    fallback: Seq<char>,
) -> Seq<char> {
    if localized {
        "t('"@ + property + "."@ + slot + "')"@
    } else {
        match rule.error_message {
            Some(own) => own,
            None => fallback,
        }
    }
}

/// A refinement that calls `method` with a limit and a message.
pub open spec fn limit(method: Seq<char>, value: Seq<char>, said: Seq<char>) -> Seq<char> {
    method + value + ", { message: "@ + said + " })"@
}

/// The lower limit of a `StringLength` rule, if it has one.
pub open spec fn minimum_length(rule: RuleModel, property: Seq<char>, localized: bool) -> Seq<char> {
    match lookup(rule.parameters, "MinimumLength"@) {
        Some(least) => limit(
            ".min("@,
            least,
            message(rule, property, localized, "minLength"@, "Minimum length is "@ + least),
        ),
        None => Seq::empty(),
    }
}

/// The upper limit of a `StringLength` rule, if it has one.
pub open spec fn maximum_length(rule: RuleModel, property: Seq<char>, localized: bool) -> Seq<char> {
    match lookup(rule.parameters, "MaximumLength"@) {
        Some(most) => limit(
            ".max("@,
            most,
            message(rule, property, localized, "maxLength"@, "Maximum length is "@ + most),
        ),
        None => Seq::empty(),
    }
}

/// The Zod refinement that stands for `rule` on the property named
/// `property`; `None` for a rule of unknown name, for a `Range` without
/// both of its limits and for a `RegularExpression` without its pattern.
pub open spec fn zod_validation(rule: RuleModel, property: Seq<char>, localized: bool) -> Option<
    Seq<char>,
> {
    if rule.rule_type == "Required"@ {
        Some(".required()"@)
    } else if rule.rule_type == "Range"@ {
        match (lookup(rule.parameters, "Minimum"@), lookup(rule.parameters, "Maximum"@)) {
            (Some(least), Some(most)) => {
                let said = message(
                    rule,
                    property,
                    localized,
                    "range"@,
                    "Value must be between "@ + least + " and "@ + most,
                );
                Some(limit(".min("@, least, said) + limit(".max("@, most, said))
            },
            _ => None,
        }
    } else if rule.rule_type == "StringLength"@ {
        Some(minimum_length(rule, property, localized) + maximum_length(rule, property, localized))
    } else if rule.rule_type == "EmailAddress"@ {
        Some(
            ".email({ message: "@ + message(
                rule,
                property,
                localized,
                "email"@,
                "Invalid email address"@,
            ) + " })"@,
        )
    } else if rule.rule_type == "Phone"@ {
        Some(
            ".regex(/^\\+?[1-9]\\d{1,14}$/, { message: "@ + message(
                rule,
                property,
                localized,
                "phone"@,
                "Invalid phone number"@,
            ) + " })"@,
        )
    } else if rule.rule_type == "RegularExpression"@ {
        match lookup(rule.parameters, "pattern"@) {
            Some(pattern) => Some(
                ".regex(new RegExp('"@ + pattern + "'), { message: "@ + message(
                    rule,
                    property,
                    localized,
                    "pattern"@,
                    "Invalid format"@,
                ) + " })"@,
            ),
            None => None,
        }
    } else {
        None
    }
}

/// What `rule` adds to the expression of a field: nothing for `Required`,
/// which the field's own modifier stands for, and nothing for a rule
/// without a refinement.
pub open spec fn fragment(rule: RuleModel, property: Seq<char>, localized: bool) -> Seq<char> {
    if rule.rule_type == "Required"@ {
        Seq::empty()
    } else {
        match zod_validation(rule, property, localized) {
            Some(code) => code,
            None => Seq::empty(),
        }
    }
}

/// What the rules of a field add to its expression, in the order of the rules.
pub open spec fn fragments(rules: Seq<RuleModel>, property: Seq<char>, localized: bool) -> Seq<char>
    decreases rules.len(),
{
    if rules.len() == 0 {
        Seq::empty()
    } else {
        fragments(rules.drop_last(), property, localized) + fragment(
            rules.last(),
            property,
            localized,
        )
    }
}

fn limit_of(method: &str, value: &str, said: &str) -> (r: String)
    ensures
        r@ == limit(method@, value@, said@),
{
    let mut r = method.to_owned();
    r.append(value);
    r.append(", { message: ");
    r.append(said);
    r.append(" })");
    r
}

impl ValidationRule {
    /// The value of the first parameter that is named `name`.
    pub fn parameter(&self, name: &str) -> (r: Option<String>)
        ensures
            r.deep_view() == lookup(self@.parameters, name@),
    {
        let mut i: usize = 0;
        let ghost all = self.parameters.deep_view();
        assert(all.subrange(0, all.len() as int) =~= all);
        while i < self.parameters.len()
            invariant
                i <= self.parameters.len(),
                all == self.parameters.deep_view(),
                lookup(all, name@) == lookup(all.subrange(i as int, all.len() as int), name@),
            decreases self.parameters.len() - i,
        {
            assert(all.subrange(i as int, all.len() as int).drop_first() =~= all.subrange(
                i + 1,
                all.len() as int,
            ));
            assert(all[i as int] == (self.parameters@[i as int].0@, self.parameters@[i as int].1@));
            if same_text(self.parameters[i].0.as_str(), name) {
                return Some(self.parameters[i].1.clone());
            }
            i += 1;
        }
        None
    }

    /// The message of a refinement of this rule.
    pub fn message_for(&self, prop_name: &str, localized: bool, slot: &str, fallback: &str) -> (r:
        String)
        ensures
            r@ == message(self@, prop_name@, localized, slot@, fallback@),
    {
        if localized {
            let mut r = "t('".to_owned();
            r.append(prop_name);
            r.append(".");
            r.append(slot);
            r.append("')");
            r
        } else {
            match &self.error_message {
                Some(own) => own.clone(),
                None => fallback.to_owned(),
            }
        }
    }

    fn minimum_length_of(&self, prop_name: &str, localized: bool) -> (r: String)
        ensures
            r@ == minimum_length(self@, prop_name@, localized),
    {
        match self.parameter("MinimumLength") {
            Some(least) => {
                let mut fallback = "Minimum length is ".to_owned();
                fallback.append(least.as_str());
                let said = self.message_for(prop_name, localized, "minLength", fallback.as_str());
                limit_of(".min(", least.as_str(), said.as_str())
            },
            None => String::new(),
        }
    }

    fn maximum_length_of(&self, prop_name: &str, localized: bool) -> (r: String)
        ensures
            r@ == maximum_length(self@, prop_name@, localized),
    {
        match self.parameter("MaximumLength") {
            Some(most) => {
                let mut fallback = "Maximum length is ".to_owned();
                fallback.append(most.as_str());
                let said = self.message_for(prop_name, localized, "maxLength", fallback.as_str());
                limit_of(".max(", most.as_str(), said.as_str())
            },
            None => String::new(),
        }
    }

    /// The Zod refinement that stands for this rule on the property named
    /// `prop_name`, if it has one.
    pub fn to_zod_validation(&self, prop_name: &str, localized: bool) -> (r: Option<String>)
        ensures
            r.deep_view() == zod_validation(self@, prop_name@, localized),
    {
        let kind = self.rule_type.as_str();
        if same_text(kind, "Required") {
            Some(".required()".to_owned())
        } else if same_text(kind, "Range") {
            let least = self.parameter("Minimum");
            let most = self.parameter("Maximum");
            match (least, most) {
                (Some(least), Some(most)) => {
                    let mut fallback = "Value must be between ".to_owned();
                    fallback.append(least.as_str());
                    fallback.append(" and ");
                    fallback.append(most.as_str());
                    let said = self.message_for(prop_name, localized, "range", fallback.as_str());
                    let mut r = limit_of(".min(", least.as_str(), said.as_str());
                    let upper = limit_of(".max(", most.as_str(), said.as_str());
                    r.append(upper.as_str());
                    Some(r)
                },
                _ => None,
            }
        } else if same_text(kind, "StringLength") {
            let mut r = self.minimum_length_of(prop_name, localized);
            let upper = self.maximum_length_of(prop_name, localized);
            r.append(upper.as_str());
            Some(r)
        } else if same_text(kind, "EmailAddress") {
            let said = self.message_for(prop_name, localized, "email", "Invalid email address");
            let mut r = ".email({ message: ".to_owned();
            r.append(said.as_str());
            r.append(" })");
            Some(r)
        } else if same_text(kind, "Phone") {
            let said = self.message_for(prop_name, localized, "phone", "Invalid phone number");
            let mut r = ".regex(/^\\+?[1-9]\\d{1,14}$/, { message: ".to_owned();
            r.append(said.as_str());
            r.append(" })");
            Some(r)
        } else if same_text(kind, "RegularExpression") {
            match self.parameter("pattern") {
                Some(pattern) => {
                    let said = self.message_for(prop_name, localized, "pattern", "Invalid format");
                    let mut r = ".regex(new RegExp('".to_owned();
                    r.append(pattern.as_str());
                    r.append("'), { message: ");
                    r.append(said.as_str());
                    r.append(" })");
                    Some(r)
                },
                None => None,
            }
        } else {
            None
        }
    }

    /// What this rule adds to the expression of the field named `prop_name`.
    pub fn to_fragment(&self, prop_name: &str, localized: bool) -> (r: String)
        ensures
            r@ == fragment(self@, prop_name@, localized),
    {
        if same_text(self.rule_type.as_str(), "Required") {
            String::new()
        } else {
            match self.to_zod_validation(prop_name, localized) {
                Some(code) => code,
                None => String::new(),
            }
        }
    }
}

} // verus!
