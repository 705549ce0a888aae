//! The type lexicon: from a C# type token to a typed node, and from a node
//! to the Zod expression that validates it.

use crate::text::{
    has_last, has_prefix, lemma_trimmed_is_subrange, lemma_trimmed_len, same_text, slice,
    starts_with, to_chars, trim, trimmed,
};
use vstd::prelude::*;
use vstd::string::*;

verus! {

/// A C# type, as far as the generator tells types apart.
#[derive(Debug)]
pub enum CSharpType {
    String,
    Int,
    Double,
    Decimal,
    Bool,
    DateTime,
    Guid,
    Array(Box<CSharpType>),
    Nullable(Box<CSharpType>),
    Dictionary(Box<CSharpType>, Box<CSharpType>),
    Custom(String),
}

/// The mathematical value of a `CSharpType`.
pub enum TypeModel {
    String,
    Int,
    Double,
    Decimal,
    Bool,
    DateTime,
    Guid,
    Array(Box<TypeModel>),
    Nullable(Box<TypeModel>),
    Dictionary(Box<TypeModel>, Box<TypeModel>),
    Custom(Seq<char>),
}

impl View for CSharpType {
    type V = TypeModel;

    open spec fn view(&self) -> TypeModel
        decreases self,
    {
        match self {
            CSharpType::String => TypeModel::String,
            CSharpType::Int => TypeModel::Int,
            CSharpType::Double => TypeModel::Double,
            CSharpType::Decimal => TypeModel::Decimal,
            CSharpType::Bool => TypeModel::Bool,
            CSharpType::DateTime => TypeModel::DateTime,
            CSharpType::Guid => TypeModel::Guid,
            CSharpType::Array(inner) => TypeModel::Array(Box::new((**inner).view())),
            CSharpType::Nullable(inner) => TypeModel::Nullable(Box::new((**inner).view())),
            CSharpType::Dictionary(key, value) => TypeModel::Dictionary(
                Box::new((**key).view()),
                Box::new((**value).view()),
            ),
            CSharpType::Custom(name) => TypeModel::Custom(name@),
        }
    }
}

impl DeepView for CSharpType {
    type V = TypeModel;

    open spec fn deep_view(&self) -> TypeModel {
        self.view()
    }
}

impl TypeModel {
    /// No `Nullable` stands directly inside a `Nullable`.
    pub open spec fn well_formed(self) -> bool
        decreases self,
    {
        match self {
            TypeModel::Array(inner) => inner.well_formed(),
            TypeModel::Nullable(inner) => !(*inner is Nullable) && inner.well_formed(),
            TypeModel::Dictionary(key, value) => key.well_formed() && value.well_formed(),
            _ => true,
        }
    }
}

/// With `s` the text that follows an opening `<`, and `depth` the number of
/// further `<` still open, the index in `s` of the `>` that closes the first
/// one; `s.len()` if nothing closes it.
pub open spec fn closing_angle(s: Seq<char>, depth: nat) -> int
    decreases s.len(),
{
    if s.len() == 0 {
        0
    } else if s[0] == '>' && depth == 0 {
        0
    } else if s[0] == '>' {
        1 + closing_angle(s.drop_first(), (depth - 1) as nat)
    } else if s[0] == '<' {
        1 + closing_angle(s.drop_first(), depth + 1)
    } else {
        1 + closing_angle(s.drop_first(), depth)
    }
}

/// The index of the first comma of `s` that stands inside no `<...>`, with
/// `depth` the number of `<` open before `s`; `s.len()` if there is none.
pub open spec fn top_level_comma(s: Seq<char>, depth: nat) -> int
    decreases s.len(),
{
    if s.len() == 0 {
        0
    } else if s[0] == ',' && depth == 0 {
        0
    } else if s[0] == '<' {
        1 + top_level_comma(s.drop_first(), depth + 1)
    } else if s[0] == '>' && depth > 0 {
        1 + top_level_comma(s.drop_first(), (depth - 1) as nat)
    } else {
        1 + top_level_comma(s.drop_first(), depth)
    }
}

/// The text between the `<` that ends a generic prefix of length
/// `prefix_len` and the `>` that closes it, if `s` has that `>`.
pub open spec fn generic_arguments(s: Seq<char>, prefix_len: nat) -> Option<Seq<char>> {
    if prefix_len <= s.len() {
        let inner = s.subrange(prefix_len as int, s.len() as int);
        let close = closing_angle(inner, 0);
        if 0 <= close < inner.len() {
            Some(inner.subrange(0, close))
        } else {
            None
        }
    } else {
        None
    }
}

/// The type that a type token stands for. The rules, in order:
/// a token that ends in `?` is the nullable of what stands before the `?`;
/// `List<..>` and `IEnumerable<..>` are arrays of their argument;
/// `Dictionary<..>` is a dictionary, its arguments parted at the first comma
/// outside any nested `<...>`; the primitive names stand for themselves;
/// everything else, a generic without its closing `>` or a dictionary
/// without a comma included, is a custom type of that name.
pub open spec fn lexicon(s: Seq<char>) -> TypeModel
    decreases s.len(),
{
    if has_last(s, '?') {
        TypeModel::Nullable(Box::new(lexicon(s.drop_last())))
    } else if has_prefix(s, "List<"@) || has_prefix(s, "IEnumerable<"@) {
        let prefix_len = if has_prefix(s, "List<"@) {
            "List<"@.len()
        } else {
            "IEnumerable<"@.len()
        };
        match generic_arguments(s, prefix_len) {
            Some(argument) => {
                proof {
                    lemma_trimmed_len(argument);
                }
                TypeModel::Array(Box::new(lexicon(trimmed(argument))))
            },
            None => TypeModel::Custom(s),
        }
    } else if has_prefix(s, "Dictionary<"@) {
        match generic_arguments(s, "Dictionary<"@.len()) {
            Some(arguments) => {
                let comma = top_level_comma(arguments, 0);
                if 0 <= comma < arguments.len() {
                    let key = arguments.subrange(0, comma);
                    let value = arguments.subrange(comma + 1, arguments.len() as int);
                    proof {
                        lemma_trimmed_len(key);
                        lemma_trimmed_len(value);
                    }
                    TypeModel::Dictionary(
                        Box::new(lexicon(trimmed(key))),
                        Box::new(lexicon(trimmed(value))),
                    )
                } else {
                    TypeModel::Custom(s)
                }
            },
            None => TypeModel::Custom(s),
        }
    } else if s == "string"@ {
        TypeModel::String
    } else if s == "int"@ || s == "Int32"@ {
        TypeModel::Int
    } else if s == "double"@ || s == "Double"@ {
        TypeModel::Double
    } else if s == "decimal"@ || s == "Decimal"@ {
        TypeModel::Decimal
    } else if s == "bool"@ || s == "Boolean"@ {
        TypeModel::Bool
    } else if s == "DateTime"@ {
        TypeModel::DateTime
    } else if s == "Guid"@ {
        TypeModel::Guid
    } else {
        TypeModel::Custom(s)
    }
}

/// No two question marks stand side by side in `s`.
pub open spec fn no_double_question(s: Seq<char>) -> bool {
    forall|i: int| 0 <= i < s.len() - 1 ==> !(#[trigger] s[i] == '?' && s[i + 1] == '?')
}

/// A token without two question marks side by side stands for a type in
/// which no `Nullable` is directly inside a `Nullable`.
pub proof fn lemma_lexicon_well_formed(s: Seq<char>)
    requires
        no_double_question(s),
    ensures
        lexicon(s).well_formed(),
    decreases s.len(), 1nat,
{
    if has_last(s, '?') {
        let base = s.drop_last();
        assert(no_double_question(base)) by {
            assert forall|i: int| 0 <= i < base.len() - 1 implies !(#[trigger] base[i] == '?'
                && base[i + 1] == '?') by {
                assert(base[i] == s[i] && base[i + 1] == s[i + 1]);
            }
        }
        lemma_lexicon_well_formed(base);
        if base.len() > 0 {
            assert(s[s.len() - 2] == base.last());
            assert(!(s[s.len() - 2] == '?' && s[s.len() - 2 + 1] == '?'));
        }
        assert(!has_last(base, '?'));
    } else if has_prefix(s, "List<"@) || has_prefix(s, "IEnumerable<"@) {
        let prefix_len = if has_prefix(s, "List<"@) {
            "List<"@.len()
        } else {
            "IEnumerable<"@.len()
        };
        match generic_arguments(s, prefix_len) {
            Some(argument) => {
                let inner = s.subrange(prefix_len as int, s.len() as int);
                let close = closing_angle(inner, 0);
                assert(argument =~= s.subrange(prefix_len as int, prefix_len + close));
                lemma_trimmed_part_well_formed(s, prefix_len as int, prefix_len + close);
            },
            None => {},
        }
    } else if has_prefix(s, "Dictionary<"@) {
        let prefix_len = "Dictionary<"@.len();
        match generic_arguments(s, prefix_len) {
            Some(arguments) => {
                let inner = s.subrange(prefix_len as int, s.len() as int);
                let close = closing_angle(inner, 0);
                let comma = top_level_comma(arguments, 0);
                if 0 <= comma < arguments.len() {
                    assert(arguments.subrange(0, comma) =~= s.subrange(
                        prefix_len as int,
                        prefix_len + comma,
                    ));
                    assert(arguments.subrange(comma + 1, arguments.len() as int) =~= s.subrange(
                        prefix_len + comma + 1,
                        prefix_len + close,
                    ));
                    lemma_trimmed_part_well_formed(s, prefix_len as int, prefix_len + comma);
                    lemma_trimmed_part_well_formed(s, prefix_len + comma + 1, prefix_len + close);
                }
            },
            None => {},
        }
    }
}

/// The step of `lemma_lexicon_well_formed` for a trimmed part of a token
/// that is shorter than the token.
proof fn lemma_trimmed_part_well_formed(s: Seq<char>, from: int, to: int)
    requires
        no_double_question(s),
        0 <= from <= to <= s.len(),
        to - from < s.len(),
    ensures
        lexicon(trimmed(s.subrange(from, to))).well_formed(),
    decreases s.len(), 0nat,
{
    let part = s.subrange(from, to);
    let bounds = lemma_trimmed_is_subrange(part);
    let item = trimmed(part);
    assert(item =~= s.subrange(from + bounds.0, from + bounds.1));
    assert(no_double_question(item)) by {
        assert forall|i: int| 0 <= i < item.len() - 1 implies !(#[trigger] item[i] == '?'
            && item[i + 1] == '?') by {
            assert(item[i] == s[from + bounds.0 + i] && item[i + 1] == s[from + bounds.0 + i + 1]);
        }
    }
    lemma_lexicon_well_formed(item);
}

/// The Zod expression for a type, without the modifier that marks a field
/// as required or optional.
pub open spec fn zod_type(t: TypeModel, localized: bool) -> Seq<char>
    decreases t,
{
    match t {
        TypeModel::String => "z.string()"@,
        TypeModel::Int => "z.number().int()"@,
        TypeModel::Double => "z.number()"@,
        TypeModel::Decimal => "z.number()"@,
        TypeModel::Bool => "z.boolean()"@,
        TypeModel::Guid => "z.string().uuid()"@,
        TypeModel::DateTime => if localized {
            "z.date().or(z.string().datetime())"@
        } else {
            "z.string().datetime()"@
        },
        TypeModel::Array(element) => "z.array("@ + zod_type(*element, localized) + ")"@,
        TypeModel::Nullable(inner) => zod_type(*inner, localized) + ".nullable()"@,
        TypeModel::Dictionary(key, value) => "z.record("@ + zod_type(*key, localized) + ", "@
            + zod_type(*value, localized) + ")"@,
        TypeModel::Custom(name) => name + "Schema"@,
    }
}

/// The nullable of a type renders as the type followed by `.nullable()`.
pub proof fn law_nullable_composition(t: TypeModel, localized: bool)
    ensures
        zod_type(TypeModel::Nullable(Box::new(t)), localized) == zod_type(t, localized)
            + ".nullable()"@,
{
}

/// An array of a type renders as the type inside `z.array(` and `)`.
pub proof fn law_array_composition(t: TypeModel, localized: bool)
    ensures
        zod_type(TypeModel::Array(Box::new(t)), localized) == "z.array("@ + zod_type(t, localized)
            + ")"@,
{
}

/// Finds the `>` that closes a `<` standing just before index `from`.
fn find_closing_angle(chars: &Vec<char>, from: usize) -> (r: usize)
    requires
        from <= chars.len(),
    ensures
        from <= r <= chars.len(),
        r - from == closing_angle(chars@.subrange(from as int, chars.len() as int), 0),
{
    let n = chars.len();
    let ghost s = chars@;
    let mut i: usize = from;
    let mut depth: usize = 0;
    while i < n
        invariant
            from <= i <= n,
            n == chars.len(),
            s == chars@,
            depth <= i - from,
            closing_angle(s.subrange(from as int, n as int), 0) == (i - from) + closing_angle(
                s.subrange(i as int, n as int),
                depth as nat,
            ),
        decreases n - i,
    {
        assert(s.subrange(i as int, n as int).drop_first() =~= s.subrange(i + 1, n as int));
        let c = chars[i];
        if c == '>' {
            if depth == 0 {
                return i;
            }
            depth -= 1;
        } else if c == '<' {
            depth += 1;
        }
        i += 1;
    }
    n
}

/// Finds the first comma between `from` and `to` that stands inside no `<...>`.
fn find_top_level_comma(chars: &Vec<char>, from: usize, to: usize) -> (r: usize)
    requires
        from <= to <= chars.len(),
    ensures
        from <= r <= to,
        r - from == top_level_comma(chars@.subrange(from as int, to as int), 0),
{
    let ghost s = chars@;
    let mut i: usize = from;
    let mut depth: usize = 0;
    while i < to
        invariant
            from <= i <= to <= chars.len(),
            s == chars@,
            depth <= i - from,
            top_level_comma(s.subrange(from as int, to as int), 0) == (i - from) + top_level_comma(
                s.subrange(i as int, to as int),
                depth as nat,
            ),
        decreases to - i,
    {
        assert(s.subrange(i as int, to as int).drop_first() =~= s.subrange(i + 1, to as int));
        let c = chars[i];
        if c == ',' && depth == 0 {
            return i;
        } else if c == '<' {
            depth += 1;
        } else if c == '>' && depth > 0 {
            depth -= 1;
        }
        i += 1;
    }
    to
}

impl CSharpType {
    /// The type that the token `type_str` stands for.
    pub fn from_string(type_str: &str) -> (t: CSharpType)
        ensures
            t@ == lexicon(type_str@),
            no_double_question(type_str@) ==> t@.well_formed(),
        decreases type_str@.len(),
    {
        proof {
            if no_double_question(type_str@) {
                lemma_lexicon_well_formed(type_str@);
            }
        }
        let chars = to_chars(type_str);
        let n = chars.len();
        if n > 0 && chars[n - 1] == '?' {
            let base = slice(type_str, 0, n - 1);
            assert(base@ =~= type_str@.drop_last());
            return CSharpType::Nullable(Box::new(CSharpType::from_string(base.as_str())));
        }
        let list = starts_with(type_str, "List<");
        let enumerable = starts_with(type_str, "IEnumerable<");
        if list || enumerable {
            let prefix_len = if list {
                "List<".unicode_len()
            } else {
                "IEnumerable<".unicode_len()
            };
            let close = find_closing_angle(&chars, prefix_len);
            if close < n {
                let argument = slice(type_str, prefix_len, close);
                let ghost inner = type_str@.subrange(prefix_len as int, n as int);
                assert(argument@ =~= inner.subrange(0, close - prefix_len));
                let item = trim(argument.as_str());
                proof {
                    lemma_trimmed_len(argument@);
                }
                return CSharpType::Array(Box::new(CSharpType::from_string(item.as_str())));
            }
            return CSharpType::Custom(type_str.to_owned());
        }
        if starts_with(type_str, "Dictionary<") {
            let prefix_len = "Dictionary<".unicode_len();
            let close = find_closing_angle(&chars, prefix_len);
            if close < n {
                let ghost inner = type_str@.subrange(prefix_len as int, n as int);
                let ghost arguments = inner.subrange(0, close - prefix_len);
                assert(arguments =~= type_str@.subrange(prefix_len as int, close as int));
                let comma = find_top_level_comma(&chars, prefix_len, close);
                if comma < close {
                    let key_text = slice(type_str, prefix_len, comma);
                    let value_text = slice(type_str, comma + 1, close);
                    assert(key_text@ =~= arguments.subrange(0, comma - prefix_len));
                    assert(value_text@ =~= arguments.subrange(
                        comma - prefix_len + 1,
                        arguments.len() as int,
                    ));
                    let key_item = trim(key_text.as_str());
                    let value_item = trim(value_text.as_str());
                    proof {
                        lemma_trimmed_len(key_text@);
                        lemma_trimmed_len(value_text@);
                    }
                    let key = CSharpType::from_string(key_item.as_str());
                    let value = CSharpType::from_string(value_item.as_str());
                    return CSharpType::Dictionary(Box::new(key), Box::new(value));
                }
            }
            return CSharpType::Custom(type_str.to_owned());
        }
        if same_text(type_str, "string") {
            CSharpType::String
        } else if same_text(type_str, "int") || same_text(type_str, "Int32") {
            CSharpType::Int
        } else if same_text(type_str, "double") || same_text(type_str, "Double") {
            CSharpType::Double
        } else if same_text(type_str, "decimal") || same_text(type_str, "Decimal") {
            CSharpType::Decimal
        } else if same_text(type_str, "bool") || same_text(type_str, "Boolean") {
            CSharpType::Bool
        } else if same_text(type_str, "DateTime") {
            CSharpType::DateTime
        } else if same_text(type_str, "Guid") {
            CSharpType::Guid
        } else {
            CSharpType::Custom(type_str.to_owned())
        }
    }

    /// The Zod expression for this type. The expression is the same for the
    /// fields of an update DTO and of any other: what marks a field as
    /// required or optional is added once, behind the whole expression.
    pub fn to_zod_type(&self, localized: bool, is_update_dto: bool) -> (r: String)
        ensures
            r@ == zod_type(self@, localized),
        decreases self,
    {
        match self {
            CSharpType::String => "z.string()".to_owned(),
            CSharpType::Int => "z.number().int()".to_owned(),
            CSharpType::Double => "z.number()".to_owned(),
            CSharpType::Decimal => "z.number()".to_owned(),
            CSharpType::Bool => "z.boolean()".to_owned(),
            CSharpType::Guid => "z.string().uuid()".to_owned(),
            CSharpType::DateTime => {
                if localized {
                    "z.date().or(z.string().datetime())".to_owned()
                } else {
                    "z.string().datetime()".to_owned()
                }
            },
            CSharpType::Array(inner) => {
                let element = inner.to_zod_type(localized, is_update_dto);
                let mut r = "z.array(".to_owned();
                r.append(element.as_str());
                r.append(")");
                r
            },
            CSharpType::Nullable(inner) => {
                let mut r = inner.to_zod_type(localized, is_update_dto);
                r.append(".nullable()");
                r
            },
            CSharpType::Dictionary(key, value) => {
                let key_text = key.to_zod_type(localized, is_update_dto);
                let value_text = value.to_zod_type(localized, is_update_dto);
                let mut r = "z.record(".to_owned();
                r.append(key_text.as_str());
                r.append(", ");
                r.append(value_text.as_str());
                r.append(")");
                r
            },
            CSharpType::Custom(name) => {
                let mut r = name.clone();
                r.append("Schema");
                r
            },
        }
    }
}

} // verus!
