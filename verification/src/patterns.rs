//! The regular expressions by which declarations and comments are found,
//! and the one place where they are run.

use crate::text::{trim, trimmed};
use vstd::prelude::*;
use vstd::string::*;
use vstd::utf8::*;

verus! {

/// An enum declaration: its name, then its body up to the first `}`.
pub const ENUM_PATTERN: &'static str = r"public\s+enum\s+(?P<name>\w+)\s*\{(?P<body>[^}]+)\}";

/// A `Display` attribute: the name it gives.
pub const DISPLAY_PATTERN: &'static str = r#"\[Display\(Name\s*=\s*"([^"]+)"\)\]"#;

/// A record declaration: its name, then its parameters up to the first `)`.
pub const DTO_PATTERN: &'static str = r"public\s+record\s+(?P<name>\w+)\s*\((?P<props>[^)]+)\)";

/// A record parameter: its type, then its name.
pub const PROPERTY_PATTERN: &'static str =
    r"(?m)(?P<type>[a-zA-Z0-9_<>?\[\]\.]+)\s+(?P<name>[a-zA-Z0-9_]+)(?:\s*,|\s*$)";

/// A documentation comment: what stands between its tags.
pub const DOC_PATTERN: &'static str =
    r"///\s*<(?:summary|remarks|example)>(.*?)</(?:summary|remarks|example)>";

/// What the successive matches of the regular expression `pattern` in `text`
/// are: for each match the byte offset at which it starts, and the text of
/// each capture group, the whole match first, `None` for a group that took
/// no part. `None` altogether for a pattern that is no regular expression.
pub uninterp spec fn all_captures(pattern: Seq<char>, text: Seq<char>) -> Option<
    Seq<(usize, Seq<Option<Seq<char>>>)>,
>;

/// Runs `regex::Regex::new` on `pattern` and `Regex::captures_iter` on `text`.
/// Trusted: that the matches are a function of the two texts, and that each
/// match starts on a character boundary of `text`, as `Match::start` documents.
#[verifier::external_body]
pub(crate) fn captures_iter(pattern: &str, text: &str) -> (found: Option<
    Vec<(usize, Vec<Option<String>>)>,
>)
    ensures
        found.deep_view() == all_captures(pattern@, text@),
        found matches Some(matches) ==> forall|i: int|
            0 <= i < matches.len() ==> is_char_boundary(
                text.spec_bytes(),
                (#[trigger] matches@[i]).0 as int,
            ),
{
    let re = match regex::Regex::new(pattern) {
        Ok(re) => re,
        Err(_) => return None,
    };
    Some(
        re.captures_iter(text).map(
            |c| (
                c.get(0).map_or(0, |m| m.start()),
                c.iter().map(|g| g.map(|m| m.as_str().to_string())).collect(),
            ),
        ).collect(),
    )
}


/// The text of capture group `index` of a match, if the group took part.
pub open spec fn group_text(found: (usize, Seq<Option<Seq<char>>>), index: int) -> Option<
    Seq<char>,
> {
    if 0 <= index < found.1.len() {
        found.1[index]
    } else {
        None
    }
}

/// The text of capture group `index` of a match; empty if the group took no part.
pub open spec fn group_or_empty(found: (usize, Seq<Option<Seq<char>>>), index: int) -> Seq<char> {
    match group_text(found, index) {
        Some(text) => text,
        None => Seq::empty(),
    }
}

/// The text of capture group `index` of the first of `matches`.
pub open spec fn first_group_in(
    matches: Option<Seq<(usize, Seq<Option<Seq<char>>>)>>,
    index: int,
) -> Option<Seq<char>> {
    match matches {
        Some(all) => if all.len() > 0 {
            group_text(all[0], index)
        } else {
            None
        },
        None => None,
    }
}

/// The text of capture group `index` of each of `matches` in which the group took part.
pub open spec fn each_group_in(matches: Seq<(usize, Seq<Option<Seq<char>>>)>, index: int) -> Seq<
    Seq<char>,
>
    decreases matches.len(),
{
    if matches.len() == 0 {
        Seq::empty()
    } else {
        let earlier = each_group_in(matches.drop_last(), index);
        match group_text(matches.last(), index) {
            Some(text) => earlier.push(text),
            None => earlier,
        }
    }
}

/// The text of capture group `index` of the first match of `pattern` in `text`.
pub open spec fn first_group(pattern: Seq<char>, text: Seq<char>, index: int) -> Option<Seq<char>> {
    first_group_in(all_captures(pattern, text), index)
}

/// What stands before byte offset `offset` of the UTF-8 encoding of `text`.
pub open spec fn text_before(text: Seq<char>, offset: int) -> Seq<char> {
    decode_utf8(encode_utf8(text).subrange(0, offset))
}

/// What the first documentation comment in `text` says, trimmed.
pub open spec fn documentation_in(text: Seq<char>) -> Option<Seq<char>> {
    match first_group(DOC_PATTERN@, text, 1) {
        Some(said) => Some(trimmed(said)),
        None => None,
    }
}

/// What each of the texts says, trimmed.
pub open spec fn all_trimmed(texts: Seq<Seq<char>>) -> Seq<Seq<char>> {
    Seq::new(texts.len(), |i: int| trimmed(texts[i]))
}

/// What the documentation comments in `text` say, each trimmed, in order.
pub open spec fn all_documentation_in(text: Seq<char>) -> Seq<Seq<char>> {
    match all_captures(DOC_PATTERN@, text) {
        Some(matches) => all_trimmed(each_group_in(matches, 1)),
        None => Seq::empty(),
    }
}

/// The text of capture group `index` of a match, if the group took part.
pub fn group(found: &(usize, Vec<Option<String>>), index: usize) -> (r: Option<String>)
    ensures
        r.deep_view() == group_text(found.deep_view(), index as int),
{
    if index < found.1.len() {
        match &found.1[index] {
            Some(text) => Some(text.clone()),
            None => None,
        }
    } else {
        None
    }
}

/// The text of capture group `index` of a match; empty if the group took no part.
pub fn group_or_default(found: &(usize, Vec<Option<String>>), index: usize) -> (r: String)
    ensures
        r@ == group_or_empty(found.deep_view(), index as int),
{
    match group(found, index) {
        Some(text) => text,
        None => String::new(),
    }
}

/// The text of capture group `index` of the first of `matches`.
pub fn first_group_of(matches: &Option<Vec<(usize, Vec<Option<String>>)>>, index: usize) -> (r:
    Option<String>)
    ensures
        r.deep_view() == first_group_in(matches.deep_view(), index as int),
{
    match matches {
        Some(all) => {
            if all.len() > 0 {
                assert(all.deep_view()[0] == all@[0].deep_view());
                group(&all[0], index)
            } else {
                None
            }
        },
        None => None,
    }
}

/// The text of capture group `index` of each of `matches` in which the group took part.
pub fn each_group_of(matches: &Vec<(usize, Vec<Option<String>>)>, index: usize) -> (r: Vec<String>)
    ensures
        r.deep_view() == each_group_in(matches.deep_view(), index as int),
{
    let mut r: Vec<String> = Vec::new();
    let mut i: usize = 0;
    assert(matches.deep_view().take(0) =~= Seq::empty());
    assert(r.deep_view() =~= Seq::<Seq<char>>::empty());
    while i < matches.len()
        invariant
            i <= matches.len(),
            r.deep_view() == each_group_in(matches.deep_view().take(i as int), index as int),
        decreases matches.len() - i,
    {
        let ghost before = r.deep_view();
        assert(matches.deep_view().take(i + 1).drop_last() =~= matches.deep_view().take(i as int));
        assert(matches.deep_view().take(i + 1).last() == matches@[i as int].deep_view());
        match group(&matches[i], index) {
            Some(text) => {
                r.push(text);
                assert(r.deep_view() =~= before.push(text@));
            },
            None => {},
        }
        i += 1;
    }
    assert(matches.deep_view().take(matches.len() as int) =~= matches.deep_view());
    r
}

/// Each of the texts, trimmed.
pub fn trim_all(texts: &Vec<String>) -> (r: Vec<String>)
    ensures
        r.deep_view() == all_trimmed(texts.deep_view()),
{
    let mut r: Vec<String> = Vec::new();
    let mut i: usize = 0;
    while i < texts.len()
        invariant
            i <= texts.len(),
            r.len() == i,
            forall|j: int| 0 <= j < i ==> r@[j]@ == trimmed(texts@[j]@),
        decreases texts.len() - i,
    {
        r.push(trim(texts[i].as_str()));
        i += 1;
    }
    assert(r.deep_view() =~= all_trimmed(texts.deep_view()));
    r
}

/// What stands before byte offset `offset` of `text`.
pub fn prefix(text: &str, offset: usize) -> (r: &str)
    requires
        is_char_boundary(text.spec_bytes(), offset as int),
    ensures
        r@ == text_before(text@, offset as int),
{
    broadcast use encode_utf8_decode_utf8;

    let parts = text.split_at(offset);
    parts.0
}

/// What the first documentation comment in `text` says, trimmed.
pub fn find_documentation(text: &str) -> (r: Option<String>)
    ensures
        r.deep_view() == documentation_in(text@),
{
    let matches = captures_iter(DOC_PATTERN, text);
    match first_group_of(&matches, 1) {
        Some(said) => Some(trim(said.as_str())),
        None => None,
    }
}

/// What the documentation comments in `text` say, each trimmed, in order.
pub fn find_all_documentation(text: &str) -> (r: Vec<String>)
    ensures
        r.deep_view() == all_documentation_in(text@),
{
    match captures_iter(DOC_PATTERN, text) {
        Some(matches) => {
            let said = each_group_of(&matches, 1);
            trim_all(&said)
        },
        None => {
            let r: Vec<String> = Vec::new();
            assert(r.deep_view() =~= Seq::<Seq<char>>::empty());
            r
        },
    }
}

} // verus!
