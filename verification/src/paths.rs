//! Paths as texts, and what `std::path` makes of them.

use crate::config::{Config, ConfigModel};
use vstd::prelude::*;
use vstd::string::*;

verus! {

/// What `std::path::Path::extension` returns for the path written `path`.
pub uninterp spec fn path_extension(path: Seq<char>) -> Option<Seq<char>>;

/// Calls `std::path::Path::extension`. Trusted: that the extension is a
/// function of the path's text.
#[verifier::external_body]
pub(crate) fn extension_of(path: &str) -> (r: Option<String>)
    ensures
        r.deep_view() == path_extension(path@),
{
    std::path::Path::new(path).extension().map(|e| e.to_string_lossy().into_owned())
}

/// What `std::path::Path::file_name` returns for the path written `path`.
pub uninterp spec fn path_file_name(path: Seq<char>) -> Option<Seq<char>>;

/// Calls `std::path::Path::file_name`. Trusted: that the name is a function
/// of the path's text.
#[verifier::external_body]
pub(crate) fn file_name_of(path: &str) -> (r: Option<String>)
    ensures
        r.deep_view() == path_file_name(path@),
{
    std::path::Path::new(path).file_name().map(|name| name.to_string_lossy().into_owned())
}

/// What `std::path::Path::parent` returns for the path written `path`.
pub uninterp spec fn path_parent(path: Seq<char>) -> Option<Seq<char>>;

/// Calls `std::path::Path::parent`. Trusted: that the parent is a function
/// of the path's text.
#[verifier::external_body]
pub(crate) fn parent_of(path: &str) -> (r: Option<String>)
    ensures
        r.deep_view() == path_parent(path@),
{
    std::path::Path::new(path).parent().map(|parent| parent.to_string_lossy().into_owned())
}

/// What `std::path::Path::join` returns for the paths written `base` and `path`.
pub uninterp spec fn path_join(base: Seq<char>, path: Seq<char>) -> Seq<char>;

/// Calls `std::path::Path::join`. Trusted: that the joined path is a
/// function of the two texts.
#[verifier::external_body]
pub(crate) fn join_paths(base: &str, path: &str) -> (r: String)
    ensures
        r@ == path_join(base@, path@),
{
    std::path::Path::new(base).join(path).to_string_lossy().into_owned()
}

/// What `std::path::Path::strip_prefix` returns for the paths written
/// `path` and `base`; `None` where it fails.
pub uninterp spec fn path_strip_prefix(path: Seq<char>, base: Seq<char>) -> Option<Seq<char>>;

/// Calls `std::path::Path::strip_prefix`. Trusted: that the outcome is a
/// function of the two texts.
#[verifier::external_body]
pub(crate) fn strip_prefix_of(path: &str, base: &str) -> (r: Option<String>)
    ensures
        r.deep_view() == path_strip_prefix(path@, base@),
{
    match std::path::Path::new(path).strip_prefix(base) {
        Ok(rest) => Some(rest.to_string_lossy().into_owned()),
        Err(_) => None,
    }
}

/// The input's place under the output root: the output root joined with the
/// input path as seen from the input root, or with the whole input path
/// where it does not lie under the input root.
pub open spec fn relative_output_path(
    input_path: Seq<char>,
    input_root: Seq<char>,
    output_root: Seq<char>,
) -> Seq<char> {
    path_join(
        output_root,
        match path_strip_prefix(input_path, input_root) {
            Some(relative) => relative,
            None => input_path,
        },
    )
}

/// The directory that the outputs of an input go to.
pub open spec fn output_directory(
    input_path: Seq<char>,
    input_root: Seq<char>,
    output_root: Seq<char>,
) -> Seq<char> {
    match path_parent(relative_output_path(input_path, input_root, output_root)) {
        Some(directory) => directory,
        None => output_root,
    }
}

/// The root against which the outputs of `input_path` are placed: the
/// configured input directory, or else the parent of the path, or else
/// the empty path.
pub open spec fn input_root(config: ConfigModel, input_path: Seq<char>) -> Seq<char> {
    match config.input_dir {
        Some(directory) => directory,
        None => match path_parent(input_path) {
            Some(parent) => parent,
            None => Seq::empty(),
        },
    }
}

/// The root against which outputs are placed, given the configured input
/// directory and the parent of the input path.
pub fn input_root_from(configured: &Option<String>, parent: Option<String>) -> (r: String)
    ensures
        r@ == match configured.deep_view() {
            Some(directory) => directory,
            None => match parent.deep_view() {
                Some(parent) => parent,
                None => Seq::empty(),
            },
        },
{
    match configured {
        Some(directory) => directory.clone(),
        None => match parent {
            Some(parent) => parent,
            None => String::new(),
        },
    }
}

/// The root against which the outputs of `input_path` are placed.
pub fn input_root_for(config: &Config, input_path: &str) -> (r: String)
    ensures
        r@ == input_root(config@, input_path@),
{
    input_root_from(&config.input_dir, parent_of(input_path))
}

/// The input path as seen from the input root, given what stripping the
/// root from it gave: the whole path where that failed.
pub fn relative_or_whole(stripped: Option<String>, input_path: &str) -> (r: String)
    ensures
        r@ == match stripped.deep_view() {
            Some(relative) => relative,
            None => input_path@,
        },
{
    match stripped {
        Some(relative) => relative,
        None => input_path.to_owned(),
    }
}

/// The directory of the outputs, given the parent of the input's place
/// under the output root: the output root where that place has no parent.
pub fn parent_or_root(parent: Option<String>, output_root: &str) -> (r: String)
    ensures
        r@ == match parent.deep_view() {
            Some(directory) => directory,
            None => output_root@,
        },
{
    match parent {
        Some(directory) => directory,
        None => output_root.to_owned(),
    }
}


/// The input's place under the output root.
pub fn relative_output_path_for(input_path: &str, input_root: &str, output_root: &str) -> (r: String)
    ensures
        r@ == relative_output_path(input_path@, input_root@, output_root@),
{
    let relative = relative_or_whole(strip_prefix_of(input_path, input_root), input_path);
    join_paths(output_root, relative.as_str())
}

/// The directory that the outputs of an input go to.
pub fn output_directory_for(input_path: &str, input_root: &str, output_root: &str) -> (r: String)
    ensures
        r@ == output_directory(input_path@, input_root@, output_root@),
{
    let place = relative_output_path_for(input_path, input_root, output_root);
    parent_or_root(parent_of(place.as_str()), output_root)
}

} // verus!
