//! The comment block that every generated file begins with.

use crate::config::{Config, ConfigModel};
use crate::text::{join, joined};
use vstd::prelude::*;
use vstd::string::*;

verus! {

/// The header up to the place of the timestamp.
pub open spec fn header_lead() -> Seq<char> {
    "/**\n"@ + " * Generated with UniTrackCodeGen at "@
}

/// How the header names a directory: by its path, or as `default` where
/// none is configured.
pub open spec fn directory_label(directory: Option<Seq<char>>) -> Seq<char> {
    match directory {
        Some(path) => path,
        None => "default"@,
    }
}

/// How the header names the localization setting.
pub open spec fn localization_label(localized: bool) -> Seq<char> {
    if localized {
        "enabled"@
    } else {
        "disabled"@
    }
}

/// The header from the end of the timestamp on: the configuration that was
/// in effect, and the blank line that follows the comment.
pub open spec fn header_rest(config: ConfigModel, file_type: Seq<char>) -> Seq<char> {
    "\n"@ + " * \n"@ + " * Configuration:\n"@ + " * - File Type: "@ + file_type + "\n"@
        + " * - Input Directory: "@ + directory_label(config.input_dir) + "\n"@
        + " * - Output Directory: "@ + directory_label(config.output_dir) + "\n"@
        + " * - Extensions: ["@ + joined(config.extensions, ", "@) + "]\n"@
        + " * - Localization: "@ + localization_label(config.localized) + "\n"@ + " */\n\n"@
}

/// The header of a file of kind `file_type` generated at `timestamp` under `config`.
pub open spec fn file_header(config: ConfigModel, file_type: Seq<char>, timestamp: Seq<char>) -> Seq<
    char,
> {
    header_lead() + timestamp + header_rest(config, file_type)
}

/// Whether `first` and `second` are one text but for the timestamps
/// `first_time` and `second_time`, which stand in them right behind the
/// lead of the header.
pub open spec fn same_but_for_timestamp(
    first: Seq<char>,
    first_time: Seq<char>,
    second: Seq<char>,
    second_time: Seq<char>,
) -> bool {
    let lead = header_lead().len() as int;
    &&& lead + first_time.len() <= first.len()
    &&& lead + second_time.len() <= second.len()
    &&& first.subrange(0, lead) == header_lead()
    &&& second.subrange(0, lead) == header_lead()
    &&& first.subrange(lead, lead + first_time.len()) == first_time
    &&& second.subrange(lead, lead + second_time.len()) == second_time
    &&& first.skip(lead + first_time.len()) == second.skip(lead + second_time.len())
}

/// Two texts that begin with headers for one configuration and one kind of
/// file, and go on alike, are one text but for the timestamps.
pub proof fn lemma_same_but_for_timestamp(
    config: ConfigModel,
    file_type: Seq<char>,
    first_time: Seq<char>,
    second_time: Seq<char>,
    body: Seq<char>,
)
    ensures
        same_but_for_timestamp(
            file_header(config, file_type, first_time) + body,
            first_time,
            file_header(config, file_type, second_time) + body,
            second_time,
        ),
{
    let lead = header_lead().len() as int;
    let rest = header_rest(config, file_type);
    let first = file_header(config, file_type, first_time) + body;
    let second = file_header(config, file_type, second_time) + body;
    assert(first.subrange(0, lead) =~= header_lead());
    assert(second.subrange(0, lead) =~= header_lead());
    assert(first.subrange(lead, lead + first_time.len()) =~= first_time);
    assert(second.subrange(lead, lead + second_time.len()) =~= second_time);
    assert(first.skip(lead + first_time.len()) =~= rest + body);
    assert(second.skip(lead + second_time.len()) =~= rest + body);
}

fn directory_label_of(directory: &Option<String>) -> (r: String)
    ensures
        r@ == directory_label(directory.deep_view()),
{
    match directory {
        Some(path) => path.clone(),
        None => "default".to_owned(),
    }
}

fn render_header_rest(config: &Config, file_type: &str) -> (r: String)
    ensures
        r@ == header_rest(config@, file_type@),
{
    let extensions = join(&config.extensions, ", ");
    let input = directory_label_of(&config.input_dir);
    let output = directory_label_of(&config.output_dir);
    let mut r = "\n".to_owned();
    r.append(" * \n");
    r.append(" * Configuration:\n");
    r.append(" * - File Type: ");
    r.append(file_type);
    r.append("\n");
    r.append(" * - Input Directory: ");
    r.append(input.as_str());
    r.append("\n");
    r.append(" * - Output Directory: ");
    r.append(output.as_str());
    r.append("\n");
    r.append(" * - Extensions: [");
    r.append(extensions.as_str());
    r.append("]\n");
    r.append(" * - Localization: ");
    if config.localized {
        r.append("enabled");
    } else {
        r.append("disabled");
    }
    r.append("\n");
    r.append(" */\n\n");
    r
}

/// The header of a file of kind `file_type` generated at `timestamp` under
/// `config`. The timestamp is the caller's: the local time of generation,
/// written as `YYYY-MM-DD HH:MM:SS`.
pub fn generate_file_header(config: &Config, file_type: &str, timestamp: &str) -> (r: String)
    ensures
        r@ == file_header(config@, file_type@, timestamp@),
{
    let rest = render_header_rest(config, file_type);
    let mut r = "/**\n".to_owned();
    r.append(" * Generated with UniTrackCodeGen at ");
    r.append(timestamp);
    r.append(rest.as_str());
    r
}

} // verus!
