//! What is to be done for one input file: which outputs to remove and
//! which files to write.

use crate::config::{Config, ConfigModel};
use crate::dto::{parsed_dtos, schema_text, CSharpDto, DtoModel};
use crate::enums::{parsed_enums, typescript_text, CSharpEnum, EnumModel};
use crate::paths::{join_paths, output_directory, path_file_name, path_join};
use crate::text::{replace, replaced};
use vstd::prelude::*;
use vstd::string::*;

verus! {

/// The two families of artifacts.
#[derive(Debug, Clone, Copy, PartialEq, Eq, Structural)]
pub enum ArtifactKind {
    /// A TypeScript enum, written to a `.ts` file.
    Enum,
    /// A Zod schema, written to a `.schema.ts` file.
    Schema,
}

/// One file to write.
#[derive(Debug)]
pub struct OutputFile {
    pub kind: ArtifactKind,
    /// The directory of the file, to be created with its parents.
    pub directory: String,
    pub path: String,
    pub content: String,
}

/// The mathematical value of an `OutputFile`.
pub struct OutputModel {
    pub kind: ArtifactKind,
    pub directory: Seq<char>,
    pub path: Seq<char>,
    pub content: Seq<char>,
}

impl View for OutputFile {
    type V = OutputModel;

    open spec fn view(&self) -> OutputModel {
        OutputModel {
            kind: self.kind,
            directory: self.directory@,
            path: self.path@,
            content: self.content@,
        }
    }
}

impl DeepView for OutputFile {
    type V = OutputModel;

    open spec fn deep_view(&self) -> OutputModel {
        self.view()
    }
}

/// What is to be done for one input file.
#[derive(Debug)]
pub enum FilePlan {
    /// Nothing: the file could not be read, or is as it was when last seen.
    Skip,
    /// Remove each of `stale` that exists, then fail: the file is not UTF-8.
    Undecodable { stale: Vec<String> },
    /// Remove each of `stale` that exists, then write `outputs` in order.
    Rebuild { stale: Vec<String>, outputs: Vec<OutputFile> },
}

/// The mathematical value of a `FilePlan`.
pub enum PlanModel {
    Skip,
    Undecodable { stale: Seq<Seq<char>> },
    Rebuild { stale: Seq<Seq<char>>, outputs: Seq<OutputModel> },
}

impl View for FilePlan {
    type V = PlanModel;

    open spec fn view(&self) -> PlanModel {
        match self {
            FilePlan::Skip => PlanModel::Skip,
            FilePlan::Undecodable { stale } => PlanModel::Undecodable { stale: stale.deep_view() },
            FilePlan::Rebuild { stale, outputs } => PlanModel::Rebuild {
                stale: stale.deep_view(),
                outputs: outputs.deep_view(),
            },
        }
    }
}

/// What replaces `.cs` in the name of an input file.
pub open spec fn artifact_extension(kind: ArtifactKind) -> Seq<char> {
    match kind {
        ArtifactKind::Enum => ".ts"@,
        ArtifactKind::Schema => ".schema.ts"@,
    }
}

/// The name of the output file of kind `kind` for an input file named
/// `file_name`: every `.cs` in the name is replaced.
pub open spec fn output_name(file_name: Seq<char>, kind: ArtifactKind) -> Seq<char> {
    replaced(file_name, ".cs"@, artifact_extension(kind))
}

/// Where the outputs of one input go.
pub struct Destination {
    pub directory: Seq<char>,
    pub file_name: Seq<char>,
}

/// Where the outputs of `input_path` go; the path has a file name.
pub open spec fn destination(
    input_path: Seq<char>,
    input_root: Seq<char>,
    output_root: Seq<char>,
) -> Destination {
    Destination {
        directory: output_directory(input_path, input_root, output_root),
        file_name: path_file_name(input_path).unwrap(),
    }
}

/// The output file of `kind` with the given content.
pub open spec fn output_at(to: Destination, kind: ArtifactKind, content: Seq<char>) -> OutputModel {
    OutputModel {
        kind,
        directory: to.directory,
        path: path_join(to.directory, output_name(to.file_name, kind)),
        content,
    }
}

/// The output files of the enums, in order.
pub open spec fn enum_outputs(
    enums: Seq<EnumModel>,
    to: Destination,
    config: ConfigModel,
    timestamp: Seq<char>,
) -> Seq<OutputModel> {
    Seq::new(
        enums.len(),
        |i: int| output_at(to, ArtifactKind::Enum, typescript_text(enums[i], config, timestamp)),
    )
}

/// The output files of the records, in order.
pub open spec fn schema_outputs(
    dtos: Seq<DtoModel>,
    to: Destination,
    config: ConfigModel,
    timestamp: Seq<char>,
) -> Seq<OutputModel> {
    Seq::new(
        dtos.len(),
        |i: int| output_at(to, ArtifactKind::Schema, schema_text(dtos[i], config, timestamp)),
    )
}

/// The output files of a source text: those of its enums, then those of its records.
pub open spec fn outputs_of(
    content: Seq<char>,
    to: Destination,
    config: ConfigModel,
    timestamp: Seq<char>,
) -> Seq<OutputModel> {
    enum_outputs(parsed_enums(content), to, config, timestamp) + schema_outputs(
        parsed_dtos(content),
        to,
        config,
        timestamp,
    )
}

/// The name of the output file of kind `kind` for an input file named `file_name`.
pub fn output_name_for(file_name: &str, kind: ArtifactKind) -> (r: String)
    ensures
        r@ == output_name(file_name@, kind),
{
    match kind {
        ArtifactKind::Enum => replace(file_name, ".cs", ".ts"),
        ArtifactKind::Schema => replace(file_name, ".cs", ".schema.ts"),
    }
}

fn plan_enum_outputs(
    enums: &Vec<CSharpEnum>,
    directory: &String,
    path: &String,
    config: &Config,
    timestamp: &str,
    outputs: &mut Vec<OutputFile>,
)
    ensures
        final(outputs).deep_view() == old(outputs).deep_view() + Seq::new(
            enums.len() as nat,
            |i: int|
                OutputModel {
                    kind: ArtifactKind::Enum,
                    directory: directory@,
                    path: path@,
                    content: typescript_text(enums.deep_view()[i], config@, timestamp@),
                },
        ),
{
    let ghost before = outputs.deep_view();
    let mut i: usize = 0;
    while i < enums.len()
        invariant
            i <= enums.len(),
            outputs.len() == before.len() + i,
            forall|j: int| 0 <= j < before.len() ==> outputs.deep_view()[j] == before[j],
            forall|j: int|
                0 <= j < i ==> outputs.deep_view()[before.len() + j] == (OutputModel {
                    kind: ArtifactKind::Enum,
                    directory: directory@,
                    path: path@,
                    content: typescript_text(enums.deep_view()[j], config@, timestamp@),
                }),
        decreases enums.len() - i,
    {
        let ghost earlier = outputs.deep_view();
        let output = OutputFile {
            kind: ArtifactKind::Enum,
            directory: directory.clone(),
            path: path.clone(),
            content: enums[i].to_typescript(config, timestamp),
        };
        outputs.push(output);
        assert(outputs.deep_view() =~= earlier.push(output@));
        i += 1;
    }
    assert(outputs.deep_view() =~= before + Seq::new(
        enums.len() as nat,
        |i: int|
            OutputModel {
                kind: ArtifactKind::Enum,
                directory: directory@,
                path: path@,
                content: typescript_text(enums.deep_view()[i], config@, timestamp@),
            },
    ));
}

fn plan_schema_outputs(
    dtos: &Vec<CSharpDto>,
    directory: &String,
    path: &String,
    config: &Config,
    timestamp: &str,
    outputs: &mut Vec<OutputFile>,
)
    ensures
        final(outputs).deep_view() == old(outputs).deep_view() + Seq::new(
            dtos.len() as nat,
            |i: int|
                OutputModel {
                    kind: ArtifactKind::Schema,
                    directory: directory@,
                    path: path@,
                    content: schema_text(dtos.deep_view()[i], config@, timestamp@),
                },
        ),
{
    let ghost before = outputs.deep_view();
    let mut i: usize = 0;
    while i < dtos.len()
        invariant
            i <= dtos.len(),
            outputs.len() == before.len() + i,
            forall|j: int| 0 <= j < before.len() ==> outputs.deep_view()[j] == before[j],
            forall|j: int|
                0 <= j < i ==> outputs.deep_view()[before.len() + j] == (OutputModel {
                    kind: ArtifactKind::Schema,
                    directory: directory@,
                    path: path@,
                    content: schema_text(dtos.deep_view()[j], config@, timestamp@),
                }),
        decreases dtos.len() - i,
    {
        let ghost earlier = outputs.deep_view();
        let output = OutputFile {
            kind: ArtifactKind::Schema,
            directory: directory.clone(),
            path: path.clone(),
            content: dtos[i].to_zod_schema(config, timestamp),
        };
        outputs.push(output);
        assert(outputs.deep_view() =~= earlier.push(output@));
        i += 1;
    }
    assert(outputs.deep_view() =~= before + Seq::new(
        dtos.len() as nat,
        |i: int|
            OutputModel {
                kind: ArtifactKind::Schema,
                directory: directory@,
                path: path@,
                content: schema_text(dtos.deep_view()[i], config@, timestamp@),
            },
    ));
}

/// The output files of the source text `content`, stamped `timestamp`,
/// for an input file named `file_name` whose outputs go to `directory`.
pub fn plan_outputs(
    content: &str,
    directory: &str,
    file_name: &str,
    config: &Config,
    timestamp: &str,
) -> (outputs: Vec<OutputFile>)
    ensures
        outputs.deep_view() == outputs_of(
            content@,
            Destination { directory: directory@, file_name: file_name@ },
            config@,
            timestamp@,
        ),
{
    let ghost to = Destination { directory: directory@, file_name: file_name@ };
    let directory = directory.to_owned();
    let enum_name = output_name_for(file_name, ArtifactKind::Enum);
    let schema_name = output_name_for(file_name, ArtifactKind::Schema);
    let enum_path = join_paths(directory.as_str(), enum_name.as_str());
    let schema_path = join_paths(directory.as_str(), schema_name.as_str());
    let mut outputs: Vec<OutputFile> = Vec::new();
    assert(outputs.deep_view() =~= Seq::<OutputModel>::empty());
    match CSharpEnum::parse(content) {
        Ok(enums) => {
            plan_enum_outputs(&enums, &directory, &enum_path, config, timestamp, &mut outputs);
            assert(outputs.deep_view() =~= enum_outputs(
                parsed_enums(content@),
                to,
                config@,
                timestamp@,
            ));
        },
        Err(_) => {},
    }
    match CSharpDto::parse(content) {
        Ok(dtos) => {
            let ghost earlier = outputs.deep_view();
            plan_schema_outputs(&dtos, &directory, &schema_path, config, timestamp, &mut outputs);
            assert(outputs.deep_view() =~= earlier + schema_outputs(
                parsed_dtos(content@),
                to,
                config@,
                timestamp@,
            ));
        },
        Err(_) => {},
    }
    outputs
}


} // verus!
