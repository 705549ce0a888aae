//! The incremental engine: which inputs are rebuilt, where their outputs
//! go, and which earlier outputs are removed first.
//!
//! The engine touches no file and reads no clock. It is handed what was
//! read and the time of generation, and answers with a plan of what to
//! remove and what to write; the caller carries the plan out and reports
//! each file it has written.

use crate::config::{Config, ConfigModel};
use crate::dto::parsed_dtos;
use crate::enums::parsed_enums;
use crate::paths::{
    file_name_of, input_root, input_root_for, output_directory_for, path_file_name,
    relative_output_path, relative_output_path_for,
};
use crate::plan::{
    destination, outputs_of, plan_outputs, ArtifactKind, FilePlan, OutputFile, OutputModel,
    PlanModel,
};
use crate::table::PathTable;
use vstd::prelude::*;
use vstd::slice::*;
use vstd::string::*;
use vstd::utf8::*;

verus! {

/// How many files were processed and skipped, and how many artifacts of
/// each kind were written.
#[derive(Debug)]
pub struct ProcessingStats {
    pub files_processed: usize,
    pub enums_generated: usize,
    pub schemas_generated: usize,
    pub files_skipped: usize,
}

impl Default for ProcessingStats {
    fn default() -> (r: ProcessingStats)
        ensures
            r == (ProcessingStats {
                files_processed: 0,
                enums_generated: 0,
                schemas_generated: 0,
                files_skipped: 0,
            }),
    {
        ProcessingStats {
            files_processed: 0,
            enums_generated: 0,
            schemas_generated: 0,
            files_skipped: 0,
        }
    }
}

/// What `seahash::hash` returns for the bytes.
pub uninterp spec fn seahash(bytes: Seq<u8>) -> u64;

/// Calls `seahash::hash`. Trusted: that the hash is a function of the bytes.
#[verifier::external_body]
pub(crate) fn content_hash(bytes: &[u8]) -> (hash: u64)
    ensures
        hash == seahash(bytes@),
{
    seahash::hash(bytes)
}

/// Calls `std::str::from_utf8`. Trusted: that it returns the bytes as a
/// string where they are valid UTF-8, and fails where they are not.
#[verifier::external_body]
pub(crate) fn decode(bytes: &[u8]) -> (text: Option<&str>)
    ensures
        text is Some <==> valid_utf8(bytes@),
        text matches Some(s) ==> s.spec_bytes() == bytes@,
{
    std::str::from_utf8(bytes).ok()
}

/// The mathematical value of a `FileProcessor`.
pub struct ProcessorModel {
    /// The hash of each input as it was when last processed.
    pub hashes: Map<Seq<char>, u64>,
    /// The outputs written for each input, in the order they were written.
    pub outputs: Map<Seq<char>, Seq<Seq<char>>>,
    pub stats: ProcessingStats,
}

impl ProcessorModel {
    /// The outputs registered for `input`; none for an input without an entry.
    pub open spec fn registered(self, input: Seq<char>) -> Seq<Seq<char>> {
        if self.outputs.contains_key(input) {
            self.outputs[input]
        } else {
            Seq::empty()
        }
    }

    /// Whether an input with this hash is to be processed: it is, unless
    /// the same hash is recorded for it.
    pub open spec fn is_changed(self, path: Seq<char>, hash: u64) -> bool {
        !(self.hashes.contains_key(path) && self.hashes[path] == hash)
    }

    /// Whether an input with this content is to be processed. One that
    /// could not be read is not.
    pub open spec fn admits(self, path: Seq<char>, content: Option<Seq<u8>>) -> bool {
        match content {
            Some(bytes) => self.is_changed(path, seahash(bytes)),
            None => false,
        }
    }

    /// The engine once `hash` is recorded for `path`.
    pub open spec fn with_hash(self, path: Seq<char>, hash: u64) -> ProcessorModel {
        ProcessorModel { hashes: self.hashes.insert(path, hash), ..self }
    }

    /// The engine once it has decided whether `path` with this hash is to
    /// be processed: a changed hash is recorded.
    pub open spec fn after_hash(self, path: Seq<char>, hash: u64) -> ProcessorModel {
        if self.is_changed(path, hash) {
            self.with_hash(path, hash)
        } else {
            self
        }
    }

    /// The engine once it has decided whether `path` with this content is
    /// to be processed.
    pub open spec fn after_check(self, path: Seq<char>, content: Option<Seq<u8>>) -> ProcessorModel {
        match content {
            Some(bytes) => self.after_hash(path, seahash(bytes)),
            None => self,
        }
    }

    /// The engine once `output` is registered for `input`, behind the
    /// outputs that were registered for it before.
    pub open spec fn with_output(self, input: Seq<char>, output: Seq<char>) -> ProcessorModel {
        ProcessorModel {
            outputs: self.outputs.insert(input, self.registered(input).push(output)),
            ..self
        }
    }

    /// The engine once one more artifact of `kind` is counted.
    pub open spec fn counting(self, kind: ArtifactKind) -> ProcessorModel {
        ProcessorModel {
            stats: match kind {
                ArtifactKind::Enum => ProcessingStats {
                    enums_generated: (self.stats.enums_generated + 1) as usize,
                    ..self.stats
                },
                ArtifactKind::Schema => ProcessingStats {
                    schemas_generated: (self.stats.schemas_generated + 1) as usize,
                    ..self.stats
                },
            },
            ..self
        }
    }

    /// The engine once the writing of `output` for `input` is recorded.
    pub open spec fn after_output(self, input: Seq<char>, output: OutputModel) -> ProcessorModel {
        self.with_output(input, output.path).counting(output.kind)
    }

    /// The engine once it has planned for `path` with this content: the
    /// file counts as processed or as skipped, and a changed hash is recorded.
    pub open spec fn after_plan(self, path: Seq<char>, content: Option<Seq<u8>>) -> ProcessorModel {
        let checked = self.after_check(path, content);
        ProcessorModel {
            stats: if self.admits(path, content) {
                ProcessingStats {
                    files_processed: (self.stats.files_processed + 1) as usize,
                    ..self.stats
                }
            } else {
                ProcessingStats {
                    files_skipped: (self.stats.files_skipped + 1) as usize,
                    ..self.stats
                }
            },
            ..checked
        }
    }

    /// The plan for the input `input_path` with this content, its outputs
    /// stamped `timestamp`.
    pub open spec fn plan(
        self,
        input_path: Seq<char>,
        input_root: Seq<char>,
        output_root: Seq<char>,
        config: ConfigModel,
        content: Option<Seq<u8>>,
        timestamp: Seq<char>,
    ) -> PlanModel {
        if !self.admits(input_path, content) {
            PlanModel::Skip
        } else if !valid_utf8(content.unwrap()) {
            PlanModel::Undecodable { stale: self.registered(input_path) }
        } else {
            PlanModel::Rebuild {
                stale: self.registered(input_path),
                outputs: outputs_of(
                    decode_utf8(content.unwrap()),
                    destination(input_path, input_root, output_root),
                    config,
                    timestamp,
                ),
            }
        }
    }
}

/// The engine's state: the hash of each input when it was last processed,
/// the outputs written for each input, and the counters.
#[derive(Debug)]
pub struct FileProcessor {
    file_hashes: PathTable<u64>,
    file_mapping: PathTable<Vec<String>>,
    pub stats: ProcessingStats,
}

impl View for FileProcessor {
    type V = ProcessorModel;

    closed spec fn view(&self) -> ProcessorModel {
        ProcessorModel {
            hashes: self.file_hashes@,
            outputs: self.file_mapping@.map_values(|paths: Vec<String>| paths.deep_view()),
            stats: self.stats,
        }
    }
}

impl ProcessorModel {
    /// An engine that has seen nothing.
    pub open spec fn fresh() -> ProcessorModel {
        ProcessorModel {
            hashes: Map::empty(),
            outputs: Map::empty(),
            stats: ProcessingStats {
                files_processed: 0,
                enums_generated: 0,
                schemas_generated: 0,
                files_skipped: 0,
            },
        }
    }
}

/// The bytes that reading a file gave, if it could be read.
pub open spec fn bytes_read(content: Option<&[u8]>) -> Option<Seq<u8>> {
    match content {
        Some(bytes) => Some(bytes@),
        None => None,
    }
}

fn clone_paths(paths: &Vec<String>) -> (r: Vec<String>)
    ensures
        r.deep_view() == paths.deep_view(),
{
    let mut r: Vec<String> = Vec::new();
    let mut i: usize = 0;
    while i < paths.len()
        invariant
            i <= paths.len(),
            r.len() == i,
            forall|j: int| 0 <= j < i ==> r@[j]@ == paths@[j]@,
        decreases paths.len() - i,
    {
        r.push(paths[i].clone());
        i += 1;
    }
    assert(r.deep_view() =~= paths.deep_view());
    r
}

impl FileProcessor {
    /// An engine that has seen nothing.
    pub fn new() -> (processor: Self)
        ensures
            processor@ == ProcessorModel::fresh(),
    {
        let processor = FileProcessor {
            file_hashes: PathTable::new(),
            file_mapping: PathTable::new(),
            stats: ProcessingStats::default(),
        };
        assert(processor@.outputs =~= Map::empty());
        processor
    }

    /// The counters.
    pub fn counters(&self) -> (r: &ProcessingStats)
        ensures
            *r == self@.stats,
    {
        &self.stats
    }

    /// Whether the input `path`, whose content has the hash `hash`, is to
    /// be processed: it is, unless that hash is recorded for it. A changed
    /// hash is recorded.
    pub fn should_process_hash(&mut self, path: &str, hash: u64) -> (r: bool)
        ensures
            r == old(self)@.is_changed(path@, hash),
            final(self)@ == old(self)@.after_hash(path@, hash),
    {
        let unchanged = match self.file_hashes.get(path) {
            Some(recorded) => *recorded == hash,
            None => false,
        };
        if unchanged {
            return false;
        }
        let mut table: PathTable<u64> = PathTable::new();
        core::mem::swap(&mut self.file_hashes, &mut table);
        self.file_hashes = table.with(path.to_owned(), hash);
        true
    }

    /// Whether the input `path` is to be processed, given what reading it
    /// gave: a file that could not be read is not, and nothing changes; a
    /// file that was read is, unless its hash is the one recorded for it.
    pub fn should_process_file(&mut self, path: &str, content: Option<&[u8]>) -> (r: bool)
        ensures
            r == old(self)@.admits(path@, bytes_read(content)),
            final(self)@ == old(self)@.after_check(path@, bytes_read(content)),
    {
        match content {
            Some(bytes) => {
                let hash = content_hash(bytes);
                self.should_process_hash(path, hash)
            },
            None => false,
        }
    }

    /// Registers `output` as written for `input`, behind the outputs that
    /// were registered for it before.
    pub fn register_output(&mut self, input: String, output: String)
        ensures
            final(self)@ == old(self)@.with_output(input@, output@),
    {
        let mut paths = match self.file_mapping.get(input.as_str()) {
            Some(known) => clone_paths(known),
            None => Vec::new(),
        };
        let ghost before = paths.deep_view();
        assert(before =~= old(self)@.registered(input@));
        paths.push(output);
        assert(paths.deep_view() =~= before.push(output@));
        let mut table: PathTable<Vec<String>> = PathTable::new();
        core::mem::swap(&mut self.file_mapping, &mut table);
        self.file_mapping = table.with(input, paths);
        assert(self@.outputs =~= old(self)@.outputs.insert(input@, before.push(output@)));
    }

    /// The outputs registered for `input`, if it has an entry.
    pub fn get_outputs_for_input(&self, input: &str) -> (r: Option<&Vec<String>>)
        ensures
            match r {
                Some(paths) => self@.outputs.contains_key(input@) && paths.deep_view()
                    == self@.outputs[input@],
                None => !self@.outputs.contains_key(input@),
            },
    {
        self.file_mapping.get(input)
    }

    /// The outputs to remove before `input` is rebuilt: every output
    /// registered for it. The caller removes those that exist.
    pub fn cleanup_outputs(&self, input: &str) -> (stale: Vec<String>)
        ensures
            stale.deep_view() == self@.registered(input@),
    {
        match self.get_outputs_for_input(input) {
            Some(paths) => clone_paths(paths),
            None => {
                let stale: Vec<String> = Vec::new();
                assert(stale.deep_view() =~= Seq::<Seq<char>>::empty());
                stale
            },
        }
    }

    /// The input's place under the output root.
    pub fn get_relative_output_path(
        &self,
        input_path: &str,
        input_root: &str,
        output_root: &str,
    ) -> (r: String)
        ensures
            r@ == relative_output_path(input_path@, input_root@, output_root@),
    {
        relative_output_path_for(input_path, input_root, output_root)
    }

    /// Records that `output` was written for `input`: the output is
    /// registered and counted.
    pub fn record_output(&mut self, input: &str, output: &OutputFile)
        requires
            output.kind == ArtifactKind::Enum ==> old(self)@.stats.enums_generated < usize::MAX,
            output.kind == ArtifactKind::Schema ==> old(self)@.stats.schemas_generated
                < usize::MAX,
        ensures
            final(self)@ == old(self)@.after_output(input@, output@),
    {
        self.register_output(input.to_owned(), output.path.clone());
        match output.kind {
            ArtifactKind::Enum => {
                self.stats.enums_generated += 1;
            },
            ArtifactKind::Schema => {
                self.stats.schemas_generated += 1;
            },
        }
    }
}


impl FileProcessor {
    /// Plans what is to be done for the input `input_path`, given what
    /// reading it gave, with `timestamp` for the headers of its outputs.
    ///
    /// A file that could not be read, or whose content has the hash
    /// recorded for it, is skipped. Any other file counts as processed, its
    /// hash is recorded, and every output registered for it is to be
    /// removed; then its enums and its records are to be written, enums
    /// first. No output is registered here: see `record_output`.
    pub fn process_file(
        &mut self,
        input_path: &str,
        input_root: &str,
        output_root: &str,
        config: &Config,
        content: Option<&[u8]>,
        timestamp: &str,
    ) -> (plan: FilePlan)
        requires
            path_file_name(input_path@) is Some,
            old(self)@.stats.files_processed < usize::MAX,
            old(self)@.stats.files_skipped < usize::MAX,
        ensures
            plan@ == old(self)@.plan(
                input_path@,
                input_root@,
                output_root@,
                config@,
                bytes_read(content),
                timestamp@,
            ),
            final(self)@ == old(self)@.after_plan(input_path@, bytes_read(content)),
    {
        broadcast use encode_utf8_decode_utf8;

        if !self.should_process_file(input_path, content) {
            self.stats.files_skipped += 1;
            return FilePlan::Skip;
        }
        self.stats.files_processed += 1;
        let stale = self.cleanup_outputs(input_path);
        let bytes = match content {
            Some(bytes) => bytes,
            None => {
                return FilePlan::Skip;
            },
        };
        match decode(bytes) {
            None => FilePlan::Undecodable { stale },
            Some(text) => {
                let directory = output_directory_for(input_path, input_root, output_root);
                let file_name = match file_name_of(input_path) {
                    Some(name) => name,
                    None => String::new(),
                };
                let outputs = plan_outputs(
                    text,
                    directory.as_str(),
                    file_name.as_str(),
                    config,
                    timestamp,
                );
                FilePlan::Rebuild { stale, outputs }
            },
        }
    }
}

/// Plans what is to be done for the single input file `input_path`, given
/// what reading it gave, with `timestamp` for the headers of its outputs.
/// Its outputs are placed against the configured input directory, or else
/// the parent of the path. For a path without a file name there is no
/// plan, and nothing changes.
pub fn process_single_file(
    processor: &mut FileProcessor,
    input_path: &str,
    output_dir: &str,
    config: &Config,
    content: Option<&[u8]>,
    timestamp: &str,
) -> (plan: Option<FilePlan>)
    requires
        old(processor)@.stats.files_processed < usize::MAX,
        old(processor)@.stats.files_skipped < usize::MAX,
    ensures
        path_file_name(input_path@) is None ==> plan is None && final(processor)@ == old(
            processor,
        )@,
        path_file_name(input_path@) is Some ==> plan is Some && final(processor)@ == old(
            processor,
        )@.after_plan(input_path@, bytes_read(content)) && plan.unwrap()@ == old(
            processor,
        )@.plan(
            input_path@,
            input_root(config@, input_path@),
            output_dir@,
            config@,
            bytes_read(content),
            timestamp@,
        ),
{
    match file_name_of(input_path) {
        None => None,
        Some(_) => {
            let root = input_root_for(config, input_path);
            Some(
                processor.process_file(
                    input_path,
                    root.as_str(),
                    output_dir,
                    config,
                    content,
                    timestamp,
                ),
            )
        },
    }
}


/// The paths that a list of outputs writes.
pub open spec fn written_paths(outputs: Seq<OutputModel>) -> Set<Seq<char>> {
    Set::new(|path: Seq<char>| exists|i: int| 0 <= i < outputs.len() && outputs[i].path == path)
}

/// The files that exist once a plan is carried out on the files `disk`:
/// what is stale is removed, then the outputs are written.
pub open spec fn disk_after(disk: Set<Seq<char>>, plan: PlanModel) -> Set<Seq<char>> {
    match plan {
        PlanModel::Skip => disk,
        PlanModel::Undecodable { stale } => disk.difference(stale.to_set()),
        PlanModel::Rebuild { stale, outputs } => disk.difference(stale.to_set()).union(
            written_paths(outputs),
        ),
    }
}

/// An input that is processed, and then seen again with the same content,
/// is rebuilt the first time and skipped the second: the first plan is no
/// skip and counts one file as processed, the second plan is a skip,
/// counts one file as skipped and changes nothing else.
pub proof fn law_unchanged_input_is_skipped(
    engine: ProcessorModel,
    input_path: Seq<char>,
    input_root: Seq<char>,
    output_root: Seq<char>,
    config: ConfigModel,
    bytes: Seq<u8>,
    first_time: Seq<char>,
    second_time: Seq<char>,
)
    requires
        engine.is_changed(input_path, seahash(bytes)),
        engine.stats.files_processed < usize::MAX,
        engine.stats.files_skipped < usize::MAX,
    ensures
        ({
            let first = engine.plan(
                input_path,
                input_root,
                output_root,
                config,
                Some(bytes),
                first_time,
            );
            let between = engine.after_plan(input_path, Some(bytes));
            let second = between.plan(
                input_path,
                input_root,
                output_root,
                config,
                Some(bytes),
                second_time,
            );
            let after = between.after_plan(input_path, Some(bytes));
            &&& !(first is Skip)
            &&& valid_utf8(bytes) ==> first is Rebuild && first->outputs.len() == parsed_enums(
                decode_utf8(bytes),
            ).len() + parsed_dtos(decode_utf8(bytes)).len()
            &&& between.stats.files_processed == engine.stats.files_processed + 1
            &&& between.stats.files_skipped == engine.stats.files_skipped
            &&& second is Skip
            &&& after.stats.files_processed == between.stats.files_processed
            &&& after.stats.files_skipped == between.stats.files_skipped + 1
            &&& after.hashes == between.hashes
            &&& after.outputs == between.outputs
        }),
{
}

/// Once the plan for an input is carried out, no output that was
/// registered for the input exists unless the plan wrote it.
pub proof fn law_cleanup_before_rewrite(
    engine: ProcessorModel,
    disk: Set<Seq<char>>,
    input_path: Seq<char>,
    input_root: Seq<char>,
    output_root: Seq<char>,
    config: ConfigModel,
    content: Option<Seq<u8>>,
    timestamp: Seq<char>,
)
    requires
        engine.admits(input_path, content),
    ensures
        ({
            let plan = engine.plan(
                input_path,
                input_root,
                output_root,
                config,
                content,
                timestamp,
            );
            forall|path: Seq<char>|
                #![trigger disk_after(disk, plan).contains(path)]
                engine.registered(input_path).contains(path) && disk_after(disk, plan).contains(
                    path,
                ) ==> plan is Rebuild && written_paths(plan->outputs).contains(path)
        }),
{
    let plan = engine.plan(input_path, input_root, output_root, config, content, timestamp);
    assert forall|path: Seq<char>|
        engine.registered(input_path).contains(path) && #[trigger] disk_after(disk, plan).contains(
            path,
        ) implies plan is Rebuild && written_paths(plan->outputs).contains(path) by {
        assert(engine.registered(input_path).to_set().contains(path));
    }
}

} // verus!
