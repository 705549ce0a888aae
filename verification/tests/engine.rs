use cs2ts::config::Config;
use cs2ts::paths::{
    input_root_for, input_root_from, output_directory_for, parent_or_root, relative_or_whole,
    relative_output_path_for,
};
use cs2ts::plan::{output_name_for, plan_outputs, ArtifactKind, FilePlan, OutputFile};
use cs2ts::processor::{process_single_file, FileProcessor};

const STAMP: &str = "2024-01-02 03:04:05";

fn output(kind: ArtifactKind, path: &str) -> OutputFile {
    OutputFile {
        kind,
        directory: "out".to_string(),
        path: path.to_string(),
        content: String::new(),
    }
}

#[test]
fn a_new_engine_has_seen_nothing() {
    let processor = FileProcessor::new();
    assert_eq!(processor.stats.files_processed, 0);
    assert_eq!(processor.stats.enums_generated, 0);
    assert_eq!(processor.stats.schemas_generated, 0);
    assert_eq!(processor.stats.files_skipped, 0);
    assert!(processor.get_outputs_for_input("in/A.cs").is_none());
    assert!(processor.cleanup_outputs("in/A.cs").is_empty());
}

#[test]
fn an_unreadable_file_is_not_processed() {
    let mut processor = FileProcessor::new();
    assert!(!processor.should_process_file("in/A.cs", None));
    assert!(processor.should_process_file("in/A.cs", Some(b"x")));
}

#[test]
fn an_unchanged_file_is_not_processed_again() {
    let mut processor = FileProcessor::new();
    assert!(processor.should_process_file("in/A.cs", Some(b"public enum A { X }")));
    assert!(!processor.should_process_file("in/A.cs", Some(b"public enum A { X }")));
    assert!(processor.should_process_file("in/B.cs", Some(b"public enum A { X }")));
    assert!(processor.should_process_file("in/A.cs", Some(b"public enum A { Y }")));
    assert!(!processor.should_process_file("in/A.cs", Some(b"public enum A { Y }")));
    assert!(processor.should_process_file("in/A.cs", Some(b"public enum A { X }")));
}

#[test]
fn the_hash_of_the_content_is_seahash() {
    let mut processor = FileProcessor::new();
    let content = b"public record A(int X);";
    assert!(processor.should_process_file("in/A.cs", Some(content)));
    assert!(!processor.should_process_hash("in/A.cs", seahash::hash(content)));
    assert!(processor.should_process_hash("in/A.cs", seahash::hash(content).wrapping_add(1)));
    let mut other = FileProcessor::new();
    assert!(other.should_process_hash("in/A.cs", seahash::hash(content)));
    assert!(!other.should_process_file("in/A.cs", Some(content)));
    assert!(other.should_process_file("in/A.cs", Some(b"")));
}

#[test]
fn an_empty_file_has_a_hash_of_its_own() {
    let mut processor = FileProcessor::new();
    assert!(processor.should_process_file("in/A.cs", Some(b"")));
    assert!(!processor.should_process_file("in/A.cs", Some(b"")));
    assert!(!processor.should_process_file("in/A.cs", None));
}

#[test]
fn outputs_are_registered_in_order() {
    let mut processor = FileProcessor::new();
    processor.register_output("in/A.cs".to_string(), "out/A.ts".to_string());
    processor.register_output("in/B.cs".to_string(), "out/B.ts".to_string());
    processor.register_output("in/A.cs".to_string(), "out/A.schema.ts".to_string());
    processor.register_output("in/A.cs".to_string(), "out/A.ts".to_string());
    assert_eq!(
        processor.get_outputs_for_input("in/A.cs"),
        Some(&vec!["out/A.ts".to_string(), "out/A.schema.ts".to_string(), "out/A.ts".to_string()])
    );
    assert_eq!(processor.get_outputs_for_input("in/B.cs"), Some(&vec!["out/B.ts".to_string()]));
    assert_eq!(processor.get_outputs_for_input("in/C.cs"), None);
    assert_eq!(processor.cleanup_outputs("in/A.cs"), vec!["out/A.ts", "out/A.schema.ts", "out/A.ts"]);
    assert!(processor.cleanup_outputs("in/C.cs").is_empty());
}

#[test]
fn recording_an_output_registers_and_counts_it() {
    let mut processor = FileProcessor::new();
    processor.record_output("in/A.cs", &output(ArtifactKind::Enum, "out/A.ts"));
    assert_eq!(processor.stats.enums_generated, 1);
    assert_eq!(processor.stats.schemas_generated, 0);
    processor.record_output("in/A.cs", &output(ArtifactKind::Schema, "out/A.schema.ts"));
    processor.record_output("in/B.cs", &output(ArtifactKind::Schema, "out/B.schema.ts"));
    assert_eq!(processor.stats.enums_generated, 1);
    assert_eq!(processor.stats.schemas_generated, 2);
    assert_eq!(processor.stats.files_processed, 0);
    assert_eq!(processor.cleanup_outputs("in/A.cs"), vec!["out/A.ts", "out/A.schema.ts"]);
}

#[test]
fn output_names_replace_the_extension() {
    assert_eq!(output_name_for("Color.cs", ArtifactKind::Enum), "Color.ts");
    assert_eq!(output_name_for("User.cs", ArtifactKind::Schema), "User.schema.ts");
    assert_eq!(output_name_for("a.cs.cs", ArtifactKind::Enum), "a.ts.ts");
    assert_eq!(output_name_for("Color.csx", ArtifactKind::Enum), "Color.tsx");
    assert_eq!(output_name_for("Color", ArtifactKind::Schema), "Color");
}

#[test]
fn outputs_mirror_the_input_tree() {
    let processor = FileProcessor::new();
    assert_eq!(processor.get_relative_output_path("in/sub/X.cs", "in", "out"), "out/sub/X.cs");
    assert_eq!(processor.get_relative_output_path("in/X.cs", "in", "out"), "out/X.cs");
    assert_eq!(processor.get_relative_output_path("in/X.cs", "in/", "out/"), "out/X.cs");
    assert_eq!(processor.get_relative_output_path("other/X.cs", "in", "out"), "out/other/X.cs");
    assert_eq!(processor.get_relative_output_path("/abs/X.cs", "in", "out"), "/abs/X.cs");
    assert_eq!(processor.get_relative_output_path("inner/X.cs", "in", "out"), "out/inner/X.cs");
}

#[test]
fn the_output_directory_is_the_parent_of_the_place() {
    assert_eq!(relative_output_path_for("in/sub/X.cs", "in", "out"), "out/sub/X.cs");
    assert_eq!(output_directory_for("in/sub/X.cs", "in", "out"), "out/sub");
    assert_eq!(output_directory_for("in/X.cs", "in", "out"), "out");
    assert_eq!(output_directory_for("X.cs", "", "out"), "out");
    assert_eq!(output_directory_for("X.cs", "", ""), "");
    assert_eq!(output_directory_for("/", "in", "out"), "out");
}

#[test]
fn path_parts_from_what_was_found() {
    assert_eq!(relative_or_whole(Some("sub/X.cs".to_string()), "in/sub/X.cs"), "sub/X.cs");
    assert_eq!(relative_or_whole(None, "in/sub/X.cs"), "in/sub/X.cs");
    assert_eq!(parent_or_root(Some("out/sub".to_string()), "out"), "out/sub");
    assert_eq!(parent_or_root(None, "out"), "out");
    assert_eq!(input_root_from(&Some("cfg".to_string()), Some("p".to_string())), "cfg");
    assert_eq!(input_root_from(&None, Some("p".to_string())), "p");
    assert_eq!(input_root_from(&None, None), "");
}

#[test]
fn the_input_root_is_configured_or_the_parent() {
    let mut config = Config::default();
    assert_eq!(input_root_for(&config, "in/sub/X.cs"), "in/sub");
    assert_eq!(input_root_for(&config, "X.cs"), "");
    assert_eq!(input_root_for(&config, "/"), "");
    config.input_dir = Some("in".to_string());
    assert_eq!(input_root_for(&config, "in/sub/X.cs"), "in");
}

#[test]
fn planned_outputs_are_enums_then_schemas() {
    let config = Config::default();
    let source = "public record A(int X);\npublic enum E { P }\npublic enum F { Q }\n";
    let outputs = plan_outputs(source, "out/sub", "M.cs", &config, STAMP);
    assert_eq!(outputs.len(), 3);
    assert_eq!(outputs[0].kind, ArtifactKind::Enum);
    assert_eq!(outputs[1].kind, ArtifactKind::Enum);
    assert_eq!(outputs[2].kind, ArtifactKind::Schema);
    assert_eq!(outputs[0].path, "out/sub/M.ts");
    assert_eq!(outputs[1].path, "out/sub/M.ts");
    assert_eq!(outputs[2].path, "out/sub/M.schema.ts");
    assert!(outputs.iter().all(|o| o.directory == "out/sub"));
    assert!(outputs[0].content.ends_with("export enum E {\n  P = 'P',\n}\n"));
    assert!(outputs[1].content.ends_with("export enum F {\n  Q = 'Q',\n}\n"));
    assert!(outputs[2].content.ends_with("export type A = z.infer<typeof ASchema>;\n"));
    assert!(outputs[2].content.contains(" * - File Type: Zod Schema\n"));
    assert!(outputs[0].content.contains(" * - File Type: Enum\n"));
    assert!(plan_outputs("nothing here", "out", "M.cs", &config, STAMP).is_empty());
}

#[test]
fn a_changed_file_is_rebuilt() {
    let mut processor = FileProcessor::new();
    let config = Config::default();
    let source = b"public enum Color { Red }";
    let plan = processor.process_file("in/sub/Color.cs", "in", "out", &config, Some(source), STAMP);
    match plan {
        FilePlan::Rebuild { stale, outputs } => {
            assert!(stale.is_empty());
            assert_eq!(outputs.len(), 1);
            assert_eq!(outputs[0].kind, ArtifactKind::Enum);
            assert_eq!(outputs[0].directory, "out/sub");
            assert_eq!(outputs[0].path, "out/sub/Color.ts");
            let e = &cs2ts::enums::CSharpEnum::parse("public enum Color { Red }").unwrap()[0];
            assert_eq!(outputs[0].content, e.to_typescript(&config, STAMP));
        }
        other => panic!("{:?}", other),
    }
    assert_eq!(processor.stats.files_processed, 1);
    assert_eq!(processor.stats.files_skipped, 0);
    assert_eq!(processor.stats.enums_generated, 0);
    assert!(processor.cleanup_outputs("in/sub/Color.cs").is_empty());
}

#[test]
fn processing_twice_rebuilds_once_and_skips_once() {
    let mut processor = FileProcessor::new();
    let config = Config::default();
    let source = b"public enum Color { Red }";
    let first = processor.process_file("in/Color.cs", "in", "out", &config, Some(source), STAMP);
    let written = match first {
        FilePlan::Rebuild { outputs, .. } => outputs,
        other => panic!("{:?}", other),
    };
    assert_eq!(written.len(), 1);
    for file in &written {
        processor.record_output("in/Color.cs", file);
    }
    assert_eq!(processor.stats.files_processed, 1);
    assert_eq!(processor.stats.files_skipped, 0);
    assert_eq!(processor.stats.enums_generated, 1);
    let second = processor.process_file("in/Color.cs", "in", "out", &config, Some(source), "later");
    assert!(matches!(second, FilePlan::Skip));
    assert_eq!(processor.stats.files_processed, 1);
    assert_eq!(processor.stats.files_skipped, 1);
    assert_eq!(processor.stats.enums_generated, 1);
    assert_eq!(processor.cleanup_outputs("in/Color.cs"), vec!["out/Color.ts"]);
}

#[test]
fn an_unreadable_file_is_skipped() {
    let mut processor = FileProcessor::new();
    let plan = processor.process_file("in/A.cs", "in", "out", &Config::default(), None, STAMP);
    assert!(matches!(plan, FilePlan::Skip));
    assert_eq!(processor.stats.files_skipped, 1);
    assert_eq!(processor.stats.files_processed, 0);
}

#[test]
fn earlier_outputs_are_removed_before_a_rebuild() {
    let mut processor = FileProcessor::new();
    let config = Config::default();
    let first = processor.process_file(
        "in/M.cs", "in", "out", &config, Some(b"public enum E { P }\npublic record A(int X);"), STAMP,
    );
    if let FilePlan::Rebuild { outputs, .. } = &first {
        for file in outputs {
            processor.record_output("in/M.cs", file);
        }
    }
    let second = processor.process_file(
        "in/M.cs", "in", "out", &config, Some(b"public record A(int X, int Y);"), STAMP,
    );
    match second {
        FilePlan::Rebuild { stale, outputs } => {
            assert_eq!(stale, vec!["out/M.ts", "out/M.schema.ts"]);
            assert_eq!(outputs.len(), 1);
            assert_eq!(outputs[0].path, "out/M.schema.ts");
        }
        other => panic!("{:?}", other),
    }
    assert_eq!(processor.stats.files_processed, 2);
}

#[test]
fn a_file_that_is_not_utf8_cannot_be_decoded() {
    let mut processor = FileProcessor::new();
    processor.register_output("in/A.cs".to_string(), "out/A.ts".to_string());
    let plan = processor.process_file(
        "in/A.cs", "in", "out", &Config::default(), Some(&[0x70, 0xff, 0xfe]), STAMP,
    );
    match plan {
        FilePlan::Undecodable { stale } => assert_eq!(stale, vec!["out/A.ts"]),
        other => panic!("{:?}", other),
    }
    assert_eq!(processor.stats.files_processed, 1);
    assert_eq!(processor.stats.files_skipped, 0);
    let again = processor.process_file(
        "in/A.cs", "in", "out", &Config::default(), Some(&[0x70, 0xff, 0xfe]), STAMP,
    );
    assert!(matches!(again, FilePlan::Skip));
}

#[test]
fn a_file_without_declarations_is_rebuilt_to_nothing() {
    let mut processor = FileProcessor::new();
    let plan = processor.process_file(
        "in/A.cs", "in", "out", &Config::default(), Some("// nichts, außer Text".as_bytes()), STAMP,
    );
    match plan {
        FilePlan::Rebuild { stale, outputs } => {
            assert!(stale.is_empty());
            assert!(outputs.is_empty());
        }
        other => panic!("{:?}", other),
    }
    assert_eq!(processor.stats.files_processed, 1);
}

#[test]
fn the_plan_stamps_every_output_with_the_given_time() {
    let mut processor = FileProcessor::new();
    let plan = processor.process_file(
        "in/A.cs", "in", "out", &Config::default(),
        Some(b"public enum E { P }\npublic record R(int X);"), "1999-12-31 23:59:59",
    );
    match plan {
        FilePlan::Rebuild { outputs, .. } => {
            assert_eq!(outputs.len(), 2);
            assert_eq!(outputs[0].path, "out/A.ts");
            assert_eq!(outputs[1].path, "out/A.schema.ts");
            for file in &outputs {
                assert!(file
                    .content
                    .starts_with("/**\n * Generated with UniTrackCodeGen at 1999-12-31 23:59:59\n"));
            }
            assert!(outputs[0].content.ends_with("export enum E {\n  P = 'P',\n}\n"));
        }
        other => panic!("{:?}", other),
    }
}

#[test]
fn a_single_file_is_placed_against_its_parent() {
    let mut processor = FileProcessor::new();
    let mut config = Config::default();
    let plan = process_single_file(
        &mut processor, "in/sub/A.cs", "out", &config, Some(b"public enum E { P }"), STAMP,
    );
    match plan {
        Some(FilePlan::Rebuild { outputs, .. }) => {
            assert_eq!(outputs[0].path, "out/A.ts");
            let e = &cs2ts::enums::CSharpEnum::parse("public enum E { P }").unwrap()[0];
            assert_eq!(outputs[0].content, e.to_typescript(&config, STAMP));
        }
        other => panic!("{:?}", other),
    }
    config.input_dir = Some("in".to_string());
    let plan = process_single_file(
        &mut processor, "in/sub/B.cs", "out", &config, Some(b"public enum E { P }"), STAMP,
    );
    match plan {
        Some(FilePlan::Rebuild { outputs, .. }) => assert_eq!(outputs[0].path, "out/sub/B.ts"),
        other => panic!("{:?}", other),
    }
    assert_eq!(processor.stats.files_processed, 2);
}

#[test]
fn a_path_without_a_file_name_has_no_plan() {
    let mut processor = FileProcessor::new();
    let config = Config::default();
    assert!(process_single_file(&mut processor, "..", "out", &config, Some(b"x"), STAMP).is_none());
    assert!(process_single_file(&mut processor, "/", "out", &config, None, STAMP).is_none());
    assert_eq!(processor.stats.files_processed, 0);
    assert_eq!(processor.stats.files_skipped, 0);
    assert!(processor.should_process_file("..", Some(b"x")));
}
