use veryl::cmd_metadata::{CmdMetadata, Format as OutputFormat, OptMetadata};
use veryl::metadata::{
    default_indent_width, Build, ClockType, Dependency, FilelistType, Format, Metadata,
    MetadataError, Project, ResetType, Target, Version,
};

fn metadata_named(name: &str, license: Option<&str>) -> Metadata {
    Metadata {
        project: Project {
            name: name.to_string(),
            version: Version {
                major: 0,
                minor: 1,
                patch: 0,
                pre: String::new(),
                build: String::new(),
            },
            authors: vec![],
            description: None,
            license: license.map(|l| l.to_string()),
            repository: None,
        },
        build: Build::default(),
        format: Format::default(),
        dependencies: vec![],
        metadata_path: String::new(),
    }
}

#[test]
fn check_accepts_identifier_names() {
    assert!(metadata_named("test", None).check().is_ok());
    assert!(metadata_named("abc_123", None).check().is_ok());
    assert!(metadata_named("_private", None).check().is_ok());
    assert!(metadata_named("A", None).check().is_ok());
}

#[test]
fn check_rejects_bad_names() {
    assert_eq!(
        metadata_named("1abc", None).check(),
        Err(MetadataError::InvalidProjectName("1abc".to_string())),
    );
    assert_eq!(
        metadata_named("", None).check(),
        Err(MetadataError::InvalidProjectName(String::new())),
    );
    assert_eq!(
        metadata_named("with space", None).check(),
        Err(MetadataError::InvalidProjectName("with space".to_string())),
    );
    assert_eq!(
        metadata_named("dash-ed", None).check(),
        Err(MetadataError::InvalidProjectName("dash-ed".to_string())),
    );
}

#[test]
fn check_validates_license_expressions() {
    assert!(metadata_named("test", Some("MIT")).check().is_ok());
    assert!(metadata_named("test", Some("MIT OR Apache-2.0")).check().is_ok());
    match metadata_named("test", Some("not a license !!!")).check() {
        Err(MetadataError::InvalidLicense(_)) => {},
        other => panic!("expected an invalid-license error, got {:?}", other),
    }
    // The name is checked before the license.
    assert_eq!(
        metadata_named("1abc", Some("not a license !!!")).check(),
        Err(MetadataError::InvalidProjectName("1abc".to_string())),
    );
}

#[test]
fn defaults_match_the_manifest_schema() {
    assert_eq!(default_indent_width(), 4);
    assert_eq!(Format::default().indent_width, 4);
    let build = Build::default();
    assert_eq!(build.clock_type, ClockType::PosEdge);
    assert_eq!(build.reset_type, ResetType::AsyncLow);
    assert_eq!(build.filelist_type, FilelistType::Absolute);
    assert_eq!(build.target, Target::Source);
    assert_eq!(ClockType::default(), ClockType::PosEdge);
    assert_eq!(ResetType::default(), ResetType::AsyncLow);
    assert_eq!(FilelistType::default(), FilelistType::Absolute);
    assert_eq!(Target::default(), Target::Source);
}

#[test]
fn dependency_entries_hold_plain_values() {
    let dep = Dependency {
        git: Some("https://example.invalid/repo.git".to_string()),
        rev: None,
        tag: Some("v0.1.0".to_string()),
        branch: None,
    };
    let mut m = metadata_named("test", None);
    m.dependencies.push(("lib".to_string(), dep.clone()));
    assert!(m.check().is_ok());
    assert_eq!(m.dependencies[0].1, dep);
}

#[test]
fn cmd_metadata_keeps_its_options() {
    let cmd = CmdMetadata::new(OptMetadata { format: OutputFormat::Json });
    assert_eq!(cmd.output_format(), OutputFormat::Json);
    let cmd = CmdMetadata::new(OptMetadata { format: OutputFormat::Pretty });
    assert_eq!(cmd.output_format(), OutputFormat::Pretty);
}
