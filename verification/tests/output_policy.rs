use whashreonator::error::AppError;
use whashreonator::output_policy::{
    artifact_root_for_project, default_artifact_root, default_report_library_path,
    normalize_components, sanitize_segment, validate_artifact_output_path, BuildProfile,
};

#[test]
fn output_policy_rejects_src_tests_and_root_paths() {
    for profile in [BuildProfile::DebugLike, BuildProfile::Release] {
        assert!(validate_artifact_output_path("src/report.json", "/repo", profile).is_err());
        assert!(validate_artifact_output_path("tests/report.json", "/repo", profile).is_err());
        assert!(validate_artifact_output_path("report.json", "/repo", profile).is_err());
    }
}

#[test]
fn output_policy_accepts_profile_default_root() {
    for profile in [BuildProfile::DebugLike, BuildProfile::Release] {
        let path = match profile {
            BuildProfile::DebugLike => "out/report.json",
            BuildProfile::Release => "release/report.json",
        };
        assert!(validate_artifact_output_path(path, "/repo", profile).is_ok());
        assert!(matches!(default_artifact_root(profile), "out" | "release"));
    }
}

#[test]
fn artifact_root_for_release_does_not_duplicate_release_segment() {
    let root = artifact_root_for_project("D:/repo", BuildProfile::Release);
    let rendered = root.to_ascii_lowercase().replace('\\', "/");
    assert!(rendered.ends_with("/repo/release"));
    assert!(!rendered.contains("/release/release"));
}

#[test]
fn artifact_root_joins_once_after_trailing_slash() {
    assert_eq!(artifact_root_for_project("/repo/", BuildProfile::DebugLike), "/repo/out");
    assert_eq!(artifact_root_for_project("", BuildProfile::Release), "release");
}

#[test]
fn validation_messages_name_the_rule() {
    assert_eq!(
        validate_artifact_output_path("", "/repo", BuildProfile::DebugLike),
        Err(AppError::InvalidInput("artifact output path must not be empty".to_string()))
    );
    assert_eq!(
        validate_artifact_output_path("./.", "/repo", BuildProfile::DebugLike),
        Err(AppError::InvalidInput("artifact output path must not be empty".to_string()))
    );
    assert_eq!(
        validate_artifact_output_path("Src/a.json", "/repo", BuildProfile::DebugLike),
        Err(AppError::InvalidInput(
            "artifact output path Src/a.json is not allowed under Src".to_string()
        ))
    );
    assert_eq!(
        validate_artifact_output_path("out/a.json", "/repo", BuildProfile::Release),
        Err(AppError::InvalidInput(
            "release build artifacts must be written under release/, got out/a.json".to_string()
        ))
    );
    assert_eq!(
        validate_artifact_output_path("/repo/src/x.json", "/repo", BuildProfile::DebugLike),
        Err(AppError::InvalidInput(
            "artifact output path /repo/src/x.json is not allowed under source directories"
                .to_string()
        ))
    );
    assert!(validate_artifact_output_path("/tmp/x.json", "/repo", BuildProfile::DebugLike).is_ok());
    assert!(validate_artifact_output_path("/repo/srcx/y.json", "/repo", BuildProfile::DebugLike).is_ok());
    assert_eq!(
        validate_artifact_output_path("/tmp/x.json", "/repo", BuildProfile::Release),
        Err(AppError::InvalidInput(
            "release build artifacts must be written under release/, got /tmp/x.json".to_string()
        ))
    );
    assert!(validate_artifact_output_path("/repo/release/y.json", "/repo", BuildProfile::Release).is_ok());
}

#[test]
fn components_drop_empty_and_current_dir_pieces() {
    assert_eq!(
        normalize_components("./a//b/../c/"),
        vec!["a".to_string(), "b".to_string(), "..".to_string(), "c".to_string()]
    );
}

#[test]
fn sanitize_segment_replaces_unsafe_characters() {
    assert_eq!(sanitize_segment("2.4.0 beta/1"), "2.4.0_beta_1");
}

#[test]
fn output_paths_that_climb_with_parent_components_are_refused() {
    assert_eq!(
        validate_artifact_output_path("out/../src/report.json", "/repo", BuildProfile::DebugLike),
        Err(AppError::InvalidInput(
            "artifact output path out/../src/report.json must not climb out of a directory with `..`"
                .to_string()
        ))
    );
    assert!(validate_artifact_output_path("/repo/out/../src/x.json", "/repo", BuildProfile::DebugLike).is_err());
}

#[test]
fn absolute_paths_directly_in_the_project_root_are_refused() {
    assert_eq!(
        validate_artifact_output_path("/repo/report.json", "/repo", BuildProfile::DebugLike),
        Err(AppError::InvalidInput(
            "artifact output path /repo/report.json must be written under a dedicated directory, not the project root"
                .to_string()
        ))
    );
    assert!(validate_artifact_output_path("/repo/out/report.json", "/repo", BuildProfile::DebugLike).is_ok());
}

#[test]
fn backslash_separators_and_drive_letters_are_understood() {
    assert!(validate_artifact_output_path("out\\report.json", "D:/repo", BuildProfile::DebugLike).is_ok());
    assert!(validate_artifact_output_path("src\\report.json", "D:/repo", BuildProfile::DebugLike).is_err());
    assert!(validate_artifact_output_path("D:\\repo\\src\\x.json", "D:/repo", BuildProfile::DebugLike).is_err());
    assert!(validate_artifact_output_path("D:\\repo\\out\\x.json", "D:/repo", BuildProfile::DebugLike).is_ok());
    assert!(validate_artifact_output_path("C:x.json", "D:/repo", BuildProfile::DebugLike).is_err());
    assert!(validate_artifact_output_path("\\x.json", "D:/repo", BuildProfile::DebugLike).is_err());
    assert_eq!(normalize_components("a\\b/c"), vec!["a".to_string(), "b".to_string(), "c".to_string()]);
}
