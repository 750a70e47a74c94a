use serde_spline::rig::export::{self, resolve_animation_output, Format};
use serde_spline::rig::import::{self, get_rel_path, is_animation_extension};
use serde_spline::rig::{output_path, Output, PathKind, RigError};

#[test]
fn resolve_animation_output_uses_input_name_for_single_animation_directory() {
    let input = "animations/idle.hkx";
    let output = Output::Directory("output".to_string());

    let result = resolve_animation_output(input, None, &output, Format::Fbx).unwrap();

    assert_eq!(result, "output/idle.fbx");
}

#[test]
fn resolve_animation_output_preserves_directory_structure() {
    let input = "animations/actors/human/idle.hkx";
    let root = "animations";
    let output = Output::Directory("output".to_string());

    let result = resolve_animation_output(input, Some(root), &output, Format::Fbx).unwrap();

    assert_eq!(result, "output/actors/human/idle.fbx");
}

#[test]
fn resolve_animation_output_uses_explicit_file_unchanged() {
    let input = "animations/idle.hkx";
    let output = Output::File("custom.animation".to_string());

    let result = resolve_animation_output(input, None, &output, Format::Fbx).unwrap();

    assert_eq!(result, "custom.animation");
}

#[test]
fn resolve_output_allows_arbitrary_file_extension() {
    let output = "custom_animation.any";

    let result = export::resolve_output(Some(output), 1, false, Format::Kf, PathKind::Missing).unwrap();

    assert_eq!(result, Output::File(output.to_string()));
}

#[test]
fn resolve_output_requires_directory_for_json() {
    let output = "animation.json";

    let result = export::resolve_output(Some(output), 1, false, Format::Json, PathKind::Missing).unwrap();

    assert_eq!(result, Output::Directory(output.to_string()));
}

#[test]
fn is_animation_extension_accepts_kf() {
    assert!(is_animation_extension("idle.kf"));
    assert!(is_animation_extension("idle.KF"));
}

#[test]
fn is_animation_extension_accepts_fbx() {
    assert!(is_animation_extension("idle.fbx"));
    assert!(is_animation_extension("idle.FBX"));
}

#[test]
fn is_animation_extension_accepts_json() {
    assert!(is_animation_extension("idle.json"));
    assert!(is_animation_extension("idle.JSON"));
}

#[test]
fn is_animation_extension_rejects_unknown_extension() {
    assert!(!is_animation_extension("idle.hkx"));
    assert!(!is_animation_extension("idle.txt"));
}

#[test]
fn get_rel_path_uses_exact_output_for_single_file() {
    let input = "animations/idle.kf";
    let output = "custom.animation";

    let result = get_rel_path(input, None, output, "hkx").unwrap();

    assert_eq!(result, "custom.animation");
}

#[test]
fn get_rel_path_preserves_directory_structure() {
    let input = "animations/actors/human/idle.kf";
    let root = "animations";
    let output = "output";

    let result = get_rel_path(input, Some(root), output, "xml").unwrap();

    assert_eq!(result, "output/actors/human/idle.xml");
}

#[test]
fn get_rel_path_changes_json_extension_to_hkx() {
    let input = "animations/actors/human/idle.json";
    let root = "animations";
    let output = "output";

    let result = get_rel_path(input, Some(root), output, "hkx").unwrap();

    assert_eq!(result, "output/actors/human/idle.hkx");
}

#[test]
fn get_rel_path_rejects_path_outside_root() {
    let input = "other/idle.kf";
    let root = "animations";
    let output = "output";

    let result = get_rel_path(input, Some(root), output, "hkx");

    assert!(result.is_err());
}

#[test]
fn resolve_output_allows_arbitrary_single_file_extension() {
    let output = "custom.animation";

    let result = import::resolve_output(Some(output), 1, false, PathKind::Missing).unwrap();

    assert_eq!(result, Output::File(output.to_string()));
}

#[test]
fn resolve_output_uses_directory_for_multiple_files() {
    let output = "custom.animation";

    let result = import::resolve_output(Some(output), 2, false, PathKind::Missing).unwrap();

    assert_eq!(result, Output::Directory(output.to_string()));
}

#[test]
fn output_path_defaults_to_output_directory() {
    assert_eq!(output_path(None), "output");
    assert_eq!(output_path(Some("out")), "out");
}

#[test]
fn resolve_output_existing_file_serves_one_animation_only() {
    let result = import::resolve_output(Some("a.kf"), 2, false, PathKind::File);
    assert_eq!(result, Err(RigError::FileForMultipleAnimations));
    let result = import::resolve_output(Some("a.kf"), 1, false, PathKind::File);
    assert_eq!(result, Ok(Output::File("a.kf".to_string())));
}

#[test]
fn resolve_output_existing_directory_is_used() {
    let result = export::resolve_output(None, 1, false, Format::Kf, PathKind::Directory);
    assert_eq!(result, Ok(Output::Directory("output".to_string())));
}

#[test]
fn resolve_output_rejects_other_kinds_of_path() {
    let result = export::resolve_output(Some("fifo"), 1, false, Format::Fbx, PathKind::Other);
    assert_eq!(result, Err(RigError::NotFileOrDirectory("fifo".to_string())));
}

#[test]
fn resolve_output_json_rejects_existing_file() {
    let result = export::resolve_output(Some("a.json"), 1, false, Format::Json, PathKind::File);
    assert_eq!(result, Err(RigError::JsonRequiresDirectory));
}

#[test]
fn resolve_output_directory_input_gives_directory() {
    let result = export::resolve_output(Some("out"), 1, true, Format::Kf, PathKind::Missing);
    assert_eq!(result, Ok(Output::Directory("out".to_string())));
}

#[test]
fn resolve_animation_output_rejects_path_outside_root() {
    let output = Output::Directory("output".to_string());
    let result = resolve_animation_output("other/idle.hkx", Some("animations"), &output, Format::Kf);
    assert_eq!(result, Err(RigError::NotRelativeToRoot("other/idle.hkx".to_string())));
}

#[test]
fn resolve_animation_output_uses_format_extension() {
    let output = Output::Directory("out".to_string());
    assert_eq!(resolve_animation_output("a/idle.hkx", None, &output, Format::Kf).unwrap(), "out/idle.kf");
    assert_eq!(resolve_animation_output("a/idle.hkx", None, &output, Format::FbxAscii).unwrap(), "out/idle.fbx");
    assert_eq!(resolve_animation_output("a/idle.hkx", None, &output, Format::Json).unwrap(), "out/idle.json");
}

#[test]
fn format_extensions() {
    assert_eq!(Format::Kf.extension(), "kf");
    assert_eq!(Format::Fbx.extension(), "fbx");
    assert_eq!(Format::FbxAscii.extension(), "fbx");
    assert_eq!(Format::Json.extension(), "json");
}

#[test]
fn is_animation_extension_needs_an_extension() {
    assert!(!is_animation_extension("kf"));
    assert!(is_animation_extension("dir.d/idle.Kf"));
}
