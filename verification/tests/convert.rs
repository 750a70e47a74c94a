use serde_spline::rig::convert::{is_hkx_file, output_path, plan_outputs, OutputPlan, ResultCountMismatch};

fn names(v: &[&str]) -> Vec<String> {
    v.iter().map(|s| s.to_string()).collect()
}

#[test]
fn single_animation_outputs() {
    let anims = names(&["anims/idle.hkx"]);
    assert_eq!(
        plan_outputs(Some("out.fbx"), &anims, 1, "fbx"),
        Ok(OutputPlan { directory: None, files: names(&["out.fbx"]) })
    );
    assert_eq!(
        plan_outputs(Some("outdir"), &anims, 1, "fbx"),
        Ok(OutputPlan { directory: None, files: names(&["outdir/idle.fbx"]) })
    );
    assert_eq!(plan_outputs(None, &anims, 1, "kf"), Ok(OutputPlan { directory: None, files: names(&["anims/idle.kf"]) }));
}

#[test]
fn several_animation_outputs() {
    let anims = names(&["anims/a.hkx", "anims/sub/b.hkx"]);
    assert_eq!(
        plan_outputs(None, &anims, 2, "fbx"),
        Ok(OutputPlan { directory: Some("anims".to_string()), files: names(&["anims/a.fbx", "anims/b.fbx"]) })
    );
    assert_eq!(
        plan_outputs(Some("x"), &anims, 2, "hkx"),
        Ok(OutputPlan { directory: Some("x".to_string()), files: names(&["x/a.hkx", "x/b.hkx"]) })
    );
    assert_eq!(plan_outputs(Some("x"), &anims, 1, "hkx"), Err(ResultCountMismatch));
}

#[test]
fn output_path_uses_the_stem() {
    assert_eq!(output_path("out", "a/b/walk.hkx", "kf"), "out/walk.kf");
    assert_eq!(output_path("out", "walk", "kf"), "out/walk.kf");
}

#[test]
fn hkx_files_are_recognised() {
    assert!(is_hkx_file("a/b.hkx"));
    assert!(is_hkx_file("B.HKX"));
    assert!(!is_hkx_file("b.xml"));
    assert!(!is_hkx_file("hkx"));
}
