//! Output paths of the single-format converters (HKX to FBX or KF, and
//! FBX to HKX).

use vstd::prelude::*;

use super::import::is_extension_ignoring_case;
use super::paths::{
    extension, extension_of, file_stem, file_stem_of, join, joined, parent, parent_of,
    no_separator, with_extension, with_extension_of,
};
use super::opt_view;

verus! {

/// The file stem of an animation, or `animation` when it has none.
pub open spec fn stem_or_default(path: Seq<char>) -> Seq<char> {
    match file_stem_of(path) {
        Some(s) => s,
        None => "animation"@,
    }
}

/// An animation's output in a directory: its stem there, with `ext`.
pub open spec fn output_path_spec(dir: Seq<char>, animation: Seq<char>, ext: Seq<char>) -> Seq<char> {
    with_extension_of(joined(dir, stem_or_default(animation)), ext)
}

/// An animation's output in a directory: its stem there, with `ext`.
pub fn output_path(output_dir: &str, animation_path: &str, ext: &str) -> (r: String)
    requires
        no_separator(ext@),
    ensures
        r@ == output_path_spec(output_dir@, animation_path@, ext@),
{
    let stem = match file_stem(animation_path) {
        Some(s) => s,
        None => "animation".to_owned(),
    };
    let joined_path = join(output_dir, stem.as_str());
    with_extension(joined_path.as_str(), ext)
}

/// The output of a single animation: an output path with an extension is
/// a file; one without is a directory; without an output, the animation's
/// own path with `ext`.
pub open spec fn single_output_spec(output: Option<Seq<char>>, animation: Seq<char>, ext: Seq<char>) -> Seq<char> {
    match output {
        Some(p) => if extension_of(p) is Some {
            p
        } else {
            output_path_spec(p, animation, ext)
        },
        None => with_extension_of(animation, ext),
    }
}

/// The directory for several animations: the output, or the first
/// animation's directory (`.` when it has none).
pub open spec fn output_directory_spec(output: Option<Seq<char>>, first: Seq<char>) -> Seq<char> {
    match output {
        Some(p) => p,
        None => match parent_of(first) {
            Some(d) => d,
            None => "."@,
        },
    }
}

/// Where converted animations are written.
#[derive(Debug, Clone, PartialEq, Eq)]
pub struct OutputPlan {
    /// The directory to create first, when there are several animations.
    pub directory: Option<String>,
    /// One output file per animation, in order.
    pub files: Vec<String>,
}

/// The conversion produced a different number of results than there are
/// animations.
#[derive(Debug, Clone, Copy, PartialEq, Eq, Structural)]
pub struct ResultCountMismatch;

/// Plans the outputs of converted animations: one animation goes to
/// [`single_output_spec`]; several go into [`output_directory_spec`], each
/// under [`output_path_spec`].
pub fn plan_outputs(output: Option<&str>, animation_paths: &[String], result_count: usize, ext: &str) -> (r: Result<OutputPlan, ResultCountMismatch>)
    requires
        animation_paths@.len() > 0 || output is Some,
        no_separator(ext@),
    ensures
        result_count != animation_paths@.len() ==> r is Err,
        result_count == animation_paths@.len() ==> (r matches Ok(plan) && plan.files@.len() == animation_paths@.len() && (
            if animation_paths@.len() == 1 {
                plan.directory is None && plan.files@[0]@ == single_output_spec(opt_view(output), animation_paths@[0]@, ext@)
            } else {
                plan.directory matches Some(d) && d@ == output_directory_spec(opt_view(output), if animation_paths@.len() > 0 { animation_paths@[0]@ } else { Seq::empty() })
                    && forall|i: int| 0 <= i < animation_paths@.len() ==> (#[trigger] plan.files@[i])@ == output_path_spec(d@, animation_paths@[i]@, ext@)
            }
        )),
{
    if result_count != animation_paths.len() {
        return Err(ResultCountMismatch);
    }
    if animation_paths.len() == 1 {
        let first = animation_paths[0].as_str();
        let path = match output {
            Some(p) => {
                if extension(p).is_some() {
                    p.to_owned()
                } else {
                    output_path(p, first, ext)
                }
            },
            None => with_extension(first, ext),
        };
        let mut files: Vec<String> = Vec::new();
        files.push(path);
        return Ok(OutputPlan { directory: None, files });
    }
    let dir = match output {
        Some(p) => p.to_owned(),
        None => match parent(animation_paths[0].as_str()) {
            Some(d) => d,
            None => ".".to_owned(),
        },
    };
    let mut files: Vec<String> = Vec::new();
    let mut i: usize = 0;
    while i < animation_paths.len()
        invariant
            i <= animation_paths@.len(),
            no_separator(ext@),
            files@.len() == i,
            forall|j: int| 0 <= j < i ==> (#[trigger] files@[j])@ == output_path_spec(dir@, animation_paths@[j]@, ext@),
        decreases animation_paths@.len() - i,
    {
        files.push(output_path(dir.as_str(), animation_paths[i].as_str(), ext));
        i = i + 1;
    }
    Ok(OutputPlan { directory: Some(dir), files })
}

/// Whether a path names an HKX file (extension `hkx` in any ASCII case).
pub fn is_hkx_file(path: &str) -> (r: bool)
    ensures
        r == is_extension_ignoring_case(path@, "hkx"@),
{
    match extension(path) {
        Some(e) => super::paths::str_eq_ignore_ascii_case(e.as_str(), "hkx"),
        None => false,
    }
}

/// Whether a path names an animation input of the rig export: an HKX or
/// XML file (extension `hkx` or `xml` in any ASCII case).
pub fn is_hkx_or_xml_file(path: &str) -> (r: bool)
    ensures
        r == (is_extension_ignoring_case(path@, "hkx"@) || is_extension_ignoring_case(path@, "xml"@)),
{
    match extension(path) {
        Some(e) => super::paths::str_eq_ignore_ascii_case(e.as_str(), "hkx")
            || super::paths::str_eq_ignore_ascii_case(e.as_str(), "xml"),
        None => false,
    }
}

} // verus!
