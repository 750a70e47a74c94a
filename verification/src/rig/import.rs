//! Output-path decisions of the import tool.

use vstd::prelude::*;

use super::paths::{
    eq_ignore_ascii_case, extension, extension_of, join, joined, str_eq_ignore_ascii_case,
    no_separator, strip_prefix, strip_prefix_of, with_extension, with_extension_of,
};
use super::{
    opt_view, output_path_of, resolve_output_path, resolve_output_spec, result_matches, Output,
    OutputModel, PathKind, RigError, RigErrorModel,
};

verus! {

/// Whether a path's extension is `ext` up to ASCII case.
pub open spec fn is_extension_ignoring_case(path: Seq<char>, ext: Seq<char>) -> bool {
    match extension_of(path) {
        Some(e) => eq_ignore_ascii_case(e, ext),
        None => false,
    }
}

/// Whether a path's extension is `kf`, `fbx` or `json`, in any ASCII case.
pub open spec fn is_animation_extension_spec(path: Seq<char>) -> bool {
    match extension_of(path) {
        Some(e) => eq_ignore_ascii_case(e, "kf"@) || eq_ignore_ascii_case(e, "fbx"@) || eq_ignore_ascii_case(e, "json"@),
        None => false,
    }
}

/// Checks whether a path has a supported animation extension.
pub fn is_animation_extension(path: &str) -> (r: bool)
    ensures
        r == is_animation_extension_spec(path@),
{
    match extension(path) {
        Some(e) => str_eq_ignore_ascii_case(e.as_str(), "kf") || str_eq_ignore_ascii_case(e.as_str(), "fbx")
            || str_eq_ignore_ascii_case(e.as_str(), "json"),
        None => false,
    }
}

/// Resolves whether the import output is a file or a directory; `kind` is
/// what the file system holds at `output_path(output)`.
pub fn resolve_output(output: Option<&str>, animation_count: usize, has_directory_input: bool, kind: PathKind) -> (r: Result<Output, RigError>)
    ensures
        result_matches(r, resolve_output_spec(output_path_of(opt_view(output)), animation_count as nat, has_directory_input, kind)),
{
    resolve_output_path(output, animation_count, has_directory_input, kind)
}

/// Where one imported animation goes: the output itself for an animation
/// given alone; otherwise its path relative to its input directory, with
/// `extension`, under the output.
pub open spec fn rel_path_spec(input: Seq<char>, root: Option<Seq<char>>, output: Seq<char>, extension: Seq<char>) -> Result<Seq<char>, RigErrorModel> {
    match root {
        None => Ok(output),
        Some(r) => match strip_prefix_of(input, r) {
            Some(rel) => Ok(joined(output, with_extension_of(rel, extension))),
            None => Err(RigErrorModel::NotRelativeToRoot(input)),
        },
    }
}

/// Resolves an animation input to its output path; `extension` is the
/// extension of the output format.
pub fn get_rel_path(input: &str, root: Option<&str>, output: &str, extension: &str) -> (r: Result<String, RigError>)
    requires
        no_separator(extension@),
    ensures
        result_matches(r, rel_path_spec(input@, opt_view(root), output@, extension@)),
{
    match root {
        None => Ok(output.to_owned()),
        Some(root) => match strip_prefix(input, root) {
            Some(rel) => {
                let relative = with_extension(rel.as_str(), extension);
                Ok(join(output, relative.as_str()))
            },
            None => Err(RigError::NotRelativeToRoot(input.to_owned())),
        },
    }
}

} // verus!
