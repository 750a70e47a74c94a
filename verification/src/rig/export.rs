//! Output-path decisions of the export tool.

use vstd::prelude::*;

use super::paths::{file_name, file_name_of, join, joined, no_separator, strip_prefix, strip_prefix_of, with_extension, with_extension_of};
use super::{
    opt_view, output_path, output_path_of, resolve_output_path, resolve_output_spec, result_matches,
    Output, OutputModel, PathKind, RigError, RigErrorModel,
};

verus! {

/// The export formats.
#[derive(Debug, Clone, Copy, PartialEq, Eq, Structural)]
pub enum Format {
    /// NetImmerse KF.
    Kf,
    /// Binary FBX.
    Fbx,
    /// ASCII FBX.
    FbxAscii,
    /// JSON.
    Json,
}

/// The file extension of an export format.
pub open spec fn extension_spec(format: Format) -> Seq<char> {
    match format {
        Format::Kf => "kf"@,
        Format::Fbx | Format::FbxAscii => "fbx"@,
        Format::Json => "json"@,
    }
}

impl Format {
    /// Returns the file extension associated with the output format.
    pub fn extension(self) -> (r: &'static str)
        ensures
            r@ == extension_spec(self),
            no_separator(r@),
    {
        proof {
            reveal_strlit("kf");
            reveal_strlit("fbx");
            reveal_strlit("json");
        }
        match self {
            Format::Kf => "kf",
            Format::Fbx | Format::FbxAscii => "fbx",
            Format::Json => "json",
        }
    }
}

/// How the export output resolves: JSON needs a directory (it also writes
/// `skeleton.json`), other formats resolve as any output path.
pub open spec fn export_output_spec(path: Seq<char>, animation_count: nat, has_directory_input: bool, format: Format, kind: PathKind) -> Result<OutputModel, RigErrorModel> {
    if format is Json {
        if kind is Missing || kind is Directory {
            Ok(OutputModel::Directory(path))
        } else {
            Err(RigErrorModel::JsonRequiresDirectory)
        }
    } else {
        resolve_output_spec(path, animation_count, has_directory_input, kind)
    }
}

/// Resolves whether the export output is a file or a directory; `kind` is
/// what the file system holds at `output_path(output)`.
pub fn resolve_output(output: Option<&str>, animation_count: usize, has_directory_input: bool, format: Format, kind: PathKind) -> (r: Result<Output, RigError>)
    ensures
        result_matches(r, export_output_spec(output_path_of(opt_view(output)), animation_count as nat, has_directory_input, format, kind)),
{
    if format == Format::Json {
        if kind == PathKind::File || kind == PathKind::Other {
            return Err(RigError::JsonRequiresDirectory);
        }
        return Ok(Output::Directory(output_path(output)));
    }
    resolve_output_path(output, animation_count, has_directory_input, kind)
}

/// Where one exported animation goes: an explicit output file as is; in an
/// output directory, the input's path relative to its input directory (or
/// its file name when it was given alone) with the format's extension.
pub open spec fn animation_output_spec(input: Seq<char>, root: Option<Seq<char>>, output: OutputModel, format: Format) -> Result<Seq<char>, RigErrorModel> {
    match output {
        OutputModel::File(p) => Ok(p),
        OutputModel::Directory(dir) => {
            let relative = match root {
                Some(r) => match strip_prefix_of(input, r) {
                    Some(rel) => Ok(rel),
                    None => Err(RigErrorModel::NotRelativeToRoot(input)),
                },
                None => match file_name_of(input) {
                    Some(name) => Ok(name),
                    None => Err(RigErrorModel::NoFileName),
                },
            };
            match relative {
                Err(e) => Err(e),
                Ok(rel) => Ok(joined(dir, with_extension_of(rel, extension_spec(format)))),
            }
        },
    }
}

/// Resolves one animation input to its output path.
pub fn resolve_animation_output(input: &str, root: Option<&str>, output: &Output, format: Format) -> (r: Result<String, RigError>)
    ensures
        result_matches(r, animation_output_spec(input@, opt_view(root), output@, format)),
{
    match output {
        Output::File(path) => Ok(path.clone()),
        Output::Directory(directory) => {
            let relative = match root {
                Some(root) => match strip_prefix(input, root) {
                    Some(rel) => rel,
                    None => return Err(RigError::NotRelativeToRoot(input.to_owned())),
                },
                None => match file_name(input) {
                    Some(name) => name,
                    None => return Err(RigError::NoFileName),
                },
            };
            let relative = with_extension(relative.as_str(), format.extension());
            Ok(join(directory.as_str(), relative.as_str()))
        },
    }
}

/// JSON export always writes into a directory: an output path that is an
/// existing directory, or that does not exist yet, resolves to that
/// directory whatever the number of animations and inputs; only a path that
/// exists as something other than a directory is refused, with
/// [`RigError::JsonRequiresDirectory`].
pub proof fn lemma_json_output_is_a_directory(path: Seq<char>, animation_count: nat, has_directory_input: bool, kind: PathKind)
    ensures
        (kind is Directory || kind is Missing) ==> export_output_spec(path, animation_count, has_directory_input, Format::Json, kind)
            == Ok::<OutputModel, RigErrorModel>(OutputModel::Directory(path)),
        (kind is File || kind is Other) ==> export_output_spec(path, animation_count, has_directory_input, Format::Json, kind)
            == Err::<OutputModel, RigErrorModel>(RigErrorModel::JsonRequiresDirectory),
        !(export_output_spec(path, animation_count, has_directory_input, Format::Json, kind) matches Ok(OutputModel::File(_))),
{
}

/// Every format but JSON writes into an existing output directory too.
pub proof fn lemma_existing_directory_is_used(path: Seq<char>, animation_count: nat, has_directory_input: bool, format: Format)
    ensures
        export_output_spec(path, animation_count, has_directory_input, format, PathKind::Directory)
            == Ok::<OutputModel, RigErrorModel>(OutputModel::Directory(path)),
{
}

} // verus!
