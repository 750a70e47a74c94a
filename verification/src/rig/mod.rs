//! Output-path decisions of the rig import and export tools.

pub mod convert;
pub mod export;
pub mod import;
pub mod paths;

use vstd::prelude::*;

verus! {

/// Where converted animation files are written.
#[derive(Debug, Clone, PartialEq, Eq)]
pub enum Output {
    /// A single output file.
    File(String),
    /// An output directory.
    Directory(String),
}

/// What the file system holds at a path.
#[derive(Debug, Clone, Copy, PartialEq, Eq, Structural)]
pub enum PathKind {
    /// Nothing exists at the path.
    Missing,
    /// A regular file.
    File,
    /// A directory.
    Directory,
    /// Something that is neither a file nor a directory.
    Other,
}

/// Errors in the paths given to the rig tools.
#[derive(Debug, Clone, PartialEq, Eq)]
pub enum RigError {
    /// JSON export needs an output directory.
    JsonRequiresDirectory,
    /// An output file was given for more than one animation.
    FileForMultipleAnimations,
    /// The output path exists but is neither a file nor a directory.
    NotFileOrDirectory(String),
    /// An animation path is not inside its input directory.
    NotRelativeToRoot(String),
    /// An animation path has no file name.
    NoFileName,
}

/// Model of an [`Output`].
pub enum OutputModel {
    File(Seq<char>),
    Directory(Seq<char>),
}

impl View for Output {
    type V = OutputModel;

    open spec fn view(&self) -> OutputModel {
        match self {
            Output::File(p) => OutputModel::File(p@),
            Output::Directory(p) => OutputModel::Directory(p@),
        }
    }
}

/// Model of a [`RigError`].
pub enum RigErrorModel {
    JsonRequiresDirectory,
    FileForMultipleAnimations,
    NotFileOrDirectory(Seq<char>),
    NotRelativeToRoot(Seq<char>),
    NoFileName,
}

impl View for RigError {
    type V = RigErrorModel;

    open spec fn view(&self) -> RigErrorModel {
        match self {
            RigError::JsonRequiresDirectory => RigErrorModel::JsonRequiresDirectory,
            RigError::FileForMultipleAnimations => RigErrorModel::FileForMultipleAnimations,
            RigError::NotFileOrDirectory(p) => RigErrorModel::NotFileOrDirectory(p@),
            RigError::NotRelativeToRoot(p) => RigErrorModel::NotRelativeToRoot(p@),
            RigError::NoFileName => RigErrorModel::NoFileName,
        }
    }
}

/// Whether an executable result matches its model.
pub open spec fn result_matches<T: View, E: View>(r: Result<T, E>, m: Result<T::V, E::V>) -> bool {
    match m {
        Ok(v) => r matches Ok(x) && x@ == v,
        Err(e) => r matches Err(x) && x@ == e,
    }
}

/// The view of an optional string.
pub open spec fn opt_view(s: Option<&str>) -> Option<Seq<char>> {
    match s {
        Some(p) => Some(p@),
        None => None,
    }
}

/// The path used for the output: the given one, or `output`.
pub open spec fn output_path_of(output: Option<Seq<char>>) -> Seq<char> {
    match output {
        Some(p) => p,
        None => "output"@,
    }
}

/// The path used for the output: the given one, or `output`.
pub fn output_path(output: Option<&str>) -> (r: String)
    ensures
        r@ == output_path_of(opt_view(output)),
{
    match output {
        Some(p) => p.to_owned(),
        None => "output".to_owned(),
    }
}

/// How an output path that is not reserved for JSON resolves: an existing
/// file serves one animation only, an existing directory is used as is,
/// and a missing path is a file for one explicit animation and a directory
/// otherwise.
pub open spec fn resolve_output_spec(path: Seq<char>, animation_count: nat, has_directory_input: bool, kind: PathKind) -> Result<OutputModel, RigErrorModel> {
    match kind {
        PathKind::File => if animation_count != 1 {
            Err(RigErrorModel::FileForMultipleAnimations)
        } else {
            Ok(OutputModel::File(path))
        },
        PathKind::Directory => Ok(OutputModel::Directory(path)),
        PathKind::Other => Err(RigErrorModel::NotFileOrDirectory(path)),
        PathKind::Missing => if animation_count == 1 && !has_directory_input {
            Ok(OutputModel::File(path))
        } else {
            Ok(OutputModel::Directory(path))
        },
    }
}

/// Resolves an output path that is not reserved for JSON; `kind` is what
/// the file system holds at `output_path(output)`.
pub fn resolve_output_path(output: Option<&str>, animation_count: usize, has_directory_input: bool, kind: PathKind) -> (r: Result<Output, RigError>)
    ensures
        result_matches(r, resolve_output_spec(output_path_of(opt_view(output)), animation_count as nat, has_directory_input, kind)),
{
    let path = output_path(output);
    match kind {
        PathKind::File => {
            if animation_count != 1 {
                return Err(RigError::FileForMultipleAnimations);
            }
            Ok(Output::File(path))
        },
        PathKind::Directory => Ok(Output::Directory(path)),
        PathKind::Other => Err(RigError::NotFileOrDirectory(path)),
        PathKind::Missing => {
            if animation_count == 1 && !has_directory_input {
                Ok(Output::File(path))
            } else {
                Ok(Output::Directory(path))
            }
        },
    }
}

} // verus!
