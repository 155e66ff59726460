//! The directory of a flake: the place where its manifest really lies.

use crate::paths::{file_name, file_name_of, join_path, joined, parent, parent_of, text_of};
use vstd::prelude::*;
use vstd::string::*;

verus! {

/// The name of the file that makes a directory a flake.
pub const MANIFEST_NAME: &'static str = "flake.nix";

/// The text of [`MANIFEST_NAME`].
pub open spec fn manifest_name() -> Seq<char> {
    "flake.nix"@
}

/// What resolving every symlink of a manifest's location gave.
#[derive(Debug, Clone, PartialEq, Eq)]
pub enum Resolved {
    /// The location could not be resolved.
    Failed,
    /// It resolved to a path that is not valid UTF-8.
    NotText,
    /// It resolved to `path`; `is_dir` says whether a directory lies there.
    Path { path: String, is_dir: bool },
}

/// What the filesystem reports about a candidate directory and the manifest
/// in it.
#[derive(Debug, Clone, PartialEq, Eq)]
pub struct ManifestProbe {
    /// Whether the candidate is an existing directory.
    pub dir_exists: bool,
    /// Whether something lies at the manifest's location; `None` where that
    /// could not be found out.
    pub manifest_exists: Option<bool>,
    /// The manifest's location with its symlinks resolved.
    pub resolved: Resolved,
}

/// Why a directory is not accepted as a flake.
#[derive(Debug, Clone, Copy, PartialEq, Eq, Structural)]
pub enum FlakeDirError {
    /// The candidate is not an existing directory.
    NotADirectory,
    /// Whether the manifest exists could not be found out.
    ExistenceUnknown,
    /// Nothing lies at the manifest's location.
    ManifestMissing,
    /// The manifest's location could not be resolved.
    Unresolvable,
    /// The resolved location is not valid UTF-8.
    InvalidUtf8,
    /// The manifest resolves to a directory.
    ManifestIsDirectory,
    /// The manifest resolves to a file of another name.
    ManifestNameMismatch,
    /// The resolved manifest has no directory above it.
    NoParent,
}

/// A directory that holds a flake's manifest, with every symlink resolved.
#[derive(Debug, Clone, PartialEq, Eq)]
pub struct FlakeDir {
    pub canoned_dir: String,
}

impl View for FlakeDir {
    type V = Seq<char>;

    open spec fn view(&self) -> Seq<char> {
        self.canoned_dir@
    }
}

/// The directory of a resolved manifest, given the final component and the
/// parent of the resolved path; or the reason why there is none. A manifest
/// must resolve to a text, to something that is no directory, and to a file
/// of the manifest's name.
pub open spec fn located_with(
    resolved: Resolved,
    name: Option<Seq<char>>,
    above: Option<Seq<char>>,
) -> Result<Seq<char>, FlakeDirError> {
    match resolved {
        Resolved::Failed => Err(FlakeDirError::Unresolvable),
        Resolved::NotText => Err(FlakeDirError::InvalidUtf8),
        Resolved::Path { path, is_dir } => {
            if is_dir {
                Err(FlakeDirError::ManifestIsDirectory)
            } else if name != Some(manifest_name()) {
                Err(FlakeDirError::ManifestNameMismatch)
            } else {
                match above {
                    Some(dir) => Ok(dir),
                    None => Err(FlakeDirError::NoParent),
                }
            }
        },
    }
}

/// The final component of what was resolved, where it is a path.
pub open spec fn resolved_name(resolved: Resolved) -> Option<Seq<char>> {
    match resolved {
        Resolved::Path { path, is_dir } => file_name_of(path@),
        _ => None,
    }
}

/// The parent of what was resolved, where it is a path.
pub open spec fn resolved_parent(resolved: Resolved) -> Option<Seq<char>> {
    match resolved {
        Resolved::Path { path, is_dir } => parent_of(path@),
        _ => None,
    }
}

/// The directory of a resolved manifest, or the reason why there is none.
pub open spec fn located(resolved: Resolved) -> Result<Seq<char>, FlakeDirError> {
    located_with(resolved, resolved_name(resolved), resolved_parent(resolved))
}

/// The flake directory that a probe leads to, or the reason why it leads to
/// none: the candidate must be a directory and hold a manifest, and the
/// manifest must resolve as `located` asks.
pub open spec fn resolution(probe: ManifestProbe) -> Result<Seq<char>, FlakeDirError> {
    if !probe.dir_exists {
        Err(FlakeDirError::NotADirectory)
    } else {
        match probe.manifest_exists {
            None => Err(FlakeDirError::ExistenceUnknown),
            Some(false) => Err(FlakeDirError::ManifestMissing),
            Some(true) => located(probe.resolved),
        }
    }
}

/// Whether `r` is the outcome that `wanted` describes.
pub open spec fn dir_outcome(
    r: Result<FlakeDir, FlakeDirError>,
    wanted: Result<Seq<char>, FlakeDirError>,
) -> bool {
    match wanted {
        Ok(dir) => r is Ok && r->Ok_0@ == dir,
        Err(e) => r == Err::<FlakeDir, FlakeDirError>(e),
    }
}

impl FlakeDir {
    /// Where the manifest of the flake in `dir` is looked for.
    pub fn manifest_location(dir: &str) -> (r: String)
        ensures
            r@ == joined(dir@, manifest_name()),
    {
        join_path(dir, MANIFEST_NAME)
    }

    /// Decides on a resolved manifest, given the final component and the
    /// parent of the resolved path.
    pub fn from_resolved(resolved: &Resolved, name: Option<String>, above: Option<String>) -> (r:
        Result<FlakeDir, FlakeDirError>)
        ensures
            dir_outcome(r, located_with(*resolved, text_of(name), text_of(above))),
    {
        match resolved {
            Resolved::Failed => Err(FlakeDirError::Unresolvable),
            Resolved::NotText => Err(FlakeDirError::InvalidUtf8),
            Resolved::Path { path, is_dir } => {
                if *is_dir {
                    return Err(FlakeDirError::ManifestIsDirectory);
                }
                let named = match name {
                    Some(name) => name == MANIFEST_NAME.to_owned(),
                    None => false,
                };
                if !named {
                    return Err(FlakeDirError::ManifestNameMismatch);
                }
                match above {
                    Some(canoned_dir) => Ok(FlakeDir { canoned_dir }),
                    None => Err(FlakeDirError::NoParent),
                }
            },
        }
    }

    /// The directory of a manifest whose location was resolved: the parent of
    /// the resolved path, where that path names a manifest that is no
    /// directory.
    pub fn locate(resolved: &Resolved) -> (r: Result<FlakeDir, FlakeDirError>)
        ensures
            dir_outcome(r, located(*resolved)),
    {
        match resolved {
            Resolved::Path { path, is_dir } => {
                let name = file_name(path.as_str());
                let above = parent(path.as_str());
                FlakeDir::from_resolved(resolved, name, above)
            },
            _ => FlakeDir::from_resolved(resolved, None, None),
        }
    }

    /// Accepts a candidate directory as a flake, given what the filesystem
    /// reports about it, and gives the directory in which the manifest really
    /// lies.
    pub fn try_from_path(probe: &ManifestProbe) -> (r: Result<FlakeDir, FlakeDirError>)
        ensures
            dir_outcome(r, resolution(*probe)),
    {
        if !probe.dir_exists {
            return Err(FlakeDirError::NotADirectory);
        }
        match probe.manifest_exists {
            None => Err(FlakeDirError::ExistenceUnknown),
            Some(false) => Err(FlakeDirError::ManifestMissing),
            Some(true) => FlakeDir::locate(&probe.resolved),
        }
    }

    /// The directory as text.
    pub fn as_str(&self) -> (r: &str)
        ensures
            r@ == self@,
    {
        self.canoned_dir.as_str()
    }

    /// The directory as an owned text.
    pub fn to_string(&self) -> (r: String)
        ensures
            r@ == self@,
    {
        self.canoned_dir.clone()
    }
}

} // verus!
