//! Places that are fixed.

use vstd::prelude::*;

verus! {

/// The directory in which a flake is looked for when a reference names none.
pub const DEFAULT_FILE_DIR: &'static str = "/etc/nixos";

/// The manifest that is resolved when a reference names no directory.
pub const DEFAULT_FLAKE_NIX: &'static str = "/etc/nixos/flake.nix";

/// The text of [`DEFAULT_FILE_DIR`].
pub open spec fn default_file_dir() -> Seq<char> {
    "/etc/nixos"@
}

/// The text of [`DEFAULT_FLAKE_NIX`].
pub open spec fn default_flake_nix() -> Seq<char> {
    "/etc/nixos/flake.nix"@
}

} // verus!
