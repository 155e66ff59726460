//! Entries of the store: `<digest>-<name>`, the digest being 32 characters.

use crate::paths::{extension_in, file_name, file_name_of, text_of};
use crate::text::{chars_of, find_from, find_last, first_at, slice_of};
use vstd::prelude::*;
use vstd::string::*;

verus! {

/// The number of characters of a digest.
pub const DIGEST_LEN: usize = 32;

/// The directory that holds the store's entries.
pub const STORE_DIR: &'static str = "/nix/store/";

/// The text of [`STORE_DIR`].
pub open spec fn store_dir() -> Seq<char> {
    "/nix/store/"@
}

/// What kind of thing a store entry is.
#[derive(Debug, Clone, Copy, PartialEq, Eq, Structural)]
pub enum StoreEntryType {
    /// A directory.
    Directory,
    /// A file with the extension `drv`: a derivation.
    ExtDrv,
    /// A file without an extension.
    ExtMissing,
    /// A file with any other extension.
    ExtOther,
}

/// The name of a store entry could not be taken apart.
#[derive(Debug, Clone, Copy, PartialEq, Eq, Structural)]
pub enum StoreNameError {
    /// The first `-` of the name does not stand behind 32 characters.
    MalformedName,
}

/// A store entry's name taken apart: `/nix/store/<digest>-<name>`.
///
/// The digest is kept as the 32 characters that were found; it is not decoded.
#[derive(Debug, Clone, PartialEq, Eq)]
pub struct CanonedStorePath {
    pub digest: String,
    pub name: String,
    pub entry_type: StoreEntryType,
}

/// A store entry as mathematics sees it.
pub struct StoreEntry {
    pub digest: Seq<char>,
    pub name: Seq<char>,
    pub entry_type: StoreEntryType,
}

impl View for CanonedStorePath {
    type V = StoreEntry;

    open spec fn view(&self) -> StoreEntry {
        StoreEntry { digest: self.digest@, name: self.name@, entry_type: self.entry_type }
    }
}

/// The kind of an entry of the given name; `is_dir` says whether a directory
/// lies there.
pub open spec fn entry_type_of(basename: Seq<char>, is_dir: bool) -> StoreEntryType {
    if is_dir {
        StoreEntryType::Directory
    } else {
        match extension_in(basename) {
            Some(ext) => if ext == "drv"@ {
                StoreEntryType::ExtDrv
            } else {
                StoreEntryType::ExtOther
            },
            None => StoreEntryType::ExtMissing,
        }
    }
}

/// Whether a name has its first `-` behind exactly as many characters as a
/// digest has.
pub open spec fn well_named(basename: Seq<char>) -> bool {
    first_at(basename, '-') == DIGEST_LEN && basename.len() > DIGEST_LEN
}

/// A store entry's name taken apart, where it is well named.
pub open spec fn decoded(basename: Seq<char>, is_dir: bool) -> Option<StoreEntry> {
    if well_named(basename) {
        Some(
            StoreEntry {
                digest: basename.take(DIGEST_LEN as int),
                name: basename.skip(DIGEST_LEN + 1),
                entry_type: entry_type_of(basename, is_dir),
            },
        )
    } else {
        None
    }
}

/// A store entry taken from a resolved path, given the path's final component.
pub open spec fn decoded_with(name: Option<Seq<char>>, is_dir: bool) -> Option<StoreEntry> {
    match name {
        Some(basename) => decoded(basename, is_dir),
        None => None,
    }
}

/// Whether `r` is the outcome that `wanted` describes.
pub open spec fn entry_outcome(
    r: Result<CanonedStorePath, StoreNameError>,
    wanted: Option<StoreEntry>,
) -> bool {
    match wanted {
        Some(entry) => r is Ok && r->Ok_0@ == entry,
        None => r == Err::<CanonedStorePath, StoreNameError>(StoreNameError::MalformedName),
    }
}

impl CanonedStorePath {
    /// Takes the name of a store entry apart. `is_dir` says whether the entry
    /// is a directory. Fails unless the first `-` of the name stands at index
    /// 32, whatever the characters before it are.
    pub fn decode(basename: &str, is_dir: bool) -> (r: Result<CanonedStorePath, StoreNameError>)
        ensures
            entry_outcome(r, decoded(basename@, is_dir)),
    {
        let chars = chars_of(basename);
        let dash = find_from(&chars, 0, '-');
        proof {
            assert(basename@.skip(0) =~= basename@);
        }
        if dash != DIGEST_LEN || dash >= chars.len() {
            return Err(StoreNameError::MalformedName);
        }
        let entry_type = if is_dir {
            StoreEntryType::Directory
        } else {
            proof {
                crate::text::lemma_last_at(basename@, '.');
            }
            match find_last(&chars, '.') {
                Some(dot) => if dot == 0 {
                    StoreEntryType::ExtMissing
                } else {
                    let ext = slice_of(basename, dot + 1, chars.len());
                    proof {
                        assert(ext@ =~= basename@.skip(dot + 1));
                    }
                    if ext == "drv".to_owned() {
                        StoreEntryType::ExtDrv
                    } else {
                        StoreEntryType::ExtOther
                    }
                },
                None => StoreEntryType::ExtMissing,
            }
        };
        let digest = slice_of(basename, 0, DIGEST_LEN);
        let name = slice_of(basename, DIGEST_LEN + 1, chars.len());
        proof {
            assert(digest@ =~= basename@.take(32));
            assert(name@ =~= basename@.skip(33));
        }
        Ok(CanonedStorePath { digest, name, entry_type })
    }

    /// Takes apart the final component of a resolved path, handed in beside
    /// what the filesystem says of the path.
    pub fn from_file_name(name: Option<String>, is_dir: bool) -> (r: Result<
        CanonedStorePath,
        StoreNameError,
    >)
        ensures
            entry_outcome(r, decoded_with(text_of(name), is_dir)),
    {
        match name {
            Some(basename) => CanonedStorePath::decode(basename.as_str(), is_dir),
            None => Err(StoreNameError::MalformedName),
        }
    }

    /// Takes apart the store entry that a path with every symlink resolved
    /// names. A path without a final component names none.
    pub fn try_from(canoned: &str, is_dir: bool) -> (r: Result<CanonedStorePath, StoreNameError>)
        ensures
            entry_outcome(r, decoded_with(file_name_of(canoned@), is_dir)),
    {
        CanonedStorePath::from_file_name(file_name(canoned), is_dir)
    }

    /// The entry's place in the store: `/nix/store/<digest>-<name>`.
    pub fn to_path(&self) -> (r: String)
        ensures
            r@ == store_dir() + self@.digest + seq!['-'] + self@.name,
    {
        proof {
            reveal_strlit("-");
            assert("-"@ =~= seq!['-']);
        }
        let mut r = STORE_DIR.to_owned();
        r.append(self.digest.as_str());
        r.append("-");
        r.append(self.name.as_str());
        r
    }
}

/// A name is taken apart exactly when its first `-` stands at index 32: 32
/// characters free of `-`, whatever they are, then `-`, then any name, are
/// taken apart into these parts; and every name whose first `-` stands
/// elsewhere, or that has none, is refused.
pub proof fn lemma_decoded(digest: Seq<char>, name: Seq<char>, basename: Seq<char>, is_dir: bool)
    ensures
        digest.len() == 32 && !digest.contains('-') ==> decoded(
            digest + seq!['-'] + name,
            is_dir,
        ) == Some(
            StoreEntry {
                digest,
                name,
                entry_type: entry_type_of(digest + seq!['-'] + name, is_dir),
            },
        ),
        first_at(basename, '-') != 32 ==> decoded(basename, is_dir) is None,
        !basename.contains('-') ==> decoded(basename, is_dir) is None,
{
    if digest.len() == 32 && !digest.contains('-') {
        let whole = digest + seq!['-'] + name;
        assert forall|j: int| 0 <= j < 32 implies whole[j] != '-' by {
            assert(whole[j] == digest[j]);
            assert(digest.contains(whole[j]));
        }
        assert(whole[32] == '-');
        crate::text::lemma_first_at_is(whole, '-', 32);
        assert(whole.take(32) =~= digest);
        assert(whole.skip(33) =~= name);
    }
    crate::text::lemma_first_at(basename, '-');
}

/// The place of a decoded entry in the store is the store's directory
/// followed by the name that was decoded.
pub proof fn lemma_path_of_decoded(basename: Seq<char>, is_dir: bool)
    requires
        decoded(basename, is_dir) is Some,
    ensures
        decoded(basename, is_dir)->0.digest + seq!['-'] + decoded(basename, is_dir)->0.name
            == basename,
{
    crate::text::lemma_first_at(basename, '-');
    assert(basename.take(32) + seq!['-'] + basename.skip(33) =~= basename);
}

} // verus!
