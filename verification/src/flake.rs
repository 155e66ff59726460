//! Flake references: `<directory>[#<attribute.path>]`.

use crate::text::{chars_of, find_from, first_at, join, slice_of, split};
use crate::utils::{default_file_dir, default_flake_nix, DEFAULT_FILE_DIR, DEFAULT_FLAKE_NIX};
use vstd::prelude::*;
use vstd::string::*;

pub mod attribute;
pub mod flake_path;

pub use attribute::FlakeAttr;
pub use attribute::HostError;
pub use attribute::HostIdentity;
pub use flake_path::FlakeDir;
pub use flake_path::FlakeDirError;
pub use flake_path::ManifestProbe;
pub use flake_path::Resolved;

use attribute::{configured, default_path, host_identity, parsable, toplevel_route};
use flake_path::{located, resolution};

verus! {

/// A reference as it was written: `<flake_dir>[#attribute]`, taken apart.
#[derive(Debug, Clone, PartialEq, Eq)]
pub struct FlakeRefInput {
    /// What stands before the `#`: the directory in which a `flake.nix` is
    /// looked for. `None` where no directory was named.
    pub source: Option<String>,
    /// What stands behind the `#`.
    pub output_selector: Option<FlakeAttr>,
}

/// A reference whose directory was found and whose attribute path leads to
/// the derivation of a whole system.
#[derive(Debug, Clone, PartialEq, Eq)]
pub struct FlakeRef {
    /// The directory in which the flake's manifest really lies.
    pub source: FlakeDir,
    /// The attribute that is built.
    pub output_selector: Option<FlakeAttr>,
}

/// A reference as mathematics sees it.
pub struct RefText {
    pub source: Seq<char>,
    pub output_selector: Option<Seq<Seq<char>>>,
}

/// The segments of an optional attribute path.
pub open spec fn selector_of(attr: Option<FlakeAttr>) -> Option<Seq<Seq<char>>> {
    match attr {
        Some(attr) => Some(attr@),
        None => None,
    }
}

impl View for FlakeRefInput {
    type V = RefText;

    /// A reference that names no directory reads like one with an empty
    /// directory.
    open spec fn view(&self) -> RefText {
        RefText {
            source: match self.source {
                Some(dir) => dir@,
                None => Seq::empty(),
            },
            output_selector: selector_of(self.output_selector),
        }
    }
}

impl View for FlakeRef {
    type V = RefText;

    open spec fn view(&self) -> RefText {
        RefText { source: self.source@, output_selector: selector_of(self.output_selector) }
    }
}

/// Why a reference could not be resolved.
#[derive(Debug, Clone, Copy, PartialEq, Eq, Structural)]
pub enum ResolveError {
    /// The directory is no flake.
    Source(FlakeDirError),
    /// The host's name is not text.
    InvalidHostIdentity,
    /// The host's name could not be looked up.
    HostIdentityUnavailable,
}

/// What a written reference means: the text before the first `#` is the
/// directory, and what follows it, split at every `.`, is the attribute path.
/// Without a `#` there is no attribute path. `None` where a `#` is followed by
/// nothing, by a second `#` or by a `"`.
pub open spec fn parsed(value: Seq<char>) -> Option<RefText> {
    let at = first_at(value, '#');
    if 0 <= at < value.len() {
        let attr = value.skip(at + 1);
        if parsable(attr) {
            Some(RefText { source: value.take(at), output_selector: Some(split(attr, '.')) })
        } else {
            None
        }
    } else {
        Some(RefText { source: value, output_selector: None })
    }
}

/// How a reference is written: the directory, and behind a `#` the attribute
/// path joined by `.`, where there is a path with at least one segment.
pub open spec fn written(reference: RefText) -> Seq<char> {
    match reference.output_selector {
        Some(path) => if path.len() > 0 {
            reference.source + seq!['#'] + join(path, seq!['.'])
        } else {
            reference.source
        },
        None => reference.source,
    }
}

/// The attribute path that is built for a selector and a host lookup: the
/// selector, or without one the default path of the host; then the group of
/// system configurations in front and the host's name where nothing follows
/// the group; then the route to the whole system.
pub open spec fn routed(selector: Option<Seq<Seq<char>>>, host: HostIdentity) -> Result<
    Seq<Seq<char>>,
    HostError,
> {
    let start = match selector {
        Some(path) => Ok(path),
        None => default_path(host),
    };
    match start {
        Ok(path) => match configured(path, host) {
            Ok(path) => Ok(path + toplevel_route()),
            Err(e) => Err(e),
        },
        Err(e) => Err(e),
    }
}

/// The error of a reference for a failed host lookup.
pub open spec fn host_failure(e: HostError) -> ResolveError {
    match e {
        HostError::InvalidHostIdentity => ResolveError::InvalidHostIdentity,
        HostError::HostIdentityUnavailable => ResolveError::HostIdentityUnavailable,
    }
}

/// The directory that a reference is resolved to: with a directory named, the
/// one that the probe of that directory leads to; with none, the one in which
/// the default manifest really lies.
pub open spec fn sought(source: Option<String>, probe: ManifestProbe) -> Result<
    Seq<char>,
    FlakeDirError,
> {
    match source {
        Some(_) => resolution(probe),
        None => located(probe.resolved),
    }
}

/// What a reference resolves to, given the probe of its directory and the
/// lookup of the host's name. The directory is decided first.
pub open spec fn resolved(input: FlakeRefInput, probe: ManifestProbe, host: HostIdentity) -> Result<
    RefText,
    ResolveError,
> {
    match sought(input.source, probe) {
        Err(e) => Err(ResolveError::Source(e)),
        Ok(dir) => match routed(selector_of(input.output_selector), host) {
            Err(e) => Err(host_failure(e)),
            Ok(path) => Ok(RefText { source: dir, output_selector: Some(path) }),
        },
    }
}

/// Whether `r` is the outcome that `wanted` describes.
pub open spec fn ref_outcome(
    r: Result<FlakeRef, ResolveError>,
    wanted: Result<RefText, ResolveError>,
) -> bool {
    match wanted {
        Ok(reference) => r is Ok && r->Ok_0@ == reference,
        Err(e) => r == Err::<FlakeRef, ResolveError>(e),
    }
}

impl ResolveError {
    /// The error of a reference for a failed host lookup.
    pub fn from_host(e: HostError) -> (r: ResolveError)
        ensures
            r == host_failure(e),
    {
        match e {
            HostError::InvalidHostIdentity => ResolveError::InvalidHostIdentity,
            HostError::HostIdentityUnavailable => ResolveError::HostIdentityUnavailable,
        }
    }
}

/// Writes a directory and, behind a `#`, a path that has segments.
fn write_reference(source: &str, output_selector: &Option<FlakeAttr>) -> (r: String)
    ensures
        r@ == written(
            RefText { source: source@, output_selector: selector_of(*output_selector) },
        ),
{
    let mut r = source.to_owned();
    if let Some(attr_path) = output_selector {
        if !attr_path.is_empty() {
            let path = attr_path.to_string();
            proof {
                reveal_strlit("#");
                assert("#"@ =~= seq!['#']);
            }
            r.append("#");
            r.append(path.as_str());
        }
    }
    r
}

impl FlakeRefInput {
    /// Takes a written reference apart at its first `#`. A reference that
    /// cannot be read is handed back as the error.
    pub fn try_from(value: &str) -> (r: Result<FlakeRefInput, String>)
        ensures
            match parsed(value@) {
                Some(reference) => r is Ok && r->Ok_0@ == reference && r->Ok_0.source is Some,
                None => r is Err && r->Err_0@ == value@,
            },
    {
        let chars = chars_of(value);
        let fst_hash = find_from(&chars, 0, '#');
        proof {
            assert(value@.skip(0) =~= value@);
        }
        if fst_hash == chars.len() {
            return Ok(FlakeRefInput { source: Some(value.to_owned()), output_selector: None });
        }
        let path = slice_of(value, 0, fst_hash);
        let stripped_attr = slice_of(value, fst_hash + 1, chars.len());
        proof {
            assert(path@ =~= value@.take(fst_hash as int));
            assert(stripped_attr@ =~= value@.skip(fst_hash + 1));
        }
        match FlakeAttr::try_from(stripped_attr) {
            Ok(attr) => Ok(FlakeRefInput { source: Some(path), output_selector: Some(attr) }),
            Err(_) => Err(value.to_owned()),
        }
    }

    /// The reference as it is written.
    pub fn to_string(&self) -> (r: String)
        ensures
            r@ == written(self@),
    {
        proof {
            reveal_strlit("");
        }
        match &self.source {
            Some(dir) => write_reference(dir.as_str(), &self.output_selector),
            None => write_reference("", &self.output_selector),
        }
    }

    /// Where the manifest is to be probed for this reference: in the named
    /// directory, or at the default location where none is named.
    pub fn manifest_location(&self) -> (r: String)
        ensures
            r@ == match self.source {
                Some(dir) => crate::paths::joined(dir@, flake_path::manifest_name()),
                None => default_flake_nix(),
            },
    {
        match &self.source {
            Some(dir) => FlakeDir::manifest_location(dir.as_str()),
            None => DEFAULT_FLAKE_NIX.to_owned(),
        }
    }

    /// Resolves the reference, given what the filesystem reports at
    /// [`FlakeRefInput::manifest_location`] and what the lookup of the host's
    /// name gave.
    ///
    /// The directory is that of the resolved manifest. The attribute is the
    /// selector, or `nixosConfigurations.<host>` without one, completed to
    /// `nixosConfigurations.<...>.config.system.build.toplevel`. Any failure
    /// of the directory or of a host name that is needed fails the whole.
    pub fn init_flake_ref_for(&self, probe: &ManifestProbe, host: &HostIdentity) -> (r: Result<
        FlakeRef,
        ResolveError,
    >)
        ensures
            ref_outcome(r, resolved(*self, *probe, *host)),
    {
        let source = match &self.source {
            Some(_) => FlakeDir::try_from_path(probe),
            None => FlakeRefInput::canoned_default_dir(&probe.resolved),
        };
        let source = match source {
            Ok(dir) => dir,
            Err(e) => {
                return Err(ResolveError::Source(e));
            },
        };
        let start = match &self.output_selector {
            Some(attr) => Ok(attr.clone()),
            None => FlakeAttr::default_for(host),
        };
        let mut attr = match start {
            Ok(attr) => attr,
            Err(e) => {
                return Err(ResolveError::from_host(e));
            },
        };
        if let Err(e) = attr.set_config_for(host) {
            return Err(ResolveError::from_host(e));
        }
        attr.route_to_toplevel();
        Ok(FlakeRef { source, output_selector: Some(attr) })
    }

    /// Resolves the reference for this host: see
    /// [`FlakeRefInput::init_flake_ref_for`], which decides for every outcome
    /// of the lookup of the host's name.
    pub fn init_flake_ref(&self, probe: &ManifestProbe) -> (r: Result<FlakeRef, ResolveError>)
        ensures
            exists|host: HostIdentity| ref_outcome(r, #[trigger] resolved(*self, *probe, host)),
    {
        let host = host_identity();
        self.init_flake_ref_for(probe, &host)
    }

    /// The directory in which the default manifest really lies, given what
    /// resolving [`DEFAULT_FLAKE_NIX`] gave.
    pub fn canoned_default_dir(resolved: &Resolved) -> (r: Result<FlakeDir, FlakeDirError>)
        ensures
            flake_path::dir_outcome(r, located(*resolved)),
    {
        FlakeDir::locate(resolved)
    }

    /// The reference that stands for "this host, from the default
    /// directory", given what the lookup of the host's name gave.
    pub fn default_for(host: &HostIdentity) -> (r: Result<FlakeRefInput, HostError>)
        ensures
            match default_path(*host) {
                Ok(path) => r is Ok && r->Ok_0@ == (RefText {
                    source: default_file_dir(),
                    output_selector: Some(path),
                }) && r->Ok_0.source is Some,
                Err(e) => r == Err::<FlakeRefInput, HostError>(e),
            },
    {
        match FlakeAttr::default_for(host) {
            Ok(attr) => Ok(
                FlakeRefInput {
                    source: Some(DEFAULT_FILE_DIR.to_owned()),
                    output_selector: Some(attr),
                },
            ),
            Err(e) => Err(e),
        }
    }

    /// The reference that stands for "this host, from the default
    /// directory": see [`FlakeRefInput::default_for`], which decides for every
    /// outcome of the lookup of the host's name.
    pub fn try_default() -> (r: Result<FlakeRefInput, HostError>)
        ensures
            exists|host: HostIdentity|
                match #[trigger] default_path(host) {
                    Ok(path) => r is Ok && r->Ok_0@ == (RefText {
                        source: default_file_dir(),
                        output_selector: Some(path),
                    }) && r->Ok_0.source is Some,
                    Err(e) => r == Err::<FlakeRefInput, HostError>(e),
                },
    {
        let host = host_identity();
        FlakeRefInput::default_for(&host)
    }
}

impl FlakeRef {
    /// The reference as the build tool reads it.
    pub fn to_string(&self) -> (r: String)
        ensures
            r@ == written(self@),
    {
        write_reference(self.source.as_str(), &self.output_selector)
    }

    /// The arguments with which `nix` builds the reference and leaves the
    /// link to what it built in `out_dir`.
    pub fn build_arguments(&self, out_dir: &str) -> (r: Vec<String>)
        ensures
            r.deep_view() == seq![
                "build"@,
                written(self@),
                "--out-link"@,
                crate::paths::joined(out_dir@, "result"@),
            ],
    {
        let mut arguments: Vec<String> = Vec::new();
        arguments.push("build".to_owned());
        arguments.push(self.to_string());
        arguments.push("--out-link".to_owned());
        arguments.push(crate::paths::join_path(out_dir, "result"));
        proof {
            assert(arguments.deep_view() =~= seq![
                "build"@,
                written(self@),
                "--out-link"@,
                crate::paths::joined(out_dir@, "result"@),
            ]);
        }
        arguments
    }
}

/// Reading a written reference and writing it again gives the same text,
/// with or without an attribute path.
pub proof fn lemma_written_as_read(value: Seq<char>)
    requires
        parsed(value) is Some,
    ensures
        written(parsed(value)->0) == value,
{
    let at = first_at(value, '#');
    if 0 <= at < value.len() {
        let attr = value.skip(at + 1);
        crate::text::lemma_first_at(value, '#');
        crate::text::lemma_split_pieces(attr, '.');
        crate::text::lemma_join_split(attr, '.');
        assert(value.take(at) + seq!['#'] + attr =~= value);
    }
}

/// A directory that holds no `#` is read as a reference without an attribute
/// path. Followed by `#` and a text, it is read as that directory and the
/// text split at every `.`; and it is rejected exactly where the text is
/// empty or holds a `#` or a `"`.
pub proof fn lemma_read_reference(dir: Seq<char>, attr: Seq<char>)
    requires
        !dir.contains('#'),
    ensures
        parsed(dir) == Some(RefText { source: dir, output_selector: None }),
        parsable(attr) ==> parsed(dir + seq!['#'] + attr) == Some(
            RefText { source: dir, output_selector: Some(split(attr, '.')) },
        ),
        parsed(dir + seq!['#'] + attr) is None <==> attr.len() == 0 || attr.contains('#')
            || attr.contains('"'),
{
    crate::text::lemma_first_at(dir, '#');
    let value = dir + seq!['#'] + attr;
    assert forall|j: int| 0 <= j < dir.len() implies value[j] != '#' by {
        assert(value[j] == dir[j]);
        assert(dir.contains(value[j]));
    }
    assert(value[dir.len() as int] == '#');
    crate::text::lemma_first_at_is(value, '#', dir.len() as int);
    assert(value.take(dir.len() as int) =~= dir);
    assert(value.skip(dir.len() as int + 1) =~= attr);
}

/// The attribute path of a resolved reference starts with the group of
/// system configurations, names something behind it, and ends with the route
/// to the whole system.
pub proof fn lemma_routed_shape(selector: Option<Seq<Seq<char>>>, host: HostIdentity)
    requires
        routed(selector, host) is Ok,
    ensures
        ({
            let path = routed(selector, host)->Ok_0;
            &&& path.len() >= 6
            &&& path[0] == attribute::config_group()
            &&& path.skip(path.len() - 4) == toplevel_route()
        }),
{
    let path = routed(selector, host)->Ok_0;
    assert(path.skip(path.len() - 4) =~= toplevel_route());
}

} // verus!
