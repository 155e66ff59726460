//! Attribute paths: the part of a flake reference behind the `#`.

use crate::text::{all_free_of, join, join_text, chars_of, has_char, split, split_text};
use vstd::prelude::*;
use vstd::string::*;

verus! {

/// The attribute set under which a flake lists its system configurations.
pub const CONFIG_GROUP: &'static str = "nixosConfigurations";

/// The host name that stands in when the system's name cannot be looked up.
pub const FALLBACK_HOST: &'static str = "default";

/// The text of [`CONFIG_GROUP`].
pub open spec fn config_group() -> Seq<char> {
    "nixosConfigurations"@
}

/// The text of [`FALLBACK_HOST`].
pub open spec fn fallback_host() -> Seq<char> {
    "default"@
}

/// The segments that lead from a configuration to the derivation of the whole system.
pub open spec fn toplevel_route() -> Seq<Seq<char>> {
    seq!["config"@, "system"@, "build"@, "toplevel"@]
}

/// What a lookup of the host's name gave.
#[derive(Debug, Clone, PartialEq, Eq)]
pub enum HostIdentity {
    /// The name, as text.
    Name(String),
    /// A name that is not valid UTF-8.
    NotText,
    /// The lookup failed.
    Unavailable,
}

/// Why a host name could not complete an attribute path.
#[derive(Debug, Clone, Copy, PartialEq, Eq, Structural)]
pub enum HostError {
    /// The host's name is not text.
    InvalidHostIdentity,
    /// The host's name could not be looked up.
    HostIdentityUnavailable,
}

/// Looks the host's name up with `hostname::get` and turns it into text with
/// `OsString::into_string`. Nothing is claimed of the outcome: it depends on
/// the machine.
#[verifier::external_body]
pub(crate) fn host_identity() -> (r: HostIdentity) {
    match hostname::get() {
        Ok(name) => match name.into_string() {
            Ok(text) => HostIdentity::Name(text),
            Err(_) => HostIdentity::NotText,
        },
        Err(_) => HostIdentity::Unavailable,
    }
}

/// An ordered attribute path.
///
/// With `--flake /path/to/dir#fizz.buzz` this holds `[fizz, buzz]`. The empty
/// path stands for "nothing selected".
#[derive(Eq, PartialEq, Debug)]
pub struct FlakeAttr {
    pub attr_path: Vec<String>,
}

impl View for FlakeAttr {
    type V = Seq<Seq<char>>;

    open spec fn view(&self) -> Seq<Seq<char>> {
        self.attr_path.deep_view()
    }
}

impl Clone for FlakeAttr {
    fn clone(&self) -> (r: Self)
        ensures
            r@ == self@,
    {
        let attr_path = self.attr_path.clone();
        proof {
            assert(attr_path.deep_view() =~= self.attr_path.deep_view());
        }
        FlakeAttr { attr_path }
    }
}

/// Whether a segment holds neither `#` nor `"`.
pub open spec fn plain(segment: Seq<char>) -> bool {
    !segment.contains('#') && !segment.contains('"')
}

/// What holds of every path that is parsed or completed from plain segments:
/// no segment holds `#` or `"`.
pub open spec fn well_formed(path: Seq<Seq<char>>) -> bool {
    all_free_of(path, '#') && all_free_of(path, '"')
}

/// Whether a text can be parsed as an attribute path.
pub open spec fn parsable(text: Seq<char>) -> bool {
    text.len() > 0 && !text.contains('#') && !text.contains('"')
}

/// `path` with `segment` in front, unless it is there already.
pub open spec fn prepended(path: Seq<Seq<char>>, segment: Seq<char>) -> Seq<Seq<char>> {
    if path.len() > 0 && path[0] == segment {
        path
    } else {
        seq![segment] + path
    }
}

/// The path that `set_config` leaves for a given host lookup, or the reason
/// why it fails.
pub open spec fn configured(path: Seq<Seq<char>>, host: HostIdentity) -> Result<
    Seq<Seq<char>>,
    HostError,
> {
    let grouped = prepended(path, config_group());
    if grouped.len() > 1 {
        Ok(grouped)
    } else {
        match host {
            HostIdentity::Name(name) => Ok(grouped.push(name@)),
            HostIdentity::NotText => Err(HostError::InvalidHostIdentity),
            HostIdentity::Unavailable => Ok(grouped.push(fallback_host())),
        }
    }
}

/// The path that stands for "this host's configuration", or the reason why
/// there is none.
pub open spec fn default_path(host: HostIdentity) -> Result<Seq<Seq<char>>, HostError> {
    match host {
        HostIdentity::Name(name) => Ok(seq![config_group(), name@]),
        HostIdentity::NotText => Err(HostError::InvalidHostIdentity),
        HostIdentity::Unavailable => Err(HostError::HostIdentityUnavailable),
    }
}

impl FlakeAttr {
    /// Parses a dot-delimited path: `foo.bar` gives `[foo, bar]`, `foo` gives
    /// `[foo]`. A text that is empty or holds `#` or `"` is handed back as the
    /// error.
    pub fn try_from(value: String) -> (r: Result<FlakeAttr, String>)
        ensures
            parsable(value@) ==> r is Ok && r->Ok_0@ == split(value@, '.'),
            !parsable(value@) ==> r is Err && r->Err_0@ == value@,
            r is Ok ==> well_formed(r->Ok_0@) && all_free_of(r->Ok_0@, '.') && r->Ok_0@.len() >= 1,
    {
        let chars = chars_of(value.as_str());
        if has_char(&chars, '#') || has_char(&chars, '"') || chars.len() == 0 {
            return Err(value);
        }
        let attr_path = split_text(value.as_str(), '.');
        proof {
            lemma_parsed_well_formed(value@);
        }
        Ok(FlakeAttr { attr_path })
    }

    /// The segments joined by `.`.
    pub fn to_string(&self) -> (r: String)
        ensures
            r@ == join(self@, seq!['.']),
    {
        proof {
            reveal_strlit(".");
            assert("."@ =~= seq!['.']);
        }
        join_text(&self.attr_path, ".")
    }

    /// Puts `segment` in front, unless the path starts with it already.
    pub fn prepend_if_absent(&mut self, segment: &str)
        ensures
            final(self)@ == prepended(old(self)@, segment@),
            well_formed(old(self)@) && plain(segment@) ==> well_formed(final(self)@),
    {
        proof {
            if well_formed(old(self)@) {
                lemma_well_formed_kept(old(self)@, segment@, Seq::empty());
            }
        }
        let wanted = segment.to_owned();
        if self.attr_path.len() > 0 && self.attr_path[0] == wanted {
            return;
        }
        self.attr_path.insert(0, wanted);
        proof {
            assert(self.attr_path.deep_view() =~= seq![segment@] + old(self).attr_path.deep_view());
        }
    }

    /// Appends the segments in order.
    pub fn extend(&mut self, segments: &Vec<String>)
        ensures
            final(self)@ == old(self)@ + segments.deep_view(),
            well_formed(old(self)@) && well_formed(segments.deep_view()) ==> well_formed(
                final(self)@,
            ),
    {
        proof {
            if well_formed(old(self)@) {
                lemma_well_formed_kept(old(self)@, Seq::empty(), segments.deep_view());
            }
        }
        let mut i: usize = 0;
        while i < segments.len()
            invariant
                i <= segments.len(),
                self@ == old(self)@ + segments.deep_view().take(i as int),
            decreases segments.len() - i,
        {
            let ghost before = self@;
            self.attr_path.push(segments[i].clone());
            proof {
                assert(self@ =~= before.push(segments[i as int]@));
                assert(segments.deep_view().take(i + 1) =~= segments.deep_view().take(
                    i as int,
                ).push(segments[i as int]@));
            }
            i = i + 1;
        }
        proof {
            assert(segments.deep_view().take(i as int) =~= segments.deep_view());
        }
    }

    /// Completes the path to a system configuration, given what the lookup of
    /// the host's name gave: puts the group of system configurations in front
    /// unless it is there, and names the host where nothing else follows the
    /// group. A failed lookup names the fallback host; a name that is not
    /// text is an error and leaves the group in place.
    pub fn set_config_for(&mut self, host: &HostIdentity) -> (r: Result<(), HostError>)
        ensures
            match configured(old(self)@, *host) {
                Ok(path) => r is Ok && final(self)@ == path,
                Err(e) => r == Err::<(), HostError>(e) && final(self)@ == prepended(
                    old(self)@,
                    config_group(),
                ),
            },
            well_formed(old(self)@) && (host matches HostIdentity::Name(name) ==> plain(name@))
                ==> well_formed(final(self)@),
    {
        proof {
            lemma_fixed_segments_plain();
            if well_formed(old(self)@) {
                let grouped = prepended(old(self)@, config_group());
                lemma_well_formed_kept(old(self)@, config_group(), Seq::empty());
                lemma_well_formed_kept(grouped, fallback_host(), Seq::empty());
                if let HostIdentity::Name(name) = host {
                    lemma_well_formed_kept(grouped, name@, Seq::empty());
                }
            }
        }
        self.prepend_if_absent(CONFIG_GROUP);
        if self.attr_path.len() > 1 {
            return Ok(());
        }
        let ghost grouped = self@;
        let machine_name = match host {
            HostIdentity::Name(name) => name.clone(),
            HostIdentity::NotText => {
                return Err(HostError::InvalidHostIdentity);
            },
            HostIdentity::Unavailable => FALLBACK_HOST.to_owned(),
        };
        self.attr_path.push(machine_name);
        proof {
            assert(self@ =~= grouped.push(machine_name@));
        }
        Ok(())
    }

    /// Completes the path to a system configuration with the name of this
    /// host: see [`FlakeAttr::set_config_for`], which decides for every
    /// outcome of the lookup.
    pub fn set_config(&mut self) -> (r: Result<(), HostError>)
        ensures
            exists|host: HostIdentity|
                match #[trigger] configured(old(self)@, host) {
                    Ok(path) => r is Ok && final(self)@ == path,
                    Err(e) => r == Err::<(), HostError>(e) && final(self)@ == prepended(
                        old(self)@,
                        config_group(),
                    ),
                },
    {
        let host = host_identity();
        self.set_config_for(&host)
    }

    /// Appends `config.system.build.toplevel`, the route from a configuration
    /// to the derivation that builds the whole system.
    pub fn route_to_toplevel(&mut self)
        ensures
            final(self)@ == old(self)@ + toplevel_route(),
            well_formed(old(self)@) ==> well_formed(final(self)@),
    {
        proof {
            lemma_fixed_segments_plain();
        }
        let mut route: Vec<String> = Vec::new();
        route.push("config".to_owned());
        route.push("system".to_owned());
        route.push("build".to_owned());
        route.push("toplevel".to_owned());
        proof {
            assert(route.deep_view() =~= toplevel_route());
        }
        self.extend(&route);
    }

    /// The number of segments.
    pub fn len(&self) -> (n: usize)
        ensures
            n == self@.len(),
    {
        self.attr_path.len()
    }

    /// Whether the path has no segment.
    pub fn is_empty(&self) -> (b: bool)
        ensures
            b == (self@.len() == 0),
    {
        self.attr_path.len() == 0
    }

    /// The path of this host's configuration, given what the lookup of the
    /// host's name gave: the group of system configurations, then the name.
    pub fn default_for(host: &HostIdentity) -> (r: Result<FlakeAttr, HostError>)
        ensures
            match default_path(*host) {
                Ok(path) => r is Ok && r->Ok_0@ == path,
                Err(e) => r == Err::<FlakeAttr, HostError>(e),
            },
    {
        match host {
            HostIdentity::Name(name) => {
                let mut attr_path: Vec<String> = Vec::new();
                attr_path.push(CONFIG_GROUP.to_owned());
                attr_path.push(name.clone());
                proof {
                    assert(attr_path.deep_view() =~= seq![config_group(), name@]);
                }
                Ok(FlakeAttr { attr_path })
            },
            HostIdentity::NotText => Err(HostError::InvalidHostIdentity),
            HostIdentity::Unavailable => Err(HostError::HostIdentityUnavailable),
        }
    }

    /// The path of this host's configuration: see [`FlakeAttr::default_for`],
    /// which decides for every outcome of the lookup.
    pub fn try_default() -> (r: Result<FlakeAttr, HostError>)
        ensures
            exists|host: HostIdentity|
                match #[trigger] default_path(host) {
                    Ok(path) => r is Ok && r->Ok_0@ == path,
                    Err(e) => r == Err::<FlakeAttr, HostError>(e),
                },
    {
        let host = host_identity();
        FlakeAttr::default_for(&host)
    }
}

/// What parsing accepts splits into at least one segment, and the segments
/// are free of `#`, `"` and `.`.
pub proof fn lemma_parsed_well_formed(text: Seq<char>)
    requires
        parsable(text),
    ensures
        well_formed(split(text, '.')),
        all_free_of(split(text, '.'), '.'),
        split(text, '.').len() >= 1,
{
    crate::text::lemma_split_pieces(text, '.');
    crate::text::lemma_join_split(text, '.');
    crate::text::lemma_join_holds(split(text, '.'), seq!['.'], '#');
    crate::text::lemma_join_holds(split(text, '.'), seq!['.'], '"');
}

/// Putting a segment in front of a path that does not start with it, and
/// then appending others, gives the segment, the path and the others, in that
/// order.
pub proof fn lemma_prepend_then_extend(
    path: Seq<Seq<char>>,
    segment: Seq<char>,
    others: Seq<Seq<char>>,
)
    requires
        path.len() == 0 || path[0] != segment,
    ensures
        prepended(path, segment) + others == seq![segment] + path + others,
{
}

/// A path that starts with a segment is left as it is when the segment is
/// put in front; others appended then follow the path.
pub proof fn lemma_prepend_present(
    path: Seq<Seq<char>>,
    segment: Seq<char>,
    others: Seq<Seq<char>>,
)
    requires
        path.len() > 0,
        path[0] == segment,
    ensures
        prepended(path, segment) + others == path + others,
{
}

/// A well-formed path stays well-formed when a plain segment is put in front
/// and when well-formed segments are appended.
pub proof fn lemma_well_formed_kept(
    path: Seq<Seq<char>>,
    segment: Seq<char>,
    others: Seq<Seq<char>>,
)
    requires
        well_formed(path),
    ensures
        plain(segment) ==> well_formed(prepended(path, segment)),
        well_formed(others) ==> well_formed(path + others),
        plain(segment) ==> well_formed(path.push(segment)),
{
    if plain(segment) {
        let front = prepended(path, segment);
        assert forall|i: int| 0 <= i < front.len() implies plain(#[trigger] front[i]) by {
            if front != path {
                if i > 0 {
                    assert(front[i] == path[i - 1]);
                }
            }
        }
        let back = path.push(segment);
        assert forall|i: int| 0 <= i < back.len() implies plain(#[trigger] back[i]) by {
            if i < path.len() {
                assert(back[i] == path[i]);
            }
        }
    }
    if well_formed(others) {
        let all = path + others;
        assert forall|i: int| 0 <= i < all.len() implies plain(#[trigger] all[i]) by {
            if i < path.len() {
                assert(all[i] == path[i]);
            } else {
                assert(all[i] == others[i - path.len()]);
            }
        }
    }
}

/// The group of system configurations is a plain segment, and the route to
/// the whole system is well-formed.
pub proof fn lemma_fixed_segments_plain()
    ensures
        plain(config_group()),
        plain(fallback_host()),
        well_formed(toplevel_route()),
{
    reveal_strlit("nixosConfigurations");
    reveal_strlit("default");
    reveal_strlit("config");
    reveal_strlit("system");
    reveal_strlit("build");
    reveal_strlit("toplevel");
    lemma_plain_letters(config_group());
    lemma_plain_letters(fallback_host());
    lemma_plain_letters("config"@);
    lemma_plain_letters("system"@);
    lemma_plain_letters("build"@);
    lemma_plain_letters("toplevel"@);
}

/// A text of ASCII letters is a plain segment.
proof fn lemma_plain_letters(segment: Seq<char>)
    requires
        forall|i: int|
            0 <= i < segment.len() ==> ('a' <= #[trigger] segment[i] <= 'z') || ('A' <= segment[i]
                <= 'Z'),
    ensures
        plain(segment),
{
}

/// What parsing gives is written back as the text that was parsed, and a
/// path of at least one segment, none of which holds a `.`, is parsed back
/// from its text.
pub proof fn lemma_text_round_trip(text: Seq<char>, path: Seq<Seq<char>>)
    ensures
        join(split(text, '.'), seq!['.']) == text,
        path.len() >= 1 && all_free_of(path, '.') ==> split(join(path, seq!['.']), '.') == path,
{
    crate::text::lemma_join_split(text, '.');
    if path.len() >= 1 && all_free_of(path, '.') {
        crate::text::lemma_split_join(path, '.');
    }
}

} // verus!
