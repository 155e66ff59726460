//! The generations of a system profile: links named `system-<number>-link`,
//! each leading to a store entry that holds one build of the system.

use crate::paths::{file_name, file_name_of, join_path, joined, parent, parent_of, text_of};
use crate::text::{chars_of, decimal, holds_at, parse_u32};
use std::collections::BTreeMap;
use vstd::prelude::*;
use vstd::std_specs::iter::IteratorSpec;
use vstd::string::*;

pub mod file_utils;
pub mod kernel;
pub mod order;

pub use kernel::KernelVersion;

use file_utils::{decoded_with, CanonedStorePath};
use kernel::{parse_semver, semver_of, version_of, SemVer};

verus! {

/// The directory that holds the profiles and their generation links.
pub const GEN_DIR: &'static str = "/nix/var/nix/profiles";

/// What a generation link's name begins with.
pub const LINK_PREFIX: &'static str = "system-";

/// What a generation link's name ends with.
pub const LINK_SUFFIX: &'static str = "-link";

/// The text of [`LINK_PREFIX`].
pub open spec fn link_prefix() -> Seq<char> {
    "system-"@
}

/// The text of [`LINK_SUFFIX`].
pub open spec fn link_suffix() -> Seq<char> {
    "-link"@
}

/// The number of a generation.
#[derive(Debug, Clone, Copy, PartialEq, Eq, Structural, PartialOrd, Ord, Hash)]
pub struct GenNumber {
    pub num: u32,
}

impl From<u32> for GenNumber {
    fn from(num: u32) -> (r: Self) {
        Self { num }
    }
}

impl vstd::std_specs::convert::FromSpecImpl<u32> for GenNumber {
    open spec fn obeys_from_spec() -> bool {
        true
    }

    open spec fn from_spec(num: u32) -> Self {
        GenNumber { num }
    }
}

/// The version of NixOS that a generation was built from, as its version file
/// states it.
#[derive(Debug, Clone, PartialEq, Eq)]
pub struct NixosVersion(pub String);

impl View for NixosVersion {
    type V = Seq<char>;

    open spec fn view(&self) -> Seq<char> {
        self.0@
    }
}

/// Why a generation is left out of the inventory.
#[derive(Debug, Clone, Copy, PartialEq, Eq, Structural)]
pub enum GenerationError {
    /// The link does not lead to a well-named store entry.
    InvalidStoreEntry,
    /// The link is not named `system-<number>-link`.
    InvalidGenerationName,
    /// The time of the build is not known.
    TimestampUnavailable,
    /// The version file could not be read.
    VersionUnreadable,
    /// No kernel version was found, or what was found is no semantic version.
    KernelVersionUnreadable,
}

/// The digits of a generation link's name: what stands between `system-` and
/// `-link`, where the name begins and ends so and something is left between.
pub open spec fn link_digits(base: Seq<char>) -> Option<Seq<char>> {
    let prefix = link_prefix();
    let suffix = link_suffix();
    if base.len() > prefix.len() + suffix.len() && prefix.is_prefix_of(base) && suffix.is_suffix_of(
        base,
    ) {
        Some(base.subrange(prefix.len() as int, base.len() - suffix.len()))
    } else {
        None
    }
}

/// The number that a generation link's name states: the digits between
/// `system-` and `-link`, read as a decimal number that fits in 32 bits.
pub open spec fn link_number(base: Seq<char>) -> Option<u32> {
    match link_digits(base) {
        Some(digits) => match decimal(digits) {
            Some(n) => if n <= u32::MAX {
                Some(n as u32)
            } else {
                None
            },
            None => None,
        },
        None => None,
    }
}

/// The number that a link states, given the final component of its path.
pub open spec fn number_with(name: Option<Seq<char>>) -> Option<u32> {
    match name {
        Some(base) => link_number(base),
        None => None,
    }
}

/// Whether `r` is the outcome that `wanted` describes.
pub open spec fn number_outcome(
    r: Result<GenNumber, GenerationError>,
    wanted: Option<u32>,
) -> bool {
    match wanted {
        Some(num) => r == Ok::<GenNumber, GenerationError>(GenNumber { num }),
        None => r == Err::<GenNumber, GenerationError>(GenerationError::InvalidGenerationName),
    }
}

impl GenNumber {
    /// Reads the number out of a link's name: `system-14-link` gives 14. The
    /// name must be `system-`, then decimal digits that stand for a number
    /// below 2^32, then `-link`, and nothing else.
    pub fn from_link_name(base: &str) -> (r: Result<GenNumber, GenerationError>)
        ensures
            number_outcome(r, link_number(base@)),
    {
        let chars = chars_of(base);
        let prefix = chars_of(LINK_PREFIX);
        let suffix = chars_of(LINK_SUFFIX);
        proof {
            reveal_strlit("system-");
            reveal_strlit("-link");
        }
        let n = chars.len();
        if n <= prefix.len() + suffix.len() {
            return Err(GenerationError::InvalidGenerationName);
        }
        let end = n - suffix.len();
        if !holds_at(&chars, 0, &prefix) || !holds_at(&chars, end, &suffix) {
            return Err(GenerationError::InvalidGenerationName);
        }
        match parse_u32(&chars, prefix.len(), end) {
            Some(num) => Ok(GenNumber { num }),
            None => Err(GenerationError::InvalidGenerationName),
        }
    }

    /// Reads the number of the final component of a link's path, handed in as
    /// it was found.
    pub fn from_file_name(name: Option<String>) -> (r: Result<GenNumber, GenerationError>)
        ensures
            number_outcome(r, number_with(text_of(name))),
    {
        match name {
            Some(base) => GenNumber::from_link_name(base.as_str()),
            None => Err(GenerationError::InvalidGenerationName),
        }
    }

    /// Reads the number of a generation out of the path of its link:
    /// `/nix/var/nix/profiles/system-14-link` gives 14.
    pub fn try_from(gen_link: &str) -> (r: Result<GenNumber, GenerationError>)
        ensures
            number_outcome(r, number_with(file_name_of(gen_link@))),
    {
        GenNumber::from_file_name(file_name(gen_link))
    }
}

/// The moment at which a generation was built: seconds and nanoseconds since
/// the start of 1970, UTC.
#[derive(Debug, Clone, Copy, PartialEq, Eq, Structural)]
pub struct BuildTime {
    pub secs: i64,
    pub nanos: u32,
}

/// What a generation link resolves to.
#[derive(Debug, Clone, PartialEq, Eq)]
pub struct StoreTarget {
    /// The path with every symlink resolved.
    pub path: String,
    /// Whether a directory lies there.
    pub is_dir: bool,
}

/// What was found on disk for one generation link.
#[derive(Debug, Clone, PartialEq, Eq)]
pub struct GenerationProbe {
    /// The link as the profile directory lists it.
    pub link: String,
    /// What the link resolves to; `None` where it does not resolve.
    pub target: Option<StoreTarget>,
    /// When the generation's directory was created; `None` where the platform
    /// does not tell.
    pub created: Option<BuildTime>,
    /// The first line of the version file; `None` where it could not be read.
    pub version_line: Option<String>,
    /// The name of the first entry of the kernel's module directory; `None`
    /// where there is none.
    pub kernel_entry: Option<String>,
    /// What the query for the configuration's revision printed; `None` where
    /// it could not be run or printed no text.
    pub revision: Option<String>,
    /// The names of the entries of the specialisation directory; `None` where
    /// it could not be listed.
    pub specialisations: Option<Vec<String>>,
}

/// What is known of one generation.
///
/// The names of the specialisations are kept in the order in which they were
/// found, and none occurs twice.
#[derive(Debug, PartialEq, Eq)]
pub struct GenerationMeta {
    build_time: BuildTime,
    nixos_version: NixosVersion,
    kernel_version: KernelVersion,
    cfg_revision: Option<String>,
    specialisations: Vec<String>,
}

/// A generation's record as mathematics sees it.
pub struct MetaText {
    pub build_time: BuildTime,
    pub nixos_version: Seq<char>,
    pub kernel_version: SemVer,
    pub cfg_revision: Option<Seq<char>>,
    pub specialisations: Seq<Seq<char>>,
}

impl View for GenerationMeta {
    type V = MetaText;

    closed spec fn view(&self) -> MetaText {
        MetaText {
            build_time: self.build_time,
            nixos_version: self.nixos_version@,
            kernel_version: self.kernel_version@,
            cfg_revision: text_of(self.cfg_revision),
            specialisations: self.specialisations.deep_view(),
        }
    }
}

/// The names in the order of their first occurrence, each once.
pub open spec fn distinct(names: Seq<Seq<char>>) -> Seq<Seq<char>>
    decreases names.len(),
{
    if names.len() == 0 {
        Seq::empty()
    } else {
        let front = distinct(names.drop_last());
        if front.contains(names.last()) {
            front
        } else {
            front.push(names.last())
        }
    }
}

/// `distinct` keeps every name and keeps none twice.
pub proof fn lemma_distinct(names: Seq<Seq<char>>)
    ensures
        distinct(names).no_duplicates(),
        forall|name: Seq<char>|
            #![trigger distinct(names).contains(name)]
            #![trigger names.contains(name)]
            distinct(names).contains(name) <==> names.contains(name),
    decreases names.len(),
{
    if names.len() > 0 {
        let front = names.drop_last();
        lemma_distinct(front);
        let kept = distinct(front);
        let all = distinct(names);
        assert forall|name: Seq<char>|
            #![trigger all.contains(name)]
            #![trigger names.contains(name)]
            all.contains(name) <==> names.contains(name) by {
            if all.contains(name) {
                let i = choose|i: int| 0 <= i < all.len() && all[i] == name;
                if i < kept.len() {
                    assert(kept[i] == name);
                    assert(kept.contains(name));
                    let j = choose|j: int| 0 <= j < front.len() && front[j] == name;
                    assert(names[j] == name);
                } else {
                    assert(names[names.len() - 1] == name);
                }
            }
            if names.contains(name) {
                let j = choose|j: int| 0 <= j < names.len() && names[j] == name;
                if j < front.len() {
                    assert(front[j] == name);
                    assert(kept.contains(name));
                    let i = choose|i: int| 0 <= i < kept.len() && kept[i] == name;
                    assert(all[i] == name);
                } else if kept.contains(name) {
                } else {
                    assert(all[kept.len() as int] == name);
                }
            }
        }
    }
}

/// The revision that a query's output states: the output, unless it is empty.
pub open spec fn revision_of(output: Option<String>) -> Option<Seq<char>> {
    match output {
        Some(text) => if text@.len() > 0 {
            Some(text@)
        } else {
            None
        },
        None => None,
    }
}

/// The names of the specialisations that a listing states: each name once; a
/// directory that could not be listed has none.
pub open spec fn names_of(listing: Option<Vec<String>>) -> Seq<Seq<char>> {
    match listing {
        Some(entries) => distinct(entries.deep_view()),
        None => Seq::empty(),
    }
}

/// The final component of what a link resolves to.
pub open spec fn target_name(target: Option<StoreTarget>) -> Option<Seq<char>> {
    match target {
        Some(target) => file_name_of(target.path@),
        None => None,
    }
}

/// The version that the first entry of the kernel's module directory states.
pub open spec fn kernel_of(entry: Option<String>) -> Option<SemVer> {
    match entry {
        Some(name) => semver_of(name@),
        None => None,
    }
}

/// The record of a generation, given the final component of what its link
/// resolves to, the final component of the link itself, and the version read
/// from the kernel's module directory; or the reason why there is no record.
///
/// A record is whole or it is not there. The target must be a well-named
/// store entry, the link must state a number, and the time of the build, the
/// version line and the kernel's version must be known; they are asked for in
/// this order. A missing revision and a missing listing of specialisations
/// leave the record in place, without a revision and without specialisations.
pub open spec fn extracted_with(
    probe: GenerationProbe,
    target: Option<Seq<char>>,
    link: Option<Seq<char>>,
    kernel: Option<SemVer>,
) -> Result<MetaText, GenerationError> {
    if probe.target is None || decoded_with(target, probe.target->0.is_dir) is None {
        Err(GenerationError::InvalidStoreEntry)
    } else if number_with(link) is None {
        Err(GenerationError::InvalidGenerationName)
    } else if probe.created is None {
        Err(GenerationError::TimestampUnavailable)
    } else if probe.version_line is None {
        Err(GenerationError::VersionUnreadable)
    } else if kernel is None {
        Err(GenerationError::KernelVersionUnreadable)
    } else {
        Ok(
            MetaText {
                build_time: probe.created->0,
                nixos_version: probe.version_line->0@,
                kernel_version: kernel->0,
                cfg_revision: revision_of(probe.revision),
                specialisations: names_of(probe.specialisations),
            },
        )
    }
}

/// The record of a generation, or the reason why there is none.
pub open spec fn extracted(probe: GenerationProbe) -> Result<MetaText, GenerationError> {
    extracted_with(
        probe,
        target_name(probe.target),
        file_name_of(probe.link@),
        kernel_of(probe.kernel_entry),
    )
}

/// Whether `r` is the outcome that `wanted` describes.
pub open spec fn meta_outcome(
    r: Result<GenerationMeta, GenerationError>,
    wanted: Result<MetaText, GenerationError>,
) -> bool {
    match wanted {
        Ok(meta) => r is Ok && r->Ok_0@ == meta,
        Err(e) => r == Err::<GenerationMeta, GenerationError>(e),
    }
}

/// Whether the list holds the text.
fn holds_text(names: &Vec<String>, wanted: &String) -> (b: bool)
    ensures
        b == names.deep_view().contains(wanted@),
{
    let mut i: usize = 0;
    while i < names.len()
        invariant
            i <= names.len(),
            forall|j: int| 0 <= j < i ==> names.deep_view()[j] != wanted@,
        decreases names.len() - i,
    {
        if names[i] == *wanted {
            proof {
                assert(names.deep_view()[i as int] == wanted@);
            }
            return true;
        }
        i = i + 1;
    }
    false
}

/// The names in the order of their first occurrence, each once.
pub fn distinct_names(entries: &Vec<String>) -> (names: Vec<String>)
    ensures
        names.deep_view() == distinct(entries.deep_view()),
        names.deep_view().no_duplicates(),
{
    let mut names: Vec<String> = Vec::new();
    let mut i: usize = 0;
    proof {
        assert(entries.deep_view().take(0) =~= Seq::empty());
        assert(names.deep_view() =~= Seq::empty());
    }
    while i < entries.len()
        invariant
            i <= entries.len(),
            names.deep_view() == distinct(entries.deep_view().take(i as int)),
        decreases entries.len() - i,
    {
        let ghost upto = entries.deep_view().take(i + 1);
        let ghost before = names.deep_view();
        proof {
            assert(upto.drop_last() =~= entries.deep_view().take(i as int));
            assert(upto.last() == entries[i as int]@);
        }
        if !holds_text(&names, &entries[i]) {
            names.push(entries[i].clone());
            proof {
                assert(names.deep_view() =~= before.push(entries[i as int]@));
            }
        }
        i = i + 1;
    }
    proof {
        assert(entries.deep_view().take(i as int) =~= entries.deep_view());
        lemma_distinct(entries.deep_view());
    }
    names
}

impl GenerationMeta {
    #[verifier::type_invariant]
    spec fn names_once(self) -> bool {
        self.specialisations.deep_view().no_duplicates()
    }

    /// Puts a record together, given the final component of what the link
    /// resolves to, the final component of the link itself, and the version
    /// read from the kernel's module directory.
    pub fn assemble(
        probe: &GenerationProbe,
        target: Option<String>,
        link: Option<String>,
        kernel: Option<KernelVersion>,
    ) -> (r: Result<GenerationMeta, GenerationError>)
        ensures
            meta_outcome(
                r,
                extracted_with(*probe, text_of(target), text_of(link), version_of(kernel)),
            ),
    {
        let is_dir = match &probe.target {
            Some(found) => found.is_dir,
            None => {
                return Err(GenerationError::InvalidStoreEntry);
            },
        };
        if CanonedStorePath::from_file_name(target, is_dir).is_err() {
            return Err(GenerationError::InvalidStoreEntry);
        }
        if GenNumber::from_file_name(link).is_err() {
            return Err(GenerationError::InvalidGenerationName);
        }
        let build_time = match probe.created {
            Some(at) => at,
            None => {
                return Err(GenerationError::TimestampUnavailable);
            },
        };
        let nixos_ver = match &probe.version_line {
            Some(line) => line.clone(),
            None => {
                return Err(GenerationError::VersionUnreadable);
            },
        };
        let parsed_kern_ver = match kernel {
            Some(version) => version,
            None => {
                return Err(GenerationError::KernelVersionUnreadable);
            },
        };
        let cfg_revision = match &probe.revision {
            Some(text) => if text.as_str().unicode_len() > 0 {
                Some(text.clone())
            } else {
                None
            },
            None => None,
        };
        let specialisations = match &probe.specialisations {
            Some(entries) => distinct_names(entries),
            None => Vec::new(),
        };
        proof {
            if probe.specialisations is None {
                assert(specialisations.deep_view() =~= Seq::empty());
            }
        }
        Ok(
            GenerationMeta {
                build_time,
                nixos_version: NixosVersion(nixos_ver),
                kernel_version: parsed_kern_ver,
                cfg_revision,
                specialisations,
            },
        )
    }

    /// The record of the generation that a probe describes.
    ///
    /// The link's target must be named as a store entry is, and the link as
    /// `system-<number>-link`; the time of the build, the first line of the
    /// version file and a kernel version that reads as a semantic version must
    /// be there. Without a revision or a listing of specialisations the record
    /// has none.
    pub fn try_from(probe: &GenerationProbe) -> (r: Result<GenerationMeta, GenerationError>)
        ensures
            meta_outcome(r, extracted(*probe)),
    {
        let target = match &probe.target {
            Some(found) => file_name(found.path.as_str()),
            None => None,
        };
        let link = file_name(probe.link.as_str());
        let kernel = match &probe.kernel_entry {
            Some(name) => parse_semver(name.as_str()),
            None => None,
        };
        GenerationMeta::assemble(probe, target, link, kernel)
    }

    /// When the generation was built.
    pub fn build_time(&self) -> (r: BuildTime)
        ensures
            r == self@.build_time,
    {
        self.build_time
    }

    /// The version of NixOS the generation was built from.
    pub fn nixos_version(&self) -> (r: &NixosVersion)
        ensures
            r@ == self@.nixos_version,
    {
        &self.nixos_version
    }

    /// The version of the generation's kernel.
    pub fn kernel_version(&self) -> (r: &KernelVersion)
        ensures
            r@ == self@.kernel_version,
    {
        &self.kernel_version
    }

    /// The revision of the configuration, where one is known.
    pub fn cfg_revision(&self) -> (r: &Option<String>)
        ensures
            text_of(*r) == self@.cfg_revision,
    {
        &self.cfg_revision
    }

    /// The names of the generation's specialisations, each once.
    pub fn specialisations(&self) -> (r: &Vec<String>)
        ensures
            r.deep_view() == self@.specialisations,
            r.deep_view().no_duplicates(),
    {
        proof {
            use_type_invariant(self);
        }
        &self.specialisations
    }
}

/// A generation's record beside its number.
#[derive(Debug, PartialEq, Eq)]
pub struct NumberedGenMeta {
    pub num: GenNumber,
    pub desc: GenerationMeta,
}

impl From<(u32, GenerationMeta)> for NumberedGenMeta {
    fn from(value: (u32, GenerationMeta)) -> (r: Self) {
        Self { num: GenNumber { num: value.0 }, desc: value.1 }
    }
}

impl vstd::std_specs::convert::FromSpecImpl<(u32, GenerationMeta)> for NumberedGenMeta {
    open spec fn obeys_from_spec() -> bool {
        true
    }

    open spec fn from_spec(value: (u32, GenerationMeta)) -> Self {
        NumberedGenMeta { num: GenNumber { num: value.0 }, desc: value.1 }
    }
}

/// The generations of a profile by their numbers, and the number of the
/// generation that is in use. That number need not be among the records.
#[derive(Debug)]
pub struct GenDescTable {
    current: GenNumber,
    desc: BTreeMap<u32, GenerationMeta>,
}

/// A table as mathematics sees it.
pub struct TableText {
    pub current: u32,
    pub desc: Map<u32, MetaText>,
}

impl View for GenDescTable {
    type V = TableText;

    closed spec fn view(&self) -> TableText {
        TableText {
            current: self.current.num,
            desc: self.desc@.map_values(|meta: GenerationMeta| meta@),
        }
    }
}

/// One line of a rendered table: a generation, and whether it is the one in
/// use.
#[derive(Debug, PartialEq, Eq)]
pub struct GenerationRow<'a> {
    pub num: GenNumber,
    pub desc: &'a GenerationMeta,
    pub current: bool,
}

/// A rendered line as mathematics sees it.
pub struct RowText {
    pub num: u32,
    pub desc: MetaText,
    pub current: bool,
}

impl<'a> View for GenerationRow<'a> {
    type V = RowText;

    open spec fn view(&self) -> RowText {
        RowText { num: self.num.num, desc: self.desc@, current: self.current }
    }
}

/// The number and the record of the generation that a probe describes, where
/// its link states a number and a record can be extracted.
pub open spec fn survivor(probe: GenerationProbe) -> Option<(u32, MetaText)> {
    match (number_with(file_name_of(probe.link@)), extracted(probe)) {
        (Some(num), Ok(meta)) => Some((num, meta)),
        _ => None,
    }
}

/// The generations that probes describe, in the order of the probes; a probe
/// that describes none is passed over.
pub open spec fn survivors(probes: Seq<GenerationProbe>) -> Seq<(u32, MetaText)>
    decreases probes.len(),
{
    if probes.len() == 0 {
        Seq::empty()
    } else {
        let before = survivors(probes.drop_last());
        match survivor(probes.last()) {
            Some(found) => before.push(found),
            None => before,
        }
    }
}

/// The records by their numbers; of two records with one number the later
/// stays.
pub open spec fn collected(pairs: Seq<(u32, MetaText)>) -> Map<u32, MetaText>
    decreases pairs.len(),
{
    if pairs.len() == 0 {
        Map::empty()
    } else {
        collected(pairs.drop_last()).insert(pairs.last().0, pairs.last().1)
    }
}

/// Numbered records as mathematics sees them.
pub open spec fn pairs_text(pairs: Seq<(GenNumber, GenerationMeta)>) -> Seq<(u32, MetaText)> {
    pairs.map_values(|pair: (GenNumber, GenerationMeta)| (pair.0.num, pair.1@))
}

/// Rendered lines as mathematics sees them.
pub open spec fn rows_text(rows: Seq<GenerationRow>) -> Seq<RowText> {
    rows.map_values(|row: GenerationRow| row@)
}

/// Whether the lines render the table: one line for each record, in
/// ascending order of the numbers, each with its record, and flagged exactly
/// where its number is that of the generation in use.
pub open spec fn renders(rows: Seq<RowText>, table: TableText) -> bool {
    &&& forall|i: int, j: int| 0 <= i < j < rows.len() ==> rows[i].num < rows[j].num
    &&& forall|i: int|
        0 <= i < rows.len() ==> {
            &&& table.desc.contains_key(#[trigger] rows[i].num)
            &&& rows[i].desc == table.desc[rows[i].num]
            &&& rows[i].current == (rows[i].num == table.current)
        }
    &&& forall|num: u32| #[trigger]
        table.desc.contains_key(num) ==> exists|i: int|
            0 <= i < rows.len() && (#[trigger] rows[i]).num == num
}

/// The directory in which the kernel's modules are looked for, given the
/// parent of what the kernel link resolves to: `lib/modules` below the
/// resolved path where a directory lies there, else below its parent.
pub open spec fn modules_dir_with(kernel: StoreTarget, above: Option<Seq<char>>) -> Option<
    Seq<char>,
> {
    if kernel.is_dir {
        Some(joined(kernel.path@, "lib/modules"@))
    } else {
        match above {
            Some(dir) => Some(joined(dir, "lib/modules"@)),
            None => None,
        }
    }
}

impl GenerationMeta {
    /// Where the version file of the generation at `gen_dir` lies.
    pub fn version_file(gen_dir: &str) -> (r: String)
        ensures
            r@ == joined(gen_dir@, "nixos-version"@),
    {
        join_path(gen_dir, "nixos-version")
    }

    /// Where the link to the kernel of the generation at `gen_dir` lies.
    pub fn kernel_link(gen_dir: &str) -> (r: String)
        ensures
            r@ == joined(gen_dir@, "kernel"@),
    {
        join_path(gen_dir, "kernel")
    }

    /// The directory whose first entry names the kernel's version, given what
    /// the kernel link resolves to; `None` where that is no directory and has
    /// none above it.
    pub fn kernel_modules_dir(kernel: &StoreTarget) -> (r: Option<String>)
        ensures
            text_of(r) == modules_dir_with(*kernel, parent_of(kernel.path@)),
    {
        if kernel.is_dir {
            Some(join_path(kernel.path.as_str(), "lib/modules"))
        } else {
            match parent(kernel.path.as_str()) {
                Some(dir) => Some(join_path(dir.as_str(), "lib/modules")),
                None => None,
            }
        }
    }

    /// The program of the generation at `gen_dir` that tells the revision of
    /// its configuration, and the argument that asks for it.
    pub fn revision_query(gen_dir: &str) -> (r: Vec<String>)
        ensures
            r.deep_view() == seq![
                joined(gen_dir@, "sw/bin/nixos-version"@),
                "--configuration-revision"@,
            ],
    {
        let mut query: Vec<String> = Vec::new();
        query.push(join_path(gen_dir, "sw/bin/nixos-version"));
        query.push("--configuration-revision".to_owned());
        proof {
            assert(query.deep_view() =~= seq![
                joined(gen_dir@, "sw/bin/nixos-version"@),
                "--configuration-revision"@,
            ]);
        }
        query
    }

    /// Where the specialisations of the generation at `gen_dir` are listed.
    pub fn specialisation_dir(gen_dir: &str) -> (r: String)
        ensures
            r@ == joined(gen_dir@, "specialisation"@),
    {
        join_path(gen_dir, "specialisation")
    }

    /// The generations that the probes of a profile's entries describe, each
    /// with its number, in the order of the probes. An entry whose name
    /// states no number, or for which no whole record can be extracted, is
    /// left out.
    pub fn run_cmd(probes: &Vec<GenerationProbe>) -> (r: Vec<(GenNumber, GenerationMeta)>)
        ensures
            pairs_text(r@) == survivors(probes@),
    {
        let mut found: Vec<(GenNumber, GenerationMeta)> = Vec::new();
        let mut i: usize = 0;
        proof {
            assert(probes@.take(0) =~= Seq::empty());
            assert(pairs_text(found@) =~= Seq::empty());
        }
        while i < probes.len()
            invariant
                i <= probes.len(),
                pairs_text(found@) == survivors(probes@.take(i as int)),
            decreases probes.len() - i,
        {
            let ghost before = pairs_text(found@);
            proof {
                assert(probes@.take(i + 1).drop_last() =~= probes@.take(i as int));
                assert(probes@.take(i + 1).last() == probes@[i as int]);
            }
            let number = GenNumber::try_from(probes[i].link.as_str());
            if let Ok(num) = number {
                if let Ok(meta) = GenerationMeta::try_from(&probes[i]) {
                    let ghost seen = (num.num, meta@);
                    found.push((num, meta));
                    proof {
                        assert(pairs_text(found@) =~= before.push(seen));
                    }
                }
            }
            i = i + 1;
        }
        proof {
            assert(probes@.take(i as int) =~= probes@);
        }
        found
    }
}

impl GenDescTable {
    /// The table of the given records. Of two records with one number the
    /// later stays.
    pub fn new(current: GenNumber, pairs: Vec<(GenNumber, GenerationMeta)>) -> (r: GenDescTable)
        ensures
            r@.current == current.num,
            r@.desc == collected(pairs_text(pairs@)),
    {
        broadcast use vstd::std_specs::btree::group_btree_axioms;

        let mut desc: BTreeMap<u32, GenerationMeta> = BTreeMap::new();
        let ghost all = pairs_text(pairs@);
        proof {
            order::lemma_numbers_ordered();
            assert(all.take(0) =~= Seq::empty());
            assert(desc@.map_values(|meta: GenerationMeta| meta@) =~= Map::empty());
        }
        for pair in it: pairs
            invariant
                order::numbers_ordered(),
                it.seq() == pairs@,
                all == pairs_text(pairs@),
                desc@.map_values(|meta: GenerationMeta| meta@) == collected(
                    all.take(it.index() as int),
                ),
        {
            let ghost before = desc@;
            let ghost upto = all.take(it.index() + 1);
            proof {
                assert(upto.drop_last() =~= all.take(it.index() as int));
                assert(upto.last() == (pair.0.num, pair.1@));
            }
            let (num, meta) = pair;
            desc.insert(num.num, meta);
            proof {
                assert(desc@.map_values(|meta: GenerationMeta| meta@) =~= before.map_values(
                    |meta: GenerationMeta| meta@,
                ).insert(num.num, meta@));
            }
        }
        proof {
            assert(all.take(pairs@.len() as int) =~= all);
        }
        GenDescTable { current, desc }
    }

    /// The inventory of a profile: the generations that the probes of its
    /// entries describe, by their numbers. Entries that are no generation
    /// links, and generations of which no whole record can be had, are
    /// absent, and no error is raised for them.
    pub fn build(probes: &Vec<GenerationProbe>, current: GenNumber) -> (r: GenDescTable)
        ensures
            r@.current == current.num,
            r@.desc == collected(survivors(probes@)),
    {
        GenDescTable::new(current, GenerationMeta::run_cmd(probes))
    }

    /// The number of the generation in use.
    pub fn current(&self) -> (r: GenNumber)
        ensures
            r.num == self@.current,
    {
        self.current
    }

    /// The number of records.
    pub fn len(&self) -> (n: usize)
        ensures
            n == self@.desc.len(),
            self@.desc.dom().finite(),
    {
        broadcast use vstd::std_specs::btree::group_btree_axioms;

        proof {
            order::lemma_numbers_ordered();
            lemma_same_domain(self.desc@);
        }
        self.desc.len()
    }

    /// The record of the generation of the given number, if the table has
    /// one.
    pub fn get(&self, num: GenNumber) -> (r: Option<&GenerationMeta>)
        ensures
            match r {
                Some(meta) => self@.desc.contains_key(num.num) && self@.desc[num.num] == meta@,
                None => !self@.desc.contains_key(num.num),
            },
    {
        broadcast use vstd::std_specs::btree::group_btree_axioms;

        proof {
            order::lemma_numbers_ordered();
        }
        self.desc.get(&num.num)
    }

    /// The lines of the table, in ascending order of the numbers. The line
    /// of the generation in use is flagged; where that generation has no
    /// record, no line is.
    pub fn rows(&self) -> (r: Vec<GenerationRow<'_>>)
        ensures
            renders(rows_text(r@), self@),
            r@.len() == self@.desc.len(),
    {
        broadcast use vstd::std_specs::btree::group_btree_axioms;

        proof {
            order::lemma_numbers_ordered();
        }
        let mut rows: Vec<GenerationRow<'_>> = Vec::new();
        let iter = self.desc.iter();
        let ghost whole = iter.remaining();
        let ghost keys = whole.map_values(|kv: (&u32, &GenerationMeta)| *kv.0);
        proof {
            order::lemma_increasing_ascends(keys);
            lemma_same_domain(self.desc@);
        }
        for kv in it: iter
            invariant
                it.seq() == whole,
                whole == self.desc.iter().remaining(),
                rows@.len() == it.index(),
                forall|i: int|
                    0 <= i < rows@.len() ==> {
                        &&& (#[trigger] rows@[i]).num.num == *whole[i].0
                        &&& rows@[i].desc == whole[i].1
                        &&& rows@[i].current == (*whole[i].0 == self.current.num)
                    },
        {
            let (num, desc) = kv;
            let current = *num == self.current.num;
            rows.push(GenerationRow { num: GenNumber { num: *num }, desc, current });
        }
        proof {
            let shown = rows_text(rows@);
            assert forall|i: int, j: int| 0 <= i < j < shown.len() implies shown[i].num
                < shown[j].num by {
                assert(shown[i].num == keys[i]);
                assert(shown[j].num == keys[j]);
            }
            assert forall|i: int| 0 <= i < shown.len() implies {
                &&& self@.desc.contains_key(#[trigger] shown[i].num)
                &&& shown[i].desc == self@.desc[shown[i].num]
                &&& shown[i].current == (shown[i].num == self@.current)
            } by {
                assert(shown[i] == rows@[i]@);
                assert(self.desc@.contains_key(*whole[i].0));
                assert(self.desc@[*whole[i].0] == *whole[i].1);
            }
            assert forall|num: u32| #[trigger] self@.desc.contains_key(num) implies exists|i: int|
                0 <= i < shown.len() && (#[trigger] shown[i]).num == num by {
                assert(self.desc@.contains_key(num));
                assert(whole.contains((&num, &self.desc@[num])));
                let i = choose|i: int| 0 <= i < whole.len() && whole[i] == (&num, &self.desc@[num]);
                assert(shown[i].num == num);
            }
        }
        rows
    }
}

/// The generations that survive are those of the probes that describe one,
/// and no others.
pub proof fn lemma_survivors(probes: Seq<GenerationProbe>)
    ensures
        forall|i: int|
            0 <= i < survivors(probes).len() ==> exists|j: int|
                0 <= j < probes.len() && survivor(#[trigger] probes[j]) == Some(
                    #[trigger] survivors(probes)[i],
                ),
        forall|j: int|
            0 <= j < probes.len() && survivor(#[trigger] probes[j]) is Some ==> survivors(
                probes,
            ).contains(survivor(probes[j])->0),
        survivors(probes).len() <= probes.len(),
    decreases probes.len(),
{
    if probes.len() > 0 {
        let front = probes.drop_last();
        let kept = survivors(front);
        let all = survivors(probes);
        lemma_survivors(front);
        assert forall|i: int| 0 <= i < all.len() implies exists|j: int|
            0 <= j < probes.len() && survivor(#[trigger] probes[j]) == Some(#[trigger] all[i]) by {
            if i < kept.len() {
                assert(all[i] == kept[i]);
                let j = choose|j: int|
                    0 <= j < front.len() && survivor(#[trigger] front[j]) == Some(kept[i]);
                assert(probes[j] == front[j]);
            } else {
                assert(survivor(probes[probes.len() - 1]) == Some(all[i]));
            }
        }
        assert forall|j: int|
            0 <= j < probes.len() && survivor(#[trigger] probes[j]) is Some implies all.contains(
            survivor(probes[j])->0,
        ) by {
            let found = survivor(probes[j])->0;
            if j < front.len() {
                assert(probes[j] == front[j]);
                assert(kept.contains(found));
                let i = choose|i: int| 0 <= i < kept.len() && kept[i] == found;
                assert(all[i] == found);
            } else {
                assert(all[all.len() - 1] == found);
            }
        }
    }
}

/// The number of the generation that a probe describes, if it describes one.
pub open spec fn survivor_number(probe: GenerationProbe) -> Option<u32> {
    match survivor(probe) {
        Some(found) => Some(found.0),
        None => None,
    }
}

/// An inventory has a record for a number exactly where the probe of some
/// entry describes a generation of that number: entries that describe none
/// are absent from it.
pub proof fn lemma_inventory(probes: Seq<GenerationProbe>)
    ensures
        forall|num: u32| #[trigger]
            collected(survivors(probes)).contains_key(num) <==> exists|j: int|
                0 <= j < probes.len() && survivor_number(#[trigger] probes[j]) == Some(num),
        collected(survivors(probes)).len() <= probes.len(),
{
    let found = survivors(probes);
    lemma_survivors(probes);
    lemma_collected(found);
    assert forall|num: u32| #[trigger]
        collected(found).contains_key(num) <==> exists|j: int|
            0 <= j < probes.len() && survivor_number(#[trigger] probes[j]) == Some(num) by {
        if collected(found).contains_key(num) {
            let i = choose|i: int| 0 <= i < found.len() && (#[trigger] found[i]).0 == num;
            let j = choose|j: int|
                0 <= j < probes.len() && survivor(#[trigger] probes[j]) == Some(found[i]);
            assert(survivor_number(probes[j]) == Some(num));
        }
        if exists|j: int|
            0 <= j < probes.len() && survivor_number(#[trigger] probes[j]) == Some(num) {
            let j = choose|j: int|
                0 <= j < probes.len() && survivor_number(#[trigger] probes[j]) == Some(num);
            let wanted = survivor(probes[j])->0;
            assert(found.contains(wanted));
            let i = choose|i: int| 0 <= i < found.len() && found[i] == wanted;
            assert(found[i].0 == num);
        }
    }
    lemma_collected_size(found);
}

/// What is collected has at most as many records as there are pairs.
pub proof fn lemma_collected_size(pairs: Seq<(u32, MetaText)>)
    ensures
        collected(pairs).dom().finite(),
        collected(pairs).len() <= pairs.len(),
    decreases pairs.len(),
{
    if pairs.len() > 0 {
        lemma_collected_size(pairs.drop_last());
    }
}

/// What is collected has a record for exactly the numbers that occur, and
/// for each number the record of its last occurrence.
pub proof fn lemma_collected(pairs: Seq<(u32, MetaText)>)
    ensures
        forall|num: u32| #[trigger]
            collected(pairs).contains_key(num) <==> exists|i: int|
                0 <= i < pairs.len() && (#[trigger] pairs[i]).0 == num,
        forall|i: int|
            0 <= i < pairs.len() && (forall|j: int|
                i < j < pairs.len() ==> (#[trigger] pairs[j]).0 != pairs[i].0) ==> collected(
                pairs,
            )[(#[trigger] pairs[i]).0] == pairs[i].1,
        collected(pairs).dom().finite(),
    decreases pairs.len(),
{
    if pairs.len() > 0 {
        let front = pairs.drop_last();
        let last = pairs.last();
        lemma_collected(front);
        assert forall|num: u32| #[trigger]
            collected(pairs).contains_key(num) <==> exists|i: int|
                0 <= i < pairs.len() && (#[trigger] pairs[i]).0 == num by {
            if collected(pairs).contains_key(num) {
                if num == last.0 {
                    assert(pairs[pairs.len() - 1].0 == num);
                } else {
                    assert(collected(front).contains_key(num));
                    let i = choose|i: int| 0 <= i < front.len() && (#[trigger] front[i]).0 == num;
                    assert(pairs[i].0 == num);
                }
            }
            if exists|i: int| 0 <= i < pairs.len() && (#[trigger] pairs[i]).0 == num {
                let i = choose|i: int| 0 <= i < pairs.len() && (#[trigger] pairs[i]).0 == num;
                if i < front.len() {
                    assert(front[i].0 == num);
                    assert(collected(front).contains_key(num));
                }
            }
        }
        assert forall|i: int|
            0 <= i < pairs.len() && (forall|j: int|
                i < j < pairs.len() ==> (#[trigger] pairs[j]).0 != pairs[i].0) implies collected(
            pairs,
        )[(#[trigger] pairs[i]).0] == pairs[i].1 by {
            if i < front.len() {
                assert(front[i] == pairs[i]);
                assert(pairs[pairs.len() - 1].0 != pairs[i].0);
                assert forall|j: int| i < j < front.len() implies (#[trigger] front[j]).0
                    != front[i].0 by {
                    assert(front[j] == pairs[j]);
                }
            }
        }
    }
}

/// Seeing each record as mathematics does leaves the numbers as they are.
proof fn lemma_same_domain(desc: Map<u32, GenerationMeta>)
    requires
        desc.dom().finite(),
    ensures
        desc.map_values(|meta: GenerationMeta| meta@).dom() == desc.dom(),
        desc.map_values(|meta: GenerationMeta| meta@).len() == desc.len(),
{
    assert(desc.map_values(|meta: GenerationMeta| meta@).dom() =~= desc.dom());
}

/// Of the lines that render a table, the one of the generation in use is
/// flagged and no other; where the generation in use has no record, no line
/// is flagged.
pub proof fn lemma_current_flag(rows: Seq<RowText>, table: TableText)
    requires
        renders(rows, table),
    ensures
        table.desc.contains_key(table.current) ==> exists|i: int|
            0 <= i < rows.len() && (#[trigger] rows[i]).current && rows[i].num == table.current,
        forall|i: int|
            0 <= i < rows.len() && (#[trigger] rows[i]).current ==> rows[i].num == table.current,
        forall|i: int, j: int|
            0 <= i < rows.len() && 0 <= j < rows.len() && (#[trigger] rows[i]).current && (
            #[trigger] rows[j]).current ==> i == j,
        !table.desc.contains_key(table.current) ==> forall|i: int|
            0 <= i < rows.len() ==> !(#[trigger] rows[i]).current,
{
    if table.desc.contains_key(table.current) {
        let i = choose|i: int| 0 <= i < rows.len() && (#[trigger] rows[i]).num == table.current;
        assert(rows[i].current);
    } else {
        assert forall|i: int| 0 <= i < rows.len() implies !(#[trigger] rows[i]).current by {
            assert(table.desc.contains_key(rows[i].num));
        }
    }
    assert forall|i: int| 0 <= i < rows.len() && (#[trigger] rows[i]).current implies rows[i].num
        == table.current by {
        assert(table.desc.contains_key(rows[i].num));
    }
    assert forall|i: int, j: int|
        0 <= i < rows.len() && 0 <= j < rows.len() && (#[trigger] rows[i]).current && (
        #[trigger] rows[j]).current implies i == j by {
        assert(rows[i].num == rows[j].num);
        if i < j {
            assert(rows[i].num < rows[j].num);
        } else if j < i {
            assert(rows[j].num < rows[i].num);
        }
    }
}

} // verus!
