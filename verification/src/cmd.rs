//! What the command line asks for, and what is handed to the programs that
//! build and activate a configuration.

use crate::paths::{
    begins_with, extension, extension_of, file_name, file_name_of, join_path, joined, starts_with,
    text_of,
};
use crate::text::{has_prefix, has_suffix};
use vstd::prelude::*;
use vstd::string::*;

verus! {

/// The directory under which named profiles lie.
pub const PROFILES_DIR: &'static str = "/nix/var/nix/profiles/system-profiles";

/// Where a built configuration keeps the program that activates it, below the
/// directory that holds the result link.
pub const SWITCH_BIN: &'static str = "result/bin/switch-to-configuration";

/// What the name of a scratch directory of this program begins with.
pub const SCRATCH_PREFIX: &'static str = "nixrsbuild-";

/// What the name of this program ends with.
pub const PROGRAM_NAME: &'static str = "nixos-rsbuild";

/// The text of [`SCRATCH_PREFIX`].
pub open spec fn scratch_prefix() -> Seq<char> {
    "nixrsbuild-"@
}

/// The text of [`PROGRAM_NAME`].
pub open spec fn program_name() -> Seq<char> {
    "nixos-rsbuild"@
}

/// Commands that involve building: switch, test, boot and the like.
#[derive(Debug, Clone, Copy, PartialEq, Eq, Structural)]
pub enum BuildSubComms {
    /// Build a configuration, activate it, and make it the default of the boot menu.
    Switch,
    /// Build a configuration and make it the default of the boot menu, without activating it.
    Boot,
    /// Build and activate a configuration, without adding it to the boot menu.
    Test,
    /// Build and link only: no activation, no change of the boot menu.
    Build,
    /// Build only, and show what activation would change.
    DryActivate,
    /// Build nothing, and show what a build would do.
    DryBuild,
    BuildVm,
    BuildVmWithBootloader,
}

/// The keyword of a command, as the activation program reads it: the
/// command's name in lower case with `-` between its words.
pub open spec fn keyword(task: BuildSubComms) -> Seq<char> {
    match task {
        BuildSubComms::Switch => "switch"@,
        BuildSubComms::Boot => "boot"@,
        BuildSubComms::Test => "test"@,
        BuildSubComms::Build => "build"@,
        BuildSubComms::DryActivate => "dry-activate"@,
        BuildSubComms::DryBuild => "dry-build"@,
        BuildSubComms::BuildVm => "build-vm"@,
        BuildSubComms::BuildVmWithBootloader => "build-vm-with-bootloader"@,
    }
}

/// Whether a command hands the built configuration to the activation program.
pub open spec fn hands_over(task: BuildSubComms) -> bool {
    task == BuildSubComms::Switch || task == BuildSubComms::Boot || task == BuildSubComms::Test
        || task == BuildSubComms::DryActivate
}

/// The line that runs the activation program in an empty environment, but
/// for the locale archive.
pub open spec fn activation_line(
    task: BuildSubComms,
    locale_archive: Seq<char>,
    out_link: Seq<char>,
) -> Seq<char> {
    "env -i LOCALE_ARCHIVE="@ + locale_archive + " "@ + out_link + " "@ + keyword(task)
}

impl BuildSubComms {
    /// The keyword of the command.
    pub fn to_string(&self) -> (r: String)
        ensures
            r@ == keyword(*self),
    {
        match self {
            BuildSubComms::Switch => "switch".to_owned(),
            BuildSubComms::Boot => "boot".to_owned(),
            BuildSubComms::Test => "test".to_owned(),
            BuildSubComms::Build => "build".to_owned(),
            BuildSubComms::DryActivate => "dry-activate".to_owned(),
            BuildSubComms::DryBuild => "dry-build".to_owned(),
            BuildSubComms::BuildVm => "build-vm".to_owned(),
            BuildSubComms::BuildVmWithBootloader => "build-vm-with-bootloader".to_owned(),
        }
    }

    /// Whether the command hands the built configuration to the activation
    /// program: `switch`, `boot`, `test` and `dry-activate` do.
    pub fn activates(&self) -> (b: bool)
        ensures
            b == hands_over(*self),
    {
        match self {
            BuildSubComms::Switch
            | BuildSubComms::Boot
            | BuildSubComms::Test
            | BuildSubComms::DryActivate => true,
            _ => false,
        }
    }

    /// Where the activation program of a configuration lies whose result link
    /// is in `res_dir`.
    pub fn switch_bin(res_dir: &str) -> (r: String)
        ensures
            r@ == joined(res_dir@, "result/bin/switch-to-configuration"@),
    {
        join_path(res_dir, SWITCH_BIN)
    }

    /// The command that activates a built configuration: `sudo nu -c <line>`,
    /// the line running the activation program at `out_link` with the
    /// command's keyword. `None` for a command that activates nothing.
    pub fn activation_command(&self, locale_archive: &str, out_link: &str) -> (r: Option<
        Vec<String>,
    >)
        ensures
            hands_over(*self) ==> r is Some && r->0.deep_view() == seq![
                "sudo"@,
                "nu"@,
                "-c"@,
                activation_line(*self, locale_archive@, out_link@),
            ],
            !hands_over(*self) ==> r is None,
    {
        if !self.activates() {
            return None;
        }
        let mut line = "env -i LOCALE_ARCHIVE=".to_owned();
        line.append(locale_archive);
        line.append(" ");
        line.append(out_link);
        line.append(" ");
        line.append(self.to_string().as_str());
        let mut command: Vec<String> = Vec::new();
        command.push("sudo".to_owned());
        command.push("nu".to_owned());
        command.push("-c".to_owned());
        command.push(line);
        proof {
            assert(command.deep_view() =~= seq![
                "sudo"@,
                "nu"@,
                "-c"@,
                activation_line(*self, locale_archive@, out_link@),
            ]);
        }
        Some(command)
    }
}

/// The directory of the profile of the given name.
pub fn profile_name_parse(prof_name: &str) -> (r: Result<String, String>)
    ensures
        r is Ok,
        r->Ok_0@ == joined("/nix/var/nix/profiles/system-profiles"@, prof_name@),
{
    Ok(join_path(PROFILES_DIR, prof_name))
}

/// Why a path is not accepted as a nix file.
#[derive(Debug, Clone, Copy, PartialEq, Eq, Structural)]
pub enum NixFileError {
    /// Nothing lies at the path.
    NotFound,
    /// What lies there is no file.
    NotAFile,
    /// The path has another extension than `nix`, or none.
    WrongExtension,
}

/// What is decided of a path given as a nix file, for an extension handed in.
pub open spec fn nix_file_with(exists: bool, is_file: bool, ext: Option<Seq<char>>) -> Result<
    (),
    NixFileError,
> {
    if !exists {
        Err(NixFileError::NotFound)
    } else if !is_file {
        Err(NixFileError::NotAFile)
    } else if ext != Some("nix"@) {
        Err(NixFileError::WrongExtension)
    } else {
        Ok(())
    }
}

/// Decides on a path given as a nix file, for what the filesystem says of it
/// and the extension found in it.
pub fn nix_file_decision(exists: bool, is_file: bool, ext: Option<String>) -> (r: Result<
    (),
    NixFileError,
>)
    ensures
        r == nix_file_with(exists, is_file, text_of(ext)),
{
    if !exists {
        return Err(NixFileError::NotFound);
    }
    if !is_file {
        return Err(NixFileError::NotAFile);
    }
    match ext {
        Some(ext) => if ext == "nix".to_owned() {
            Ok(())
        } else {
            Err(NixFileError::WrongExtension)
        },
        None => Err(NixFileError::WrongExtension),
    }
}

/// Accepts a path as a nix file: something must lie there, it must be a file,
/// and the path's extension must be `nix`. The path is handed back.
pub fn nix_file_exists(path: &str, exists: bool, is_file: bool) -> (r: Result<String, NixFileError>)
    ensures
        match nix_file_with(exists, is_file, extension_of(path@)) {
            Ok(()) => r is Ok && r->Ok_0@ == path@,
            Err(e) => r == Err::<String, NixFileError>(e),
        },
{
    match nix_file_decision(exists, is_file, extension(path)) {
        Ok(()) => Ok(path.to_owned()),
        Err(e) => Err(e),
    }
}

/// Whether a program invoked under this name is this program.
pub fn invoked_as_self(arg0: &str) -> (b: bool)
    ensures
        b == program_name().is_suffix_of(arg0@),
{
    has_suffix(arg0, PROGRAM_NAME)
}

/// Whether a directory is a scratch directory of this program, for the
/// final component of its path and for whether it lies below the system's
/// directory for temporary files.
pub open spec fn scratch_with(below: bool, name: Option<Seq<char>>) -> bool {
    below && name is Some && scratch_prefix().is_prefix_of(name->0)
}

/// Decides whether a directory is a scratch directory of this program, given
/// whether it lies below the system's directory for temporary files, and the
/// final component of its path.
pub fn scratch_decision(below: bool, name: Option<String>) -> (b: bool)
    ensures
        b == scratch_with(below, text_of(name)),
{
    match name {
        Some(name) => below && has_prefix(name.as_str(), SCRATCH_PREFIX),
        None => false,
    }
}

/// Whether `res_dir` is a scratch directory that this program made and may
/// remove: it lies below `sys_td`, the system's directory for temporary
/// files, and its name begins with `nixrsbuild-`.
pub fn is_scratch_dir(res_dir: &str, sys_td: &str) -> (b: bool)
    ensures
        b == scratch_with(begins_with(res_dir@, sys_td@), file_name_of(res_dir@)),
{
    scratch_decision(starts_with(res_dir, sys_td), file_name(res_dir))
}

/// The part of a built configuration's tree at which the activation program
/// lies: `bin/switch-to-configuration`, below the named specialisation for
/// `switch` and `test`.
pub open spec fn bin_subpath(task: BuildSubComms, specialisation: Option<Seq<char>>) -> Seq<char> {
    let base = if specialisation is Some && (task == BuildSubComms::Switch || task
        == BuildSubComms::Test) {
        joined(joined(Seq::empty(), "specialisation"@), specialisation->0)
    } else {
        Seq::empty()
    };
    joined(joined(base, "bin"@), "switch-to-configuration"@)
}

/// The path, inside a built configuration, of the program that activates it
/// for the given command and specialisation.
pub fn switch_to_bin_subpath(task: &BuildSubComms, specialisation: Option<&str>) -> (r: String)
    ensures
        r@ == bin_subpath(
            *task,
            match specialisation {
                Some(name) => Some(name@),
                None => None,
            },
        ),
{
    proof {
        reveal_strlit("");
    }
    let mut buf = String::new();
    match (task, specialisation) {
        (BuildSubComms::Switch, Some(sp)) | (BuildSubComms::Test, Some(sp)) => {
            buf = join_path(buf.as_str(), "specialisation");
            buf = join_path(buf.as_str(), sp);
        },
        _ => {},
    }
    buf = join_path(buf.as_str(), "bin");
    join_path(buf.as_str(), "switch-to-configuration")
}

/// A variable of the environment with its value, as mathematics sees it.
pub open spec fn settings_text(settings: Seq<(String, String)>) -> Seq<(Seq<char>, Seq<char>)> {
    settings.map_values(|pair: (String, String)| (pair.0@, pair.1@))
}

/// The environment of the activation program: nothing but the locale
/// archive, where there is one, and the request to install the boot loader,
/// where it was made.
pub open spec fn switch_settings(
    locale_archive: Option<Seq<char>>,
    install_bootloader: bool,
) -> Seq<(Seq<char>, Seq<char>)> {
    let locale = match locale_archive {
        Some(archive) => seq![("LOCALE_ARCHIVE"@, archive)],
        None => Seq::empty(),
    };
    if install_bootloader {
        locale.push(("NIXOS_INSTALL_BOOTLOADER"@, "1"@))
    } else {
        locale
    }
}

/// The variables that the activation program is started with, in an
/// environment that is otherwise empty.
pub fn switch_environment(locale_archive: Option<String>, install_bootloader: bool) -> (r: Vec<
    (String, String),
>)
    ensures
        settings_text(r@) == switch_settings(text_of(locale_archive), install_bootloader),
{
    let mut settings: Vec<(String, String)> = Vec::new();
    proof {
        assert(settings_text(settings@) =~= Seq::empty());
    }
    if let Some(archive) = locale_archive {
        settings.push(("LOCALE_ARCHIVE".to_owned(), archive));
        proof {
            assert(settings_text(settings@) =~= seq![("LOCALE_ARCHIVE"@, archive@)]);
        }
    }
    if install_bootloader {
        let ghost before = settings_text(settings@);
        settings.push(("NIXOS_INSTALL_BOOTLOADER".to_owned(), "1".to_owned()));
        proof {
            assert(settings_text(settings@) =~= before.push(("NIXOS_INSTALL_BOOTLOADER"@, "1"@)));
        }
    }
    settings
}

/// The arguments with which `nix-env` makes a built configuration the
/// newest generation of a profile.
pub fn set_profile_arguments(profile_path: &str, config_path: &str) -> (r: Vec<String>)
    ensures
        r.deep_view() == seq!["-p"@, profile_path@, "--set"@, config_path@],
{
    let mut arguments: Vec<String> = Vec::new();
    arguments.push("-p".to_owned());
    arguments.push(profile_path.to_owned());
    arguments.push("--set".to_owned());
    arguments.push(config_path.to_owned());
    proof {
        assert(arguments.deep_view() =~= seq!["-p"@, profile_path@, "--set"@, config_path@]);
    }
    arguments
}

} // verus!
