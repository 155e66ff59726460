use nixos_rsbuild::flake::{
    FlakeAttr, FlakeDir, FlakeDirError, FlakeRef, FlakeRefInput, HostError, HostIdentity,
    ManifestProbe, ResolveError, Resolved,
};
use nixos_rsbuild::utils::{DEFAULT_FILE_DIR, DEFAULT_FLAKE_NIX};

fn regular_manifest(path: &str) -> ManifestProbe {
    ManifestProbe {
        dir_exists: true,
        manifest_exists: Some(true),
        resolved: Resolved::Path {
            path: path.to_string(),
            is_dir: false,
        },
    }
}

fn host(name: &str) -> HostIdentity {
    HostIdentity::Name(name.to_string())
}

#[test]
fn flake_ref_display() {
    let mut data = FlakeRef {
        source: FlakeDir {
            canoned_dir: "/fizz/buzz".to_string(),
        },
        output_selector: None,
    };

    assert_eq!(data.to_string(), "/fizz/buzz");
    data.output_selector = Some(FlakeAttr { attr_path: vec![] });
    assert_eq!(data.to_string(), "/fizz/buzz");
    data.output_selector = Some(FlakeAttr {
        attr_path: vec!["foo".into()],
    });
    assert_eq!(data.to_string(), "/fizz/buzz#foo");
    data.output_selector = Some(FlakeAttr {
        attr_path: vec!["foo".into(), "bar".into()],
    });
    assert_eq!(data.to_string(), "/fizz/buzz#foo.bar");
    data.source.canoned_dir = "/bop/pow/".to_string();
    assert_eq!(data.to_string(), "/bop/pow/#foo.bar");
}

#[test]
fn flake_ref_try_from() {
    let assert = |s| {
        let data = FlakeRefInput::try_from(s).unwrap();
        assert_eq!(data.to_string(), s);
    };

    assert("/fizz/buzz");
    assert("/fizz/buzz/");
    assert("/fizz/buzz#foo");
    assert("/fizz/buzz#foo.bar");
    assert!(FlakeRefInput::try_from("/fizz/buzz#").is_err());
    assert!(FlakeRefInput::try_from("/fizz/buzz#foo#").is_err());
    assert!(FlakeRefInput::try_from(r#"/fizz/buzz#foo""#).is_err());
}

#[test]
fn try_from_takes_the_reference_apart() {
    assert_eq!(
        FlakeRefInput::try_from("dir#a.b.c").unwrap(),
        FlakeRefInput {
            source: Some("dir".to_string()),
            output_selector: Some(FlakeAttr {
                attr_path: vec!["a".to_string(), "b".to_string(), "c".to_string()]
            }),
        }
    );
    assert_eq!(
        FlakeRefInput::try_from("dir").unwrap(),
        FlakeRefInput {
            source: Some("dir".to_string()),
            output_selector: None,
        }
    );
    assert_eq!(
        FlakeRefInput::try_from("#a").unwrap(),
        FlakeRefInput {
            source: Some(String::new()),
            output_selector: Some(FlakeAttr {
                attr_path: vec!["a".to_string()]
            }),
        }
    );
    assert_eq!(
        FlakeRefInput::try_from("").unwrap(),
        FlakeRefInput {
            source: Some(String::new()),
            output_selector: None,
        }
    );
}

#[test]
fn try_from_round_trips() {
    for text in [
        "dir#a.b.c",
        "dir",
        "/a/b/#x",
        "./rel#nixosConfigurations.host",
        "#a..b",
        "dïr#ü",
    ] {
        assert_eq!(FlakeRefInput::try_from(text).unwrap().to_string(), text);
    }
}

#[test]
fn try_from_rejects_malformed_references() {
    assert_eq!(FlakeRefInput::try_from("dir#").unwrap_err(), "dir#");
    assert_eq!(FlakeRefInput::try_from("dir#a#").unwrap_err(), "dir#a#");
    assert_eq!(FlakeRefInput::try_from("dir#a\"").unwrap_err(), "dir#a\"");
    assert_eq!(FlakeRefInput::try_from("dir##").unwrap_err(), "dir##");
    assert!(FlakeRefInput::try_from("dir\"x").is_ok());
}

#[test]
fn to_string_without_a_directory() {
    let input = FlakeRefInput {
        source: None,
        output_selector: Some(FlakeAttr {
            attr_path: vec!["a".to_string(), "b".to_string()],
        }),
    };
    assert_eq!(input.to_string(), "#a.b");
    let bare = FlakeRefInput {
        source: None,
        output_selector: None,
    };
    assert_eq!(bare.to_string(), "");
}

#[test]
fn manifest_location_joins_the_manifest_name() {
    assert_eq!(FlakeDir::manifest_location("/etc/nixos"), "/etc/nixos/flake.nix");
    assert_eq!(FlakeDir::manifest_location("/etc/nixos/"), "/etc/nixos/flake.nix");
    assert_eq!(FlakeDir::manifest_location("rel/dir"), "rel/dir/flake.nix");
    assert_eq!(FlakeDir::manifest_location(""), "flake.nix");
    let named = FlakeRefInput::try_from("/some/dir#x").unwrap();
    assert_eq!(named.manifest_location(), "/some/dir/flake.nix");
    let unnamed = FlakeRefInput {
        source: None,
        output_selector: None,
    };
    assert_eq!(unnamed.manifest_location(), DEFAULT_FLAKE_NIX);
    assert_eq!(FlakeDir::manifest_location(DEFAULT_FILE_DIR), DEFAULT_FLAKE_NIX);
}

#[test]
fn try_from_path_fails_on_an_empty_directory() {
    let probe = ManifestProbe {
        dir_exists: true,
        manifest_exists: Some(false),
        resolved: Resolved::Failed,
    };
    assert_eq!(
        FlakeDir::try_from_path(&probe),
        Err(FlakeDirError::ManifestMissing)
    );
}

#[test]
fn try_from_path_returns_the_directory_of_a_regular_manifest() {
    let dir = FlakeDir::try_from_path(&regular_manifest("/tmp/work/flake.nix")).unwrap();
    assert_eq!(dir.as_str(), "/tmp/work");
    assert_eq!(dir.to_string(), "/tmp/work");
    assert_eq!(
        dir,
        FlakeDir {
            canoned_dir: "/tmp/work".to_string()
        }
    );
}

#[test]
fn try_from_path_follows_the_manifest_to_its_directory() {
    let dir = FlakeDir::try_from_path(&regular_manifest("/home/me/dotfiles/nixos/flake.nix"));
    assert_eq!(dir.unwrap().as_str(), "/home/me/dotfiles/nixos");
}

#[test]
fn try_from_path_errors() {
    let mut probe = regular_manifest("/tmp/work/flake.nix");
    probe.dir_exists = false;
    assert_eq!(
        FlakeDir::try_from_path(&probe),
        Err(FlakeDirError::NotADirectory)
    );
    probe.dir_exists = true;
    probe.manifest_exists = None;
    assert_eq!(
        FlakeDir::try_from_path(&probe),
        Err(FlakeDirError::ExistenceUnknown)
    );
    probe.manifest_exists = Some(true);
    probe.resolved = Resolved::Failed;
    assert_eq!(
        FlakeDir::try_from_path(&probe),
        Err(FlakeDirError::Unresolvable)
    );
    probe.resolved = Resolved::NotText;
    assert_eq!(
        FlakeDir::try_from_path(&probe),
        Err(FlakeDirError::InvalidUtf8)
    );
    probe.resolved = Resolved::Path {
        path: "/tmp/work/flake.nix".to_string(),
        is_dir: true,
    };
    assert_eq!(
        FlakeDir::try_from_path(&probe),
        Err(FlakeDirError::ManifestIsDirectory)
    );
    assert_eq!(
        FlakeDir::try_from_path(&regular_manifest("/tmp/work/other.nix")),
        Err(FlakeDirError::ManifestNameMismatch)
    );
    assert_eq!(
        FlakeDir::try_from_path(&regular_manifest("/tmp/work/flake.nix/..")),
        Err(FlakeDirError::ManifestNameMismatch)
    );
    assert_eq!(
        FlakeDir::try_from_path(&regular_manifest("/")),
        Err(FlakeDirError::ManifestNameMismatch)
    );
}

#[test]
fn from_resolved_decides_on_given_parts() {
    let resolved = Resolved::Path {
        path: "anything".to_string(),
        is_dir: false,
    };
    assert_eq!(
        FlakeDir::from_resolved(
            &resolved,
            Some("flake.nix".to_string()),
            Some("/the/dir".to_string())
        ),
        Ok(FlakeDir {
            canoned_dir: "/the/dir".to_string()
        })
    );
    assert_eq!(
        FlakeDir::from_resolved(&resolved, Some("flake.nix".to_string()), None),
        Err(FlakeDirError::NoParent)
    );
    assert_eq!(
        FlakeDir::from_resolved(&resolved, None, Some("/the/dir".to_string())),
        Err(FlakeDirError::ManifestNameMismatch)
    );
    assert_eq!(
        FlakeDir::from_resolved(
            &resolved,
            Some("Flake.nix".to_string()),
            Some("/the/dir".to_string())
        ),
        Err(FlakeDirError::ManifestNameMismatch)
    );
}

#[test]
fn locate_a_bare_manifest_name() {
    let resolved = Resolved::Path {
        path: "flake.nix".to_string(),
        is_dir: false,
    };
    assert_eq!(
        FlakeDir::locate(&resolved),
        Ok(FlakeDir {
            canoned_dir: String::new()
        })
    );
}

#[test]
fn canoned_default_dir_is_the_directory_of_the_resolved_manifest() {
    let resolved = Resolved::Path {
        path: "/home/me/conf/flake.nix".to_string(),
        is_dir: false,
    };
    assert_eq!(
        FlakeRefInput::canoned_default_dir(&resolved)
            .unwrap()
            .as_str(),
        "/home/me/conf"
    );
    assert_eq!(
        FlakeRefInput::canoned_default_dir(&Resolved::Failed),
        Err(FlakeDirError::Unresolvable)
    );
    let dir = Resolved::Path {
        path: "/home/me/conf".to_string(),
        is_dir: true,
    };
    assert_eq!(
        FlakeRefInput::canoned_default_dir(&dir),
        Err(FlakeDirError::ManifestIsDirectory)
    );
    let other = Resolved::Path {
        path: "/home/me/conf/default.nix".to_string(),
        is_dir: false,
    };
    assert_eq!(
        FlakeRefInput::canoned_default_dir(&other),
        Err(FlakeDirError::ManifestNameMismatch)
    );
}

#[test]
fn init_flake_ref_for_a_selected_attribute() {
    let input = FlakeRefInput::try_from("/cfg#laptop").unwrap();
    let resolved = input
        .init_flake_ref_for(&regular_manifest("/store/cfg/flake.nix"), &host("box"))
        .unwrap();
    assert_eq!(
        resolved.to_string(),
        "/store/cfg#nixosConfigurations.laptop.config.system.build.toplevel"
    );
}

#[test]
fn init_flake_ref_for_the_default_attribute() {
    let input = FlakeRefInput::try_from("/cfg").unwrap();
    let resolved = input
        .init_flake_ref_for(&regular_manifest("/cfg/flake.nix"), &host("box"))
        .unwrap();
    assert_eq!(
        resolved.to_string(),
        "/cfg#nixosConfigurations.box.config.system.build.toplevel"
    );
    assert_eq!(resolved.source.as_str(), "/cfg");
    assert_eq!(resolved.output_selector.unwrap().len(), 6);
}

#[test]
fn init_flake_ref_for_a_lone_group() {
    let input = FlakeRefInput::try_from("/cfg#nixosConfigurations").unwrap();
    let resolved = input
        .init_flake_ref_for(&regular_manifest("/cfg/flake.nix"), &host("box"))
        .unwrap();
    assert_eq!(
        resolved.to_string(),
        "/cfg#nixosConfigurations.box.config.system.build.toplevel"
    );
    let fallback = input
        .init_flake_ref_for(&regular_manifest("/cfg/flake.nix"), &HostIdentity::Unavailable)
        .unwrap();
    assert_eq!(
        fallback.to_string(),
        "/cfg#nixosConfigurations.default.config.system.build.toplevel"
    );
}

#[test]
fn init_flake_ref_for_keeps_a_grouped_selector() {
    let input = FlakeRefInput::try_from("/cfg#nixosConfigurations.vm").unwrap();
    let resolved = input
        .init_flake_ref_for(&regular_manifest("/cfg/flake.nix"), &HostIdentity::NotText)
        .unwrap();
    assert_eq!(
        resolved.to_string(),
        "/cfg#nixosConfigurations.vm.config.system.build.toplevel"
    );
}

#[test]
fn init_flake_ref_for_without_a_directory() {
    let input = FlakeRefInput {
        source: None,
        output_selector: None,
    };
    let probe = ManifestProbe {
        dir_exists: false,
        manifest_exists: None,
        resolved: Resolved::Path {
            path: "/home/me/conf/flake.nix".to_string(),
            is_dir: false,
        },
    };
    let resolved = input.init_flake_ref_for(&probe, &host("box")).unwrap();
    assert_eq!(
        resolved.to_string(),
        "/home/me/conf#nixosConfigurations.box.config.system.build.toplevel"
    );
}

#[test]
fn init_flake_ref_for_errors() {
    let input = FlakeRefInput::try_from("/cfg").unwrap();
    let missing = ManifestProbe {
        dir_exists: true,
        manifest_exists: Some(false),
        resolved: Resolved::Failed,
    };
    assert_eq!(
        input.init_flake_ref_for(&missing, &HostIdentity::NotText),
        Err(ResolveError::Source(FlakeDirError::ManifestMissing))
    );
    let good = regular_manifest("/cfg/flake.nix");
    assert_eq!(
        input.init_flake_ref_for(&good, &HostIdentity::NotText),
        Err(ResolveError::InvalidHostIdentity)
    );
    assert_eq!(
        input.init_flake_ref_for(&good, &HostIdentity::Unavailable),
        Err(ResolveError::HostIdentityUnavailable)
    );
    let lone = FlakeRefInput::try_from("/cfg#nixosConfigurations").unwrap();
    assert_eq!(
        lone.init_flake_ref_for(&good, &HostIdentity::NotText),
        Err(ResolveError::InvalidHostIdentity)
    );
}

#[test]
fn init_flake_ref_looks_the_host_up() {
    let input = FlakeRefInput::try_from("/cfg#nixosConfigurations.vm").unwrap();
    let resolved = input
        .init_flake_ref(&regular_manifest("/cfg/flake.nix"))
        .unwrap();
    assert_eq!(
        resolved.to_string(),
        "/cfg#nixosConfigurations.vm.config.system.build.toplevel"
    );
}

#[test]
fn default_for_every_host_lookup() {
    let input = FlakeRefInput::default_for(&host("box")).unwrap();
    assert_eq!(input.to_string(), "/etc/nixos#nixosConfigurations.box");
    assert_eq!(input.source, Some(DEFAULT_FILE_DIR.to_string()));
    assert_eq!(
        FlakeRefInput::default_for(&HostIdentity::NotText),
        Err(HostError::InvalidHostIdentity)
    );
    assert_eq!(
        FlakeRefInput::default_for(&HostIdentity::Unavailable),
        Err(HostError::HostIdentityUnavailable)
    );
}

#[test]
fn try_default_starts_at_the_default_directory() {
    if let Ok(input) = FlakeRefInput::try_default() {
        assert_eq!(input.source, Some("/etc/nixos".to_string()));
        assert_eq!(input.output_selector.unwrap().attr_path[0], "nixosConfigurations");
    }
}

#[test]
fn build_arguments_name_the_reference_and_the_link() {
    let reference = FlakeRef {
        source: FlakeDir {
            canoned_dir: "/cfg".to_string(),
        },
        output_selector: Some(FlakeAttr {
            attr_path: vec!["a".to_string(), "b".to_string()],
        }),
    };
    assert_eq!(
        reference.build_arguments("/tmp/nixrsbuild-1"),
        vec!["build", "/cfg#a.b", "--out-link", "/tmp/nixrsbuild-1/result"]
    );
}
