use nixos_rsbuild::list_generations::file_utils::{
    CanonedStorePath, StoreEntryType, StoreNameError,
};
use nixos_rsbuild::list_generations::{
    distinct_names, BuildTime, GenDescTable, GenNumber, GenerationError, GenerationMeta,
    GenerationProbe, KernelVersion, NixosVersion, NumberedGenMeta, StoreTarget,
};

const DIGEST: &str = "0123456789abcdfghijklmnpqrsvwxyz";

fn store_path(name: &str) -> String {
    format!("/nix/store/{}-{}", DIGEST, name)
}

fn probe(link: &str) -> GenerationProbe {
    GenerationProbe {
        link: format!("/nix/var/nix/profiles/{}", link),
        target: Some(StoreTarget {
            path: store_path("nixos-system-box-24.05"),
            is_dir: true,
        }),
        created: Some(BuildTime {
            secs: 1_700_000_000,
            nanos: 5,
        }),
        version_line: Some("24.05.20240531.63dacb4\n".to_string()),
        kernel_entry: Some("6.6.32".to_string()),
        revision: Some("abc123".to_string()),
        specialisations: Some(vec!["gaming".to_string(), "work".to_string()]),
    }
}

fn numbers(table: &GenDescTable) -> Vec<u32> {
    table.rows().iter().map(|row| row.num.num).collect()
}

fn flagged(table: &GenDescTable) -> Vec<u32> {
    table
        .rows()
        .iter()
        .filter(|row| row.current)
        .map(|row| row.num.num)
        .collect()
}

#[test]
fn gen_number_from_link_name() {
    assert_eq!(
        GenNumber::from_link_name("system-14-link"),
        Ok(GenNumber { num: 14 })
    );
    assert_eq!(
        GenNumber::from_link_name("system-0-link"),
        Ok(GenNumber { num: 0 })
    );
    assert_eq!(
        GenNumber::from_link_name("system-007-link"),
        Ok(GenNumber { num: 7 })
    );
    assert_eq!(
        GenNumber::from_link_name("system-4294967295-link"),
        Ok(GenNumber { num: u32::MAX })
    );
    assert_eq!(
        GenNumber::from_link_name("system-00000000000000000000012-link"),
        Ok(GenNumber { num: 12 })
    );
}

#[test]
fn gen_number_rejects_other_names() {
    for name in [
        "system-x-link",
        "system--link",
        "system-link",
        "system-4294967296-link",
        "system-99999999999999999999-link",
        "system-+14-link",
        "system--14-link",
        "system-system-14-link",
        "system-14-link-link",
        "System-14-link",
        "system-14-link ",
        " system-14-link",
        "system-1 4-link",
        "system-１４-link",
        "system-14-lnk",
        "profile-14-link",
        "14",
        "",
    ] {
        assert_eq!(
            GenNumber::from_link_name(name),
            Err(GenerationError::InvalidGenerationName),
            "{:?}",
            name
        );
    }
}

#[test]
fn gen_number_try_from_a_path() {
    assert_eq!(
        GenNumber::try_from("/nix/var/nix/profiles/system-14-link"),
        Ok(GenNumber { num: 14 })
    );
    assert_eq!(
        GenNumber::try_from("system-3-link"),
        Ok(GenNumber { num: 3 })
    );
    assert_eq!(
        GenNumber::try_from("/nix/var/nix/profiles/system-14-link/"),
        Ok(GenNumber { num: 14 })
    );
    assert_eq!(
        GenNumber::try_from("/nix/var/nix/profiles/system-x-link"),
        Err(GenerationError::InvalidGenerationName)
    );
    assert_eq!(
        GenNumber::try_from("/nix/var/nix/profiles/system-14-link/.."),
        Err(GenerationError::InvalidGenerationName)
    );
    assert_eq!(
        GenNumber::try_from("/"),
        Err(GenerationError::InvalidGenerationName)
    );
}

#[test]
fn gen_number_from_file_name() {
    assert_eq!(
        GenNumber::from_file_name(Some("system-2-link".to_string())),
        Ok(GenNumber { num: 2 })
    );
    assert_eq!(
        GenNumber::from_file_name(None),
        Err(GenerationError::InvalidGenerationName)
    );
}

#[test]
fn gen_number_from_u32_and_order() {
    assert_eq!(GenNumber::from(3), GenNumber { num: 3 });
    let n: GenNumber = 9.into();
    assert_eq!(n.num, 9);
    assert!(GenNumber { num: 2 } < GenNumber { num: 14 });
    assert!(GenNumber { num: 14 } > GenNumber { num: 2 });
    assert_eq!(
        GenNumber { num: 5 }.cmp(&GenNumber { num: 5 }),
        std::cmp::Ordering::Equal
    );
}

#[test]
fn store_entry_decode() {
    let name = format!("{}-nixos-system-box-24.05", DIGEST);
    assert_eq!(
        CanonedStorePath::decode(&name, true),
        Ok(CanonedStorePath {
            digest: DIGEST.to_string(),
            name: "nixos-system-box-24.05".to_string(),
            entry_type: StoreEntryType::Directory,
        })
    );
}

#[test]
fn store_entry_kinds() {
    let kind = |name: &str, is_dir: bool| {
        CanonedStorePath::decode(&format!("{}-{}", DIGEST, name), is_dir)
            .unwrap()
            .entry_type
    };
    assert_eq!(kind("hello.drv", false), StoreEntryType::ExtDrv);
    assert_eq!(kind("hello.drv", true), StoreEntryType::Directory);
    assert_eq!(kind("hello", false), StoreEntryType::ExtMissing);
    assert_eq!(kind("hello.tar.gz", false), StoreEntryType::ExtOther);
    assert_eq!(kind("hello.DRV", false), StoreEntryType::ExtOther);
    assert_eq!(kind("hello.", false), StoreEntryType::ExtOther);
    assert_eq!(kind("hello.tar.drv", false), StoreEntryType::ExtDrv);
    assert_eq!(kind("", false), StoreEntryType::ExtMissing);
}

#[test]
fn store_entry_decode_accepts_any_digest_alphabet() {
    for digest in [
        "0123456789abcdfghijklmnpqrsvwxyz",
        "ABCDEFGHIJKLMNOPQRSTUVWXYZ012345",
        "................................",
        "éééééééééééééééééééééééééééééééé",
        "                                ",
    ] {
        let entry = CanonedStorePath::decode(&format!("{}-name-1.0", digest), false).unwrap();
        assert_eq!(entry.digest, digest);
        assert_eq!(entry.name, "name-1.0");
    }
    let empty_name = CanonedStorePath::decode(&format!("{}-", DIGEST), true).unwrap();
    assert_eq!(empty_name.name, "");
}

#[test]
fn store_entry_decode_rejects_a_misplaced_dash() {
    let short = &DIGEST[..31];
    let long = format!("{}x", DIGEST);
    for name in [
        format!("{}-name", short),
        format!("{}-name", long),
        DIGEST.to_string(),
        format!("{}name", DIGEST),
        format!("0123-{}-name", &DIGEST[5..]),
        "-".to_string(),
        String::new(),
        "system-14-link".to_string(),
    ] {
        assert_eq!(
            CanonedStorePath::decode(&name, true),
            Err(StoreNameError::MalformedName),
            "{:?}",
            name
        );
    }
}

#[test]
fn store_entry_try_from_a_path() {
    let entry = CanonedStorePath::try_from(&store_path("hello-2.12.drv"), false).unwrap();
    assert_eq!(entry.digest, DIGEST);
    assert_eq!(entry.name, "hello-2.12.drv");
    assert_eq!(entry.entry_type, StoreEntryType::ExtDrv);
    assert_eq!(entry.to_path(), store_path("hello-2.12.drv"));
    assert_eq!(
        CanonedStorePath::try_from("/nix/store", true),
        Err(StoreNameError::MalformedName)
    );
    assert_eq!(
        CanonedStorePath::try_from("/", true),
        Err(StoreNameError::MalformedName)
    );
    assert_eq!(
        CanonedStorePath::from_file_name(None, true),
        Err(StoreNameError::MalformedName)
    );
}

fn kernel(entry: &str) -> Result<KernelVersion, GenerationError> {
    let mut p = probe("system-1-link");
    p.kernel_entry = Some(entry.to_string());
    GenerationMeta::try_from(&p).map(|meta| meta.kernel_version().clone())
}

#[test]
fn kernel_version_is_read_as_a_semantic_version() {
    assert_eq!(
        kernel("6.6.32"),
        Ok(KernelVersion {
            major: 6,
            minor: 6,
            patch: 32,
            pre: String::new(),
            build: String::new(),
        })
    );
    assert_eq!(
        kernel("6.1.0-rc1+build.5"),
        Ok(KernelVersion {
            major: 6,
            minor: 1,
            patch: 0,
            pre: "rc1".to_string(),
            build: "build.5".to_string(),
        })
    );
    for entry in ["6.6", "", "6.6.32-", "v6.6.32", "06.6.32", "6.6.32 ", "6.6.x"] {
        assert_eq!(
            kernel(entry),
            Err(GenerationError::KernelVersionUnreadable),
            "{:?}",
            entry
        );
    }
}

#[test]
fn distinct_names_keeps_first_occurrences() {
    let names = |list: &[&str]| list.iter().map(|s| s.to_string()).collect::<Vec<_>>();
    assert_eq!(distinct_names(&names(&[])), names(&[]));
    assert_eq!(distinct_names(&names(&["a", "b"])), names(&["a", "b"]));
    assert_eq!(
        distinct_names(&names(&["b", "a", "b", "c", "a"])),
        names(&["b", "a", "c"])
    );
}

#[test]
fn generation_meta_try_from_a_whole_probe() {
    let meta = GenerationMeta::try_from(&probe("system-14-link")).unwrap();
    assert_eq!(
        meta.build_time(),
        BuildTime {
            secs: 1_700_000_000,
            nanos: 5
        }
    );
    assert_eq!(
        *meta.nixos_version(),
        NixosVersion("24.05.20240531.63dacb4\n".to_string())
    );
    assert_eq!(meta.kernel_version().major, 6);
    assert_eq!(meta.kernel_version().minor, 6);
    assert_eq!(meta.kernel_version().patch, 32);
    assert_eq!(*meta.cfg_revision(), Some("abc123".to_string()));
    assert_eq!(
        *meta.specialisations(),
        vec!["gaming".to_string(), "work".to_string()]
    );
}

#[test]
fn generation_meta_degrades_without_revision_and_specialisations() {
    let mut p = probe("system-14-link");
    p.revision = Some(String::new());
    p.specialisations = None;
    let meta = GenerationMeta::try_from(&p).unwrap();
    assert_eq!(*meta.cfg_revision(), None);
    assert!(meta.specialisations().is_empty());
    p.revision = None;
    p.specialisations = Some(vec!["a".to_string(), "a".to_string(), "b".to_string()]);
    let meta = GenerationMeta::try_from(&p).unwrap();
    assert_eq!(*meta.cfg_revision(), None);
    assert_eq!(
        *meta.specialisations(),
        vec!["a".to_string(), "b".to_string()]
    );
}

#[test]
fn generation_meta_errors() {
    let good = probe("system-14-link");

    let mut p = good.clone();
    p.target = None;
    assert_eq!(
        GenerationMeta::try_from(&p),
        Err(GenerationError::InvalidStoreEntry)
    );
    p.target = Some(StoreTarget {
        path: "/nix/store/short-name".to_string(),
        is_dir: true,
    });
    assert_eq!(
        GenerationMeta::try_from(&p),
        Err(GenerationError::InvalidStoreEntry)
    );

    let mut p = good.clone();
    p.link = "/nix/var/nix/profiles/system-x-link".to_string();
    assert_eq!(
        GenerationMeta::try_from(&p),
        Err(GenerationError::InvalidGenerationName)
    );

    let mut p = good.clone();
    p.created = None;
    assert_eq!(
        GenerationMeta::try_from(&p),
        Err(GenerationError::TimestampUnavailable)
    );

    let mut p = good.clone();
    p.version_line = None;
    assert_eq!(
        GenerationMeta::try_from(&p),
        Err(GenerationError::VersionUnreadable)
    );

    let mut p = good.clone();
    p.kernel_entry = None;
    assert_eq!(
        GenerationMeta::try_from(&p),
        Err(GenerationError::KernelVersionUnreadable)
    );
    p.kernel_entry = Some("6.6".to_string());
    assert_eq!(
        GenerationMeta::try_from(&p),
        Err(GenerationError::KernelVersionUnreadable)
    );
}

#[test]
fn generation_meta_errors_come_in_order() {
    let mut p = probe("system-x-link");
    p.created = None;
    p.version_line = None;
    p.kernel_entry = None;
    assert_eq!(
        GenerationMeta::try_from(&p),
        Err(GenerationError::InvalidGenerationName)
    );
    p.target = None;
    assert_eq!(
        GenerationMeta::try_from(&p),
        Err(GenerationError::InvalidStoreEntry)
    );
    let mut q = probe("system-1-link");
    q.created = None;
    q.version_line = None;
    q.kernel_entry = None;
    assert_eq!(
        GenerationMeta::try_from(&q),
        Err(GenerationError::TimestampUnavailable)
    );
    q.created = Some(BuildTime { secs: 0, nanos: 0 });
    assert_eq!(
        GenerationMeta::try_from(&q),
        Err(GenerationError::VersionUnreadable)
    );
}

#[test]
fn generation_meta_assemble_on_given_parts() {
    let p = probe("ignored");
    let kernel = KernelVersion {
        major: 1,
        minor: 2,
        patch: 3,
        pre: String::new(),
        build: String::new(),
    };
    let meta = GenerationMeta::assemble(
        &p,
        Some(format!("{}-system", DIGEST)),
        Some("system-5-link".to_string()),
        Some(kernel.clone()),
    )
    .unwrap();
    assert_eq!(*meta.kernel_version(), kernel);
    assert_eq!(
        GenerationMeta::assemble(&p, None, Some("system-5-link".to_string()), Some(kernel.clone())),
        Err(GenerationError::InvalidStoreEntry)
    );
    assert_eq!(
        GenerationMeta::assemble(&p, Some(format!("{}-system", DIGEST)), None, Some(kernel)),
        Err(GenerationError::InvalidGenerationName)
    );
    assert_eq!(
        GenerationMeta::assemble(
            &p,
            Some(format!("{}-system", DIGEST)),
            Some("system-5-link".to_string()),
            None
        ),
        Err(GenerationError::KernelVersionUnreadable)
    );
}

#[test]
fn generation_layout() {
    let dir = "/nix/var/nix/profiles/system-14-link";
    assert_eq!(
        GenerationMeta::version_file(dir),
        "/nix/var/nix/profiles/system-14-link/nixos-version"
    );
    assert_eq!(
        GenerationMeta::kernel_link(dir),
        "/nix/var/nix/profiles/system-14-link/kernel"
    );
    assert_eq!(
        GenerationMeta::specialisation_dir(dir),
        "/nix/var/nix/profiles/system-14-link/specialisation"
    );
    assert_eq!(
        GenerationMeta::revision_query(dir),
        vec![
            "/nix/var/nix/profiles/system-14-link/sw/bin/nixos-version",
            "--configuration-revision"
        ]
    );
}

#[test]
fn kernel_modules_dir_of_a_file_and_of_a_directory() {
    let image = StoreTarget {
        path: "/nix/store/abc-linux-6.6.32/bzImage".to_string(),
        is_dir: false,
    };
    assert_eq!(
        GenerationMeta::kernel_modules_dir(&image),
        Some("/nix/store/abc-linux-6.6.32/lib/modules".to_string())
    );
    let dir = StoreTarget {
        path: "/nix/store/abc-linux-6.6.32".to_string(),
        is_dir: true,
    };
    assert_eq!(
        GenerationMeta::kernel_modules_dir(&dir),
        Some("/nix/store/abc-linux-6.6.32/lib/modules".to_string())
    );
    let root = StoreTarget {
        path: "/".to_string(),
        is_dir: false,
    };
    assert_eq!(GenerationMeta::kernel_modules_dir(&root), None);
}

#[test]
fn run_cmd_keeps_the_order_of_the_probes() {
    let probes = vec![
        probe("system-14-link"),
        probe("system-x-link"),
        probe("system-1-link"),
        probe("unrelated"),
        probe("system-2-link"),
    ];
    let found = GenerationMeta::run_cmd(&probes);
    let nums: Vec<u32> = found.iter().map(|(num, _)| num.num).collect();
    assert_eq!(nums, vec![14, 1, 2]);
}

#[test]
fn build_returns_the_three_valid_generations() {
    let probes = vec![
        probe("system-1-link"),
        probe("system-2-link"),
        probe("system-14-link"),
        probe("system-x-link"),
    ];
    let table = GenDescTable::build(&probes, GenNumber { num: 2 });
    assert_eq!(table.len(), 3);
    assert_eq!(numbers(&table), vec![1, 2, 14]);
}

#[test]
fn build_orders_by_number_not_by_name() {
    let probes = vec![
        probe("system-14-link"),
        probe("system-x-link"),
        probe("system-2-link"),
        probe("system-1-link"),
        probe("system-100-link"),
    ];
    let table = GenDescTable::build(&probes, GenNumber { num: 1 });
    assert_eq!(numbers(&table), vec![1, 2, 14, 100]);
}

#[test]
fn build_drops_entries_without_a_whole_record() {
    let mut broken = probe("system-3-link");
    broken.kernel_entry = Some("not-a-version".to_string());
    let mut gone = probe("system-4-link");
    gone.target = None;
    let probes = vec![probe("system-1-link"), broken, gone, probe("system-5-link")];
    let table = GenDescTable::build(&probes, GenNumber { num: 3 });
    assert_eq!(numbers(&table), vec![1, 5]);
    assert_eq!(flagged(&table), Vec::<u32>::new());
    assert_eq!(table.current(), GenNumber { num: 3 });
}

#[test]
fn build_of_nothing_is_empty() {
    let table = GenDescTable::build(&Vec::new(), GenNumber { num: 1 });
    assert_eq!(table.len(), 0);
    assert!(table.rows().is_empty());
}

#[test]
fn build_keeps_the_later_of_two_records_with_one_number() {
    let mut first = probe("system-1-link");
    first.revision = Some("first".to_string());
    let mut second = probe("system-01-link");
    second.revision = Some("second".to_string());
    let table = GenDescTable::build(&vec![first, second], GenNumber { num: 1 });
    assert_eq!(table.len(), 1);
    let rows = table.rows();
    assert_eq!(*rows[0].desc.cfg_revision(), Some("second".to_string()));
}

#[test]
fn rows_flag_the_current_generation() {
    let probes = vec![
        probe("system-1-link"),
        probe("system-2-link"),
        probe("system-14-link"),
        probe("system-x-link"),
    ];
    let table = GenDescTable::build(&probes, GenNumber { num: 14 });
    assert_eq!(flagged(&table), vec![14]);
    let flags: Vec<bool> = table.rows().iter().map(|row| row.current).collect();
    assert_eq!(flags, vec![false, false, true]);
}

#[test]
fn rows_flag_nothing_for_an_absent_current_generation() {
    let probes = vec![
        probe("system-1-link"),
        probe("system-2-link"),
        probe("system-14-link"),
    ];
    let table = GenDescTable::build(&probes, GenNumber { num: 3 });
    assert_eq!(flagged(&table), Vec::<u32>::new());
    assert_eq!(table.rows().len(), 3);
}

#[test]
fn rows_carry_the_records() {
    let mut p = probe("system-7-link");
    p.revision = Some("rev7".to_string());
    let table = GenDescTable::build(&vec![p.clone()], GenNumber { num: 7 });
    let rows = table.rows();
    assert_eq!(rows.len(), 1);
    assert_eq!(rows[0].num, GenNumber { num: 7 });
    assert_eq!(*rows[0].desc, GenerationMeta::try_from(&p).unwrap());
    assert!(rows[0].current);
}

#[test]
fn table_new_from_pairs() {
    let pairs = vec![
        (
            GenNumber { num: 9 },
            GenerationMeta::try_from(&probe("system-9-link")).unwrap(),
        ),
        (
            GenNumber { num: 4 },
            GenerationMeta::try_from(&probe("system-4-link")).unwrap(),
        ),
    ];
    let table = GenDescTable::new(GenNumber { num: 4 }, pairs);
    assert_eq!(numbers(&table), vec![4, 9]);
    assert_eq!(flagged(&table), vec![4]);
}

#[test]
fn numbered_gen_meta_from_a_pair() {
    let meta = GenerationMeta::try_from(&probe("system-3-link")).unwrap();
    let numbered = NumberedGenMeta::from((3, meta));
    assert_eq!(numbered.num, GenNumber { num: 3 });
    assert_eq!(
        numbered.desc,
        GenerationMeta::try_from(&probe("system-3-link")).unwrap()
    );
}

#[test]
fn table_get_finds_records_by_number() {
    let probes = vec![probe("system-1-link"), probe("system-14-link")];
    let table = GenDescTable::build(&probes, GenNumber { num: 1 });
    assert_eq!(
        table.get(GenNumber { num: 14 }),
        Some(&GenerationMeta::try_from(&probe("system-14-link")).unwrap())
    );
    assert_eq!(table.get(GenNumber { num: 2 }), None);
}
