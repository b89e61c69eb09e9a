use flat_index::compat::{HashComparison, IncompatibleSource, IncompatibleWheel};
use flat_index::distribution::{
    BuildTag, DistFilename, File, HashDigest, IndexUrl, SourceDistExtension, SourceDistFilename,
    TagTriple, Tags, WheelFilename,
};
use flat_index::flat_index::{FlatDistributions, FlatIndex, FlatIndexEntries, FlatIndexEntry};
use flat_index::names::PackageName;
use flat_index::policy::{BuildOptions, HashStrategy, HashStrategyEntry};
use flat_index::prioritized::{BestSource, BestWheel};
use flat_index::version::{PreKind, Version, VersionTail};

fn ver(segs: &[u64]) -> Version {
    Version::released(segs.to_vec())
}

fn tagged(segs: &[u64], tail: VersionTail) -> Version {
    Version::with_tail(segs.to_vec(), tail)
}

fn triple(i: &str, a: &str, p: &str) -> TagTriple {
    TagTriple::new(i.to_string(), a.to_string(), p.to_string())
}

fn wheel_entry(
    name: &str,
    version: Version,
    tags: Vec<TagTriple>,
    build_tag: Option<BuildTag>,
    hashes: Vec<HashDigest>,
    filename: &str,
) -> FlatIndexEntry {
    FlatIndexEntry {
        file: File { filename: filename.to_string(), hashes },
        filename: DistFilename::WheelFilename(WheelFilename {
            name: PackageName::new(name),
            version,
            build_tag,
            tags,
        }),
        index: IndexUrl { url: "https://example.test/links".to_string() },
    }
}

fn source_entry(name: &str, version: Version, filename: &str) -> FlatIndexEntry {
    FlatIndexEntry {
        file: File { filename: filename.to_string(), hashes: vec![] },
        filename: DistFilename::SourceDistFilename(SourceDistFilename {
            name: PackageName::new(name),
            version,
            extension: SourceDistExtension::TarGz,
        }),
        index: IndexUrl { url: "https://example.test/links".to_string() },
    }
}

fn winner_filename(dists: &FlatDistributions, at: usize) -> String {
    match &dists.iter()[at].1.wheel {
        Some(BestWheel::Winner(dist, _, _, _)) => dist.file.filename.clone(),
        other => panic!("expected a winning wheel, got {:?}", other),
    }
}

#[test]
fn version_iteration_is_dev_pre_final_post() {
    // "1.0.0.dev1" < "1.0.0a1" < "1.0.0" < "1.0.0.post1"
    let order = [
        tagged(&[1, 0, 0], VersionTail::Dev(1)),
        tagged(&[1, 0, 0], VersionTail::Pre(PreKind::Alpha, 1)),
        ver(&[1, 0, 0]),
        tagged(&[1, 0, 0], VersionTail::Post(1)),
    ];
    // Insert in a scrambled order.
    let entries = vec![
        source_entry("demo", order[2].clone(), "demo-1.0.0.tar.gz"),
        source_entry("demo", order[0].clone(), "demo-1.0.0.dev1.tar.gz"),
        source_entry("demo", order[3].clone(), "demo-1.0.0.post1.tar.gz"),
        source_entry("demo", order[1].clone(), "demo-1.0.0a1.tar.gz"),
    ];
    let dists = FlatDistributions::from_entries(
        entries,
        None,
        &HashStrategy::none(),
        &BuildOptions::allow_all(),
    );
    let records = dists.iter();
    assert_eq!(records.len(), 4);
    for (i, expected) in order.iter().enumerate() {
        assert!(records[i].0.same(expected));
    }
}

#[test]
fn insertion_order_is_immaterial() {
    let table = Tags { preferred: vec![triple("cp312", "abi3", "linux"), triple("py3", "none", "any")] };
    let make = |order: &[usize]| -> String {
        let candidates = [
            wheel_entry("demo", ver(&[1, 0]), vec![triple("py3", "none", "any")], None, vec![], "a.whl"),
            wheel_entry("demo", ver(&[1, 0]), vec![triple("cp312", "abi3", "linux")], None, vec![], "b.whl"),
            wheel_entry("demo", ver(&[1, 0]), vec![triple("cp311", "none", "mac")], None, vec![], "c.whl"),
        ];
        let entries: Vec<FlatIndexEntry> = order
            .iter()
            .map(|&i| {
                let c = &candidates[i];
                FlatIndexEntry {
                    file: File {
                        filename: c.file.filename.clone(),
                        hashes: vec![],
                    },
                    filename: match &c.filename {
                        DistFilename::WheelFilename(w) => {
                            DistFilename::WheelFilename(WheelFilename {
                                name: PackageName::new("demo"),
                                version: ver(&[1, 0]),
                                build_tag: None,
                                tags: w
                                    .tags
                                    .iter()
                                    .map(|t| {
                                        TagTriple::new(
                                            t.interpreter.clone(),
                                            t.abi.clone(),
                                            t.platform.clone(),
                                        )
                                    })
                                    .collect(),
                            })
                        }
                        _ => unreachable!(),
                    },
                    index: IndexUrl { url: "https://example.test/links".to_string() },
                }
            })
            .collect();
        let dists = FlatDistributions::from_entries(
            entries,
            Some(&table),
            &HashStrategy::none(),
            &BuildOptions::allow_all(),
        );
        winner_filename(&dists, 0)
    };
    let a = make(&[0, 1, 2]);
    let b = make(&[2, 1, 0]);
    let c = make(&[1, 0, 2]);
    let d = make(&[2, 0, 1]);
    assert_eq!(a, "b.whl");
    assert_eq!(a, b);
    assert_eq!(a, c);
    assert_eq!(a, d);
}

#[test]
fn no_binary_never_yields_winning_wheel() {
    let options = BuildOptions {
        no_build: vec![],
        no_binary: vec![PackageName::new("demo")],
    };
    let entries = vec![wheel_entry(
        "demo",
        ver(&[1, 0]),
        vec![triple("py3", "none", "any")],
        None,
        vec![],
        "demo.whl",
    )];
    let dists =
        FlatDistributions::from_entries(entries, None, &HashStrategy::none(), &options);
    match &dists.iter()[0].1.wheel {
        Some(BestWheel::Excluded(IncompatibleWheel::NoBinary)) => {}
        other => panic!("expected a no-binary exclusion, got {:?}", other),
    }
}

#[test]
fn no_build_never_yields_winning_source() {
    let options = BuildOptions {
        no_build: vec![PackageName::new("demo")],
        no_binary: vec![],
    };
    let entries = vec![source_entry("demo", ver(&[1, 0]), "demo-1.0.tar.gz")];
    let dists =
        FlatDistributions::from_entries(entries, None, &HashStrategy::none(), &options);
    match &dists.iter()[0].1.source {
        Some(BestSource::Excluded(IncompatibleSource::NoBuild)) => {}
        other => panic!("expected a no-build exclusion, got {:?}", other),
    }
}

#[test]
fn tag_mismatch_never_beats_tag_match() {
    let table = Tags { preferred: vec![triple("cp312", "abi3", "linux")] };
    let matching = wheel_entry(
        "demo",
        ver(&[1, 0]),
        vec![triple("cp312", "abi3", "linux")],
        None,
        vec![],
        "match.whl",
    );
    let mismatching = wheel_entry(
        "demo",
        ver(&[1, 0]),
        vec![triple("cp39", "none", "windows")],
        Some(BuildTag { number: 99, suffix: None }),
        vec![],
        "mismatch.whl",
    );
    for entries in [
        vec![
            wheel_entry("demo", ver(&[1, 0]), vec![triple("cp312", "abi3", "linux")], None, vec![], "match.whl"),
            wheel_entry("demo", ver(&[1, 0]), vec![triple("cp39", "none", "windows")], Some(BuildTag { number: 99, suffix: None }), vec![], "mismatch.whl"),
        ],
        vec![mismatching, matching],
    ] {
        let dists = FlatDistributions::from_entries(
            entries,
            Some(&table),
            &HashStrategy::none(),
            &BuildOptions::allow_all(),
        );
        assert_eq!(winner_filename(&dists, 0), "match.whl");
    }
}

#[test]
fn hash_mismatch_never_overrides_hash_match() {
    let table = Tags { preferred: vec![triple("cp312", "abi3", "linux"), triple("py3", "none", "any")] };
    let strategy = HashStrategy {
        entries: vec![HashStrategyEntry {
            name: PackageName::new("demo"),
            version: ver(&[1, 0]),
            digests: vec![HashDigest::new("sha256:aaaa".to_string())],
        }],
    };
    // First wheel: lower tag rank but a matching digest.
    let matched = wheel_entry(
        "demo",
        ver(&[1, 0]),
        vec![triple("py3", "none", "any")],
        None,
        vec![HashDigest::new("sha256:aaaa".to_string())],
        "matched.whl",
    );
    // Second wheel: higher tag rank but a mismatched digest.
    let mismatched = wheel_entry(
        "demo",
        ver(&[1, 0]),
        vec![triple("cp312", "abi3", "linux")],
        None,
        vec![HashDigest::new("sha256:bbbb".to_string())],
        "mismatched.whl",
    );
    let dists = FlatDistributions::from_entries(
        vec![matched, mismatched],
        Some(&table),
        &strategy,
        &BuildOptions::allow_all(),
    );
    assert_eq!(winner_filename(&dists, 0), "matched.whl");
}

#[test]
fn missing_digests_rank_between_matched_and_mismatched() {
    let strategy = HashStrategy {
        entries: vec![HashStrategyEntry {
            name: PackageName::new("demo"),
            version: ver(&[1, 0]),
            digests: vec![HashDigest::new("sha256:aaaa".to_string())],
        }],
    };
    let options = BuildOptions::allow_all();
    let f = |hashes: Vec<HashDigest>| {
        let filename = WheelFilename {
            name: PackageName::new("demo"),
            version: ver(&[1, 0]),
            build_tag: None,
            tags: vec![triple("py3", "none", "any")],
        };
        FlatDistributions::wheel_compatibility(&filename, &hashes, None, &strategy, &options)
    };
    match f(vec![HashDigest::new("sha256:aaaa".to_string())]) {
        flat_index::compat::WheelCompatibility::Compatible(HashComparison::Matched, None, None) => {}
        other => panic!("expected a matched verdict, got {:?}", other),
    }
    match f(vec![]) {
        flat_index::compat::WheelCompatibility::Compatible(HashComparison::Missing, None, None) => {}
        other => panic!("expected a missing verdict, got {:?}", other),
    }
    match f(vec![HashDigest::new("sha256:cccc".to_string())]) {
        flat_index::compat::WheelCompatibility::Compatible(HashComparison::Mismatched, None, None) => {}
        other => panic!("expected a mismatched verdict, got {:?}", other),
    }
}

#[test]
fn higher_build_tag_breaks_ties() {
    let one = wheel_entry(
        "demo",
        ver(&[1, 0]),
        vec![triple("py3", "none", "any")],
        Some(BuildTag { number: 1, suffix: None }),
        vec![],
        "build1.whl",
    );
    let two = wheel_entry(
        "demo",
        ver(&[1, 0]),
        vec![triple("py3", "none", "any")],
        Some(BuildTag { number: 2, suffix: None }),
        vec![],
        "build2.whl",
    );
    let dists = FlatDistributions::from_entries(
        vec![one, two],
        None,
        &HashStrategy::none(),
        &BuildOptions::allow_all(),
    );
    assert_eq!(winner_filename(&dists, 0), "build2.whl");
}

#[test]
fn build_tag_suffix_compares_lexicographically() {
    let a = wheel_entry(
        "demo",
        ver(&[1, 0]),
        vec![triple("py3", "none", "any")],
        Some(BuildTag { number: 1, suffix: Some("alpha".to_string()) }),
        vec![],
        "alpha.whl",
    );
    let b = wheel_entry(
        "demo",
        ver(&[1, 0]),
        vec![triple("py3", "none", "any")],
        Some(BuildTag { number: 1, suffix: Some("beta".to_string()) }),
        vec![],
        "beta.whl",
    );
    let dists = FlatDistributions::from_entries(
        vec![a, b],
        None,
        &HashStrategy::none(),
        &BuildOptions::allow_all(),
    );
    assert_eq!(winner_filename(&dists, 0), "beta.whl");
}

#[test]
fn remove_deletes_a_version_record() {
    let entries = vec![
        source_entry("demo", ver(&[1, 0]), "demo-1.0.tar.gz"),
        source_entry("demo", ver(&[2, 0]), "demo-2.0.tar.gz"),
    ];
    let mut dists = FlatDistributions::from_entries(
        entries,
        None,
        &HashStrategy::none(),
        &BuildOptions::allow_all(),
    );
    let removed = dists.remove(&ver(&[1, 0]));
    assert!(removed.is_some());
    assert_eq!(dists.iter().len(), 1);
    assert!(dists.iter()[0].0.same(&ver(&[2, 0])));
    assert!(dists.remove(&ver(&[3, 0])).is_none());
}

#[test]
fn top_level_index_groups_by_package_name() {
    let entries = FlatIndexEntries::new(
        vec![
            source_entry("alpha", ver(&[1, 0]), "alpha-1.0.tar.gz"),
            source_entry("beta", ver(&[2, 0]), "beta-2.0.tar.gz"),
            source_entry("alpha", ver(&[1, 1]), "alpha-1.1.tar.gz"),
        ],
        false,
    );
    let index = FlatIndex::from_entries(
        entries,
        None,
        &HashStrategy::none(),
        &BuildOptions::allow_all(),
    );
    assert!(!index.offline());
    let alpha = index.get(&PackageName::new("alpha")).expect("alpha is indexed");
    assert_eq!(alpha.iter().len(), 2);
    let beta = index.get(&PackageName::new("beta")).expect("beta is indexed");
    assert_eq!(beta.iter().len(), 1);
    assert!(index.get(&PackageName::new("gamma")).is_none());
}

#[test]
fn offline_flag_is_or_of_sources() {
    let merged = FlatIndexEntries::aggregate(vec![
        FlatIndexEntries::new(vec![], false),
        FlatIndexEntries::new(vec![source_entry("demo", ver(&[1, 0]), "demo-1.0.tar.gz")], true),
        FlatIndexEntries::new(vec![], false),
    ]);
    assert!(merged.offline);
    assert_eq!(merged.entries.len(), 1);
    let none = FlatIndexEntries::aggregate(vec![
        FlatIndexEntries::new(vec![], false),
        FlatIndexEntries::new(vec![], false),
    ]);
    assert!(!none.offline);
}

#[test]
fn package_names_normalize_case_and_separators() {
    assert_eq!(PackageName::new("Flask_Login.Extra"), PackageName::new("flask-login-extra"));
    assert_eq!(PackageName::new("A__B"), PackageName::new("a-b"));
    assert_eq!(PackageName::new("demo").as_str(), "demo");
    assert_eq!(PackageName::new("De.Mo").as_str(), "de-mo");
}

#[test]
fn trailing_zero_release_segments_do_not_matter() {
    assert!(ver(&[1, 0]).same(&ver(&[1, 0, 0])));
    assert!(ver(&[1]).same(&ver(&[1, 0])));
    assert!(ver(&[1, 0]).before(&ver(&[1, 0, 1])));
    assert!(!ver(&[1, 0, 1]).before(&ver(&[1, 0])));
    assert!(tagged(&[1, 2], VersionTail::Pre(PreKind::Beta, 1))
        .before(&tagged(&[1, 2], VersionTail::Pre(PreKind::Rc, 1))));
}

#[test]
fn batch_order_is_immaterial_across_versions() {
    let build = |order: &[usize]| -> Vec<(String, String)> {
        let make = |i: usize| -> FlatIndexEntry {
            match i {
                0 => source_entry("demo", ver(&[1, 0]), "demo-1.0.tar.gz"),
                1 => wheel_entry(
                    "demo",
                    ver(&[1, 0]),
                    vec![triple("py3", "none", "any")],
                    None,
                    vec![],
                    "demo-1.0.whl",
                ),
                2 => source_entry("demo", ver(&[2, 0]), "demo-2.0.tar.gz"),
                _ => wheel_entry(
                    "demo",
                    ver(&[2, 0]),
                    vec![triple("py3", "none", "any")],
                    None,
                    vec![],
                    "demo-2.0.whl",
                ),
            }
        };
        let entries: Vec<FlatIndexEntry> = order.iter().map(|&i| make(i)).collect();
        let dists = FlatDistributions::from_entries(
            entries,
            None,
            &HashStrategy::none(),
            &BuildOptions::allow_all(),
        );
        dists
            .iter()
            .iter()
            .map(|(_, record)| {
                let wheel = match &record.wheel {
                    Some(BestWheel::Winner(d, _, _, _)) => d.file.filename.clone(),
                    other => panic!("expected a winning wheel, got {:?}", other),
                };
                let source = match &record.source {
                    Some(BestSource::Winner(d, _)) => d.file.filename.clone(),
                    other => panic!("expected a winning source, got {:?}", other),
                };
                (wheel, source)
            })
            .collect()
    };
    let a = build(&[0, 1, 2, 3]);
    let b = build(&[3, 2, 1, 0]);
    let c = build(&[2, 0, 3, 1]);
    assert_eq!(
        a,
        vec![
            ("demo-1.0.whl".to_string(), "demo-1.0.tar.gz".to_string()),
            ("demo-2.0.whl".to_string(), "demo-2.0.tar.gz".to_string()),
        ]
    );
    assert_eq!(a, b);
    assert_eq!(a, c);
}
