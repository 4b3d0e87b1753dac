use modrinth::manifest::{Loader, Manifest, Project};
use modrinth::model::{
    Dependency, DependencyType, File, FileHashes, PlatformRequirement,
    Project as RegistryProject, Version,
};
use modrinth::lockfile::{Artefact, LockfileV1, Sha512Checksum};
use modrinth::resolver::{ResolveError, Resolver, ResolverStep, Spec};

fn registry_project(id: &str, slug: &str) -> RegistryProject {
    RegistryProject {
        slug: slug.to_string(),
        id: id.to_string(),
        client_side: PlatformRequirement::Optional,
        server_side: PlatformRequirement::Optional,
    }
}

fn version(id: &str, project_id: &str, number: &str, published: i64) -> Version {
    Version {
        loaders: vec!["fabric".to_string()],
        id: id.to_string(),
        project_id: project_id.to_string(),
        version_number: number.to_string(),
        date_published: published,
        files: vec![File {
            hashes: FileHashes {
                sha512: Some("ab".repeat(64)),
            },
            url: format!("https://cdn.example/{id}.jar"),
            filename: format!("{id}.jar"),
            primary: true,
        }],
        dependencies: vec![],
    }
}

fn required_dep(project_id: &str, version_id: Option<&str>) -> Dependency {
    Dependency {
        version_id: version_id.map(|s| s.to_string()),
        project_id: Some(project_id.to_string()),
        dependency_type: DependencyType::Required,
    }
}

fn fabric_spec(names: &[&str]) -> Spec {
    Spec {
        manifest: Manifest::new(
            vec![],
            names.iter().map(|s| s.to_string()).collect(),
        ),
        server_only: false,
        ..Default::default()
    }
}

#[test]
fn wildcard_selects_most_recent_version() {
    let spec = fabric_spec(&["alpha"]);
    let mut resolver = Resolver::new(&spec, Loader::Fabric, false);

    let name = match resolver.next() {
        ResolverStep::FetchProject { name } => name,
        other => panic!("expected a project request, got {other:?}"),
    };
    assert_eq!(name, "alpha");
    resolver.on_project(registry_project("pa", "alpha")).unwrap();

    match resolver.next() {
        ResolverStep::FetchVersions { project_id } => assert_eq!(project_id, "pa"),
        other => panic!("expected a versions request, got {other:?}"),
    }
    let found = resolver
        .on_versions(vec![
            version("v-old", "pa", "1.0", 100),
            version("v-new", "pa", "2.0", 200),
        ])
        .unwrap();
    assert!(found);

    assert!(matches!(resolver.next(), ResolverStep::Done));
    let results = resolver.into_results();
    assert_eq!(results.len(), 1);
    assert_eq!(results[0].1.id, "v-new");
}

#[test]
fn pinned_version_wins_over_newer() {
    let mut spec = fabric_spec(&[]);
    spec.manifest.fabric.push((
        "alpha".to_string(),
        Project {
            version: Some("1.0".to_string()),
        },
    ));
    let mut resolver = Resolver::new(&spec, Loader::Fabric, false);

    assert!(matches!(resolver.next(), ResolverStep::FetchProject { .. }));
    resolver.on_project(registry_project("pa", "alpha")).unwrap();
    assert!(matches!(resolver.next(), ResolverStep::FetchVersions { .. }));
    resolver
        .on_versions(vec![
            version("v-old", "pa", "1.0", 100),
            version("v-new", "pa", "2.0", 200),
        ])
        .unwrap();

    assert!(matches!(resolver.next(), ResolverStep::Done));
    let results = resolver.into_results();
    assert_eq!(results.len(), 1);
    assert_eq!(results[0].1.version_number, "1.0");
}

#[test]
fn loader_mismatch_is_filtered_out() {
    let spec = fabric_spec(&["alpha"]);
    let mut resolver = Resolver::new(&spec, Loader::Fabric, false);

    assert!(matches!(resolver.next(), ResolverStep::FetchProject { .. }));
    resolver.on_project(registry_project("pa", "alpha")).unwrap();
    assert!(matches!(resolver.next(), ResolverStep::FetchVersions { .. }));

    let mut wrong_loader = version("v1", "pa", "1.0", 100);
    wrong_loader.loaders = vec!["forge".to_string()];
    let found = resolver.on_versions(vec![wrong_loader]).unwrap();
    assert!(!found);

    assert!(matches!(resolver.next(), ResolverStep::Done));
    assert!(resolver.into_results().is_empty());
}

#[test]
fn denylisted_root_never_appears() {
    let spec = fabric_spec(&["quilted"]);
    let mut resolver = Resolver::new(&spec, Loader::Fabric, false);

    assert!(matches!(resolver.next(), ResolverStep::FetchProject { .. }));
    // The registry resolves the name to the denylisted project.
    resolver.on_project(registry_project("qvIfYCYJ", "qsl")).unwrap();

    // The project is dropped silently: no versions request follows.
    assert!(matches!(resolver.next(), ResolverStep::Done));
    assert!(resolver.into_results().is_empty());
}

#[test]
fn denylisted_dependency_never_appears() {
    let spec = fabric_spec(&["alpha"]);
    let mut resolver = Resolver::new(&spec, Loader::Fabric, false);

    assert!(matches!(resolver.next(), ResolverStep::FetchProject { .. }));
    resolver.on_project(registry_project("pa", "alpha")).unwrap();
    assert!(matches!(resolver.next(), ResolverStep::FetchVersions { .. }));
    let mut root = version("va", "pa", "1.0", 100);
    root.dependencies = vec![required_dep("qsl", None)];
    resolver.on_versions(vec![root]).unwrap();

    // Expansion asks for the dependency, which turns out denylisted.
    let name = match resolver.next() {
        ResolverStep::FetchProject { name } => name,
        other => panic!("expected the dependency request, got {other:?}"),
    };
    assert_eq!(name, "qsl");
    resolver.on_project(registry_project("qvIfYCYJ", "qsl")).unwrap();

    assert!(matches!(resolver.next(), ResolverStep::Done));
    let results = resolver.into_results();
    assert_eq!(results.len(), 1);
    assert_eq!(results[0].0.id, "pa");
    assert!(results.iter().all(|(p, _)| !spec.denylist.contains(&p.id)));
}

#[test]
fn root_survives_unresolvable_dependency() {
    let spec = fabric_spec(&["alpha"]);
    let mut resolver = Resolver::new(&spec, Loader::Fabric, false);

    assert!(matches!(resolver.next(), ResolverStep::FetchProject { .. }));
    resolver.on_project(registry_project("pa", "alpha")).unwrap();
    assert!(matches!(resolver.next(), ResolverStep::FetchVersions { .. }));
    let mut root = version("va", "pa", "1.0", 100);
    root.dependencies = vec![required_dep("pb", None)];
    resolver.on_versions(vec![root]).unwrap();

    assert!(matches!(resolver.next(), ResolverStep::FetchProject { .. }));
    resolver.on_project(registry_project("pb", "beta")).unwrap();
    assert!(matches!(resolver.next(), ResolverStep::FetchVersions { .. }));
    // The dependency has no compatible version at all.
    let found = resolver.on_versions(vec![]).unwrap();
    assert!(!found);

    // The dependency is omitted with a warning; the root still stands.
    assert!(matches!(resolver.next(), ResolverStep::Done));
    let results = resolver.into_results();
    assert_eq!(results.len(), 1);
    assert_eq!(results[0].0.id, "pa");
}

#[test]
fn dependency_without_project_id_is_skipped() {
    let spec = fabric_spec(&["alpha"]);
    let mut resolver = Resolver::new(&spec, Loader::Fabric, false);

    assert!(matches!(resolver.next(), ResolverStep::FetchProject { .. }));
    resolver.on_project(registry_project("pa", "alpha")).unwrap();
    assert!(matches!(resolver.next(), ResolverStep::FetchVersions { .. }));
    let mut root = version("va", "pa", "1.0", 100);
    root.dependencies = vec![Dependency {
        version_id: Some("vb".to_string()),
        project_id: None,
        dependency_type: DependencyType::Required,
    }];
    resolver.on_versions(vec![root]).unwrap();

    // The dependency cannot be followed; the closure is already done.
    assert!(matches!(resolver.next(), ResolverStep::Done));
    let results = resolver.into_results();
    assert_eq!(results.len(), 1);
}

#[test]
fn pinned_dependency_resolves_exact_version() {
    let spec = fabric_spec(&["alpha"]);
    let mut resolver = Resolver::new(&spec, Loader::Fabric, false);

    assert!(matches!(resolver.next(), ResolverStep::FetchProject { .. }));
    resolver.on_project(registry_project("pa", "alpha")).unwrap();
    assert!(matches!(resolver.next(), ResolverStep::FetchVersions { .. }));
    let mut root = version("va", "pa", "1.0", 100);
    root.dependencies = vec![required_dep("pb", Some("vb-1"))];
    resolver.on_versions(vec![root]).unwrap();

    assert!(matches!(resolver.next(), ResolverStep::FetchProject { .. }));
    resolver.on_project(registry_project("pb", "beta")).unwrap();
    assert!(matches!(resolver.next(), ResolverStep::FetchVersions { .. }));
    // A newer version exists, but the dependency pins vb-1 by id.
    resolver
        .on_versions(vec![
            version("vb-1", "pb", "1.0", 100),
            version("vb-2", "pb", "2.0", 200),
        ])
        .unwrap();

    // The dependency's own dependencies are expanded next; it has none.
    assert!(matches!(resolver.next(), ResolverStep::Done));
    let results = resolver.into_results();
    assert_eq!(results.len(), 2);
    assert!(results.iter().any(|(p, v)| p.id == "pb" && v.id == "vb-1"));
}

#[test]
fn shared_dependency_collapses_to_one_entry() {
    let spec = fabric_spec(&["alpha", "beta"]);
    let mut resolver = Resolver::new(&spec, Loader::Fabric, false);

    // Seed both roots, each requiring the same library.
    for (name, id, slug) in [("alpha", "pa", "alpha"), ("beta", "pb", "beta")] {
        match resolver.next() {
            ResolverStep::FetchProject { name: n } => assert_eq!(n, name),
            other => panic!("expected a project request, got {other:?}"),
        }
        resolver.on_project(registry_project(id, slug)).unwrap();
        assert!(matches!(resolver.next(), ResolverStep::FetchVersions { .. }));
        let mut root = version(&format!("v-{id}"), id, "1.0", 100);
        root.dependencies = vec![required_dep("plib", Some("vlib"))];
        resolver.on_versions(vec![root]).unwrap();
    }

    // Both expansions resolve the shared dependency to the same version.
    for _ in 0..2 {
        match resolver.next() {
            ResolverStep::FetchProject { name } => assert_eq!(name, "plib"),
            other => panic!("expected the dependency request, got {other:?}"),
        }
        resolver.on_project(registry_project("plib", "lib")).unwrap();
        assert!(matches!(resolver.next(), ResolverStep::FetchVersions { .. }));
        resolver
            .on_versions(vec![version("vlib", "plib", "1.0", 50)])
            .unwrap();
    }

    assert!(matches!(resolver.next(), ResolverStep::Done));
    let results = resolver.into_results();
    // Two roots plus exactly one entry for the shared dependency.
    assert_eq!(results.len(), 3);
    assert_eq!(
        results
            .iter()
            .filter(|(p, v)| p.id == "plib" && v.id == "vlib")
            .count(),
        1
    );
}

#[test]
fn strict_mode_promotes_missing_version_to_error() {
    let spec = fabric_spec(&["alpha"]);
    let mut resolver = Resolver::new(&spec, Loader::Fabric, true);

    assert!(matches!(resolver.next(), ResolverStep::FetchProject { .. }));
    resolver.on_project(registry_project("pa", "alpha")).unwrap();
    assert!(matches!(resolver.next(), ResolverStep::FetchVersions { .. }));
    let err = resolver.on_versions(vec![]).unwrap_err();
    assert_eq!(
        err,
        ResolveError::NoCompatibleVersion {
            project_name: "alpha".to_string()
        }
    );
}

#[test]
fn server_only_mode_rejects_unsupported_root() {
    let mut spec = fabric_spec(&["alpha"]);
    spec.server_only = true;
    let mut resolver = Resolver::new(&spec, Loader::Fabric, false);

    assert!(matches!(resolver.next(), ResolverStep::FetchProject { .. }));
    let mut project = registry_project("pa", "alpha");
    project.server_side = PlatformRequirement::Unsupported;
    let err = resolver.on_project(project).unwrap_err();
    assert!(matches!(err, ResolveError::ServerUnsupported { .. }));
}

#[test]
fn lockfile_allowlist_pins_selection() {
    let mut spec = fabric_spec(&["alpha"]);
    spec.lockfile = LockfileV1 {
        datapack: vec![],
        fabric: vec![Artefact {
            project_id: "pa".to_string(),
            project_slug: "alpha".to_string(),
            version_id: "v-old".to_string(),
            version_number: "1.0".to_string(),
            filename: "a.jar".to_string(),
            checksum: Sha512Checksum("00".repeat(64)),
        }],
    };
    let mut resolver = Resolver::new(&spec, Loader::Fabric, false);

    assert!(matches!(resolver.next(), ResolverStep::FetchProject { .. }));
    resolver.on_project(registry_project("pa", "alpha")).unwrap();
    assert!(matches!(resolver.next(), ResolverStep::FetchVersions { .. }));
    // A newer version exists, but only the locked pair may pass.
    resolver
        .on_versions(vec![
            version("v-old", "pa", "1.0", 100),
            version("v-new", "pa", "2.0", 200),
        ])
        .unwrap();

    assert!(matches!(resolver.next(), ResolverStep::Done));
    let results = resolver.into_results();
    assert_eq!(results.len(), 1);
    assert_eq!(results[0].1.id, "v-old");
}

#[test]
fn empty_manifest_resolves_to_nothing() {
    let spec = fabric_spec(&[]);
    let mut resolver = Resolver::new(&spec, Loader::Fabric, false);
    assert!(matches!(resolver.next(), ResolverStep::Done));
    assert!(resolver.into_results().is_empty());
}

#[test]
fn primary_and_required_filters() {
    let mut v = version("va", "pa", "1.0", 100);
    v.files.push(File {
        hashes: FileHashes { sha512: None },
        url: "https://cdn.example/extra.jar".to_string(),
        filename: "extra.jar".to_string(),
        primary: false,
    });
    v.dependencies = vec![
        required_dep("pb", None),
        Dependency {
            version_id: None,
            project_id: Some("pc".to_string()),
            dependency_type: DependencyType::Optional,
        },
    ];

    let primary = modrinth::model::primary_files(&v);
    assert_eq!(primary.len(), 1);
    assert_eq!(primary[0].filename, "va.jar");

    let required = modrinth::model::required_dependencies(&v);
    assert_eq!(required.len(), 1);
    assert_eq!(required[0].project_id.as_deref(), Some("pb"));
}

#[test]
fn selector_picks_latest_admissible() {
    let spec = fabric_spec(&[]);
    let index = spec.lockfile.index(Loader::Fabric);
    let wildcard = Project { version: None };

    let picked = modrinth::resolver::select_version(
        vec![
            version("v1", "pa", "1.0", 300),
            version("v2", "pa", "2.0", 100),
            version("v3", "pa", "3.0", 200),
        ],
        &wildcard,
        &index,
        Loader::Fabric,
    )
    .unwrap();
    assert_eq!(picked.id, "v1");

    let none = modrinth::resolver::select_version(vec![], &wildcard, &index, Loader::Fabric);
    assert!(none.is_none());
}
