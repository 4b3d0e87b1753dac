use modrinth::fetcher::{
    complete_fetch, parse_u64, plan_fetch, validate_content_length, validate_content_type,
    FetchError, FetchPlan,
};
use modrinth::lockfile::{
    lockfile_is_up_to_date, validate_lockfile, Artefact, LockfileV1, Sha512Checksum,
};
use modrinth::manifest::{Loader, Manifest, Project};
use modrinth::model::{File, FileHashes};
use modrinth::resolver::{
    server_compatibility_warning, validate_server_compatibility, Denylist, ResolveError, Spec,
};
use modrinth::model::{PlatformRequirement, Project as RegistryProject};

fn file(filename: &str, sha512: Option<&str>, primary: bool) -> File {
    File {
        hashes: FileHashes {
            sha512: sha512.map(|s| s.to_string()),
        },
        url: format!("https://cdn.example/{filename}"),
        filename: filename.to_string(),
        primary,
    }
}

fn artefact(project_id: &str, version_id: &str) -> Artefact {
    Artefact {
        project_id: project_id.to_string(),
        project_slug: format!("{project_id}-slug"),
        version_id: version_id.to_string(),
        version_number: format!("{version_id}-number"),
        filename: format!("{project_id}.jar"),
        checksum: Sha512Checksum("00".repeat(64)),
    }
}

fn registry_project(
    id: &str,
    slug: &str,
    client: PlatformRequirement,
    server: PlatformRequirement,
) -> RegistryProject {
    RegistryProject {
        slug: slug.to_string(),
        id: id.to_string(),
        client_side: client,
        server_side: server,
    }
}

#[test]
fn pin_normalization_wildcard_and_exact() {
    let wildcard = Project::from_version_text("*");
    assert!(wildcard.version.is_none());

    let exact = Project::from_version_text("1.2.3");
    assert_eq!(exact.version.as_deref(), Some("1.2.3"));
}

#[test]
fn loader_names_and_matching() {
    assert_eq!(Loader::Datapack.name(), "datapack");
    assert_eq!(Loader::Fabric.name(), "fabric");
    assert!(Loader::Fabric.matches("fabric"));
    assert!(!Loader::Fabric.matches("datapack"));
    assert!(!Loader::Datapack.matches("forge"));
}

#[test]
fn manifest_new_builds_wildcard_entries_once() {
    let manifest = Manifest::new(
        vec!["veinminer".to_string()],
        vec!["frog".to_string(), "frog".to_string(), "sodium".to_string()],
    );
    assert_eq!(manifest.datapack.len(), 1);
    assert_eq!(manifest.fabric.len(), 2);
    assert_eq!(manifest.fabric[0].0, "frog");
    assert_eq!(manifest.fabric[1].0, "sodium");
    assert!(manifest.fabric.iter().all(|(_, p)| p.version.is_none()));
    assert!(!manifest.is_empty());
    assert!(Manifest::default().is_empty());
}

#[test]
fn denylist_default_bans_quilted_fabric_api() {
    let denylist = Denylist::default();
    assert!(denylist.contains("qsl"));
    assert!(denylist.contains("qvIfYCYJ"));
    assert!(!denylist.contains("fabric-api"));
}

#[test]
fn default_spec_values() {
    let spec = Spec::default();
    assert_eq!(spec.minecraft_version, "1.21.1");
    assert!(spec.server_only);
    assert!(spec.manifest.is_empty());
    assert!(spec.lockfile.datapack.is_empty() && spec.lockfile.fabric.is_empty());
}

#[test]
fn server_compatibility_guard_verdicts() {
    let (required, optional, unsupported_req, unknown) = (
        PlatformRequirement::Required,
        PlatformRequirement::Optional,
        PlatformRequirement::Unsupported,
        PlatformRequirement::Unknown,
    );

    let unsupported = registry_project("p1", "p1-slug", optional, unsupported_req);
    let err = validate_server_compatibility(&unsupported).unwrap_err();
    match err {
        ResolveError::ServerUnsupported {
            project_id,
            project_slug,
        } => {
            assert_eq!(project_id, "p1");
            assert_eq!(project_slug, "p1-slug");
        }
        other => panic!("unexpected error: {other:?}"),
    }

    assert!(validate_server_compatibility(&registry_project("p2", "s2", optional, required)).is_ok());
    assert!(validate_server_compatibility(&registry_project("p3", "s3", required, optional)).is_ok());

    assert!(server_compatibility_warning(&registry_project("p4", "s4", required, optional)));
    assert!(server_compatibility_warning(&registry_project("p5", "s5", optional, unknown)));
    assert!(server_compatibility_warning(&registry_project("p6", "s6", unknown, required)));
    assert!(!server_compatibility_warning(&registry_project("p7", "s7", optional, optional)));
    assert!(!server_compatibility_warning(&registry_project("p8", "s8", optional, unsupported_req)));
}

#[test]
fn lockfile_index_empty_accepts_everything() {
    let lockfile = LockfileV1::default();
    let index = lockfile.index(Loader::Fabric);
    assert!(index.contains(("anything", "at-all")));
}

#[test]
fn lockfile_index_nonempty_is_exact() {
    let lockfile = LockfileV1 {
        datapack: vec![],
        fabric: vec![artefact("a", "v1")],
    };
    let index = lockfile.index(Loader::Fabric);
    assert!(index.contains(("a", "v1")));
    assert!(!index.contains(("a", "v2")));
    assert!(!index.contains(("b", "v1")));
}

#[test]
fn validator_accepts_covered_manifest_and_discards_both_sections() {
    // A wildcard manifest entry is covered as soon as the project is present.
    let mut manifest = Manifest::default();
    manifest.fabric.push(("a".to_string(), Project { version: None }));

    let covered = LockfileV1 {
        datapack: vec![],
        fabric: vec![artefact("a", "v1")],
    };
    assert!(lockfile_is_up_to_date(&manifest, &covered, Loader::Fabric));
    assert!(lockfile_is_up_to_date(&manifest, &covered, Loader::Datapack));

    let validated = validate_lockfile(&manifest, covered);
    assert_eq!(validated.fabric.len(), 1);

    // Removing the lock entry leaves the fabric section stale; even an
    // internally consistent datapack section is discarded with it.
    let stale = LockfileV1 {
        datapack: vec![artefact("keep", "v9")],
        fabric: vec![],
    };
    assert!(!lockfile_is_up_to_date(&manifest, &stale, Loader::Fabric));
    assert!(lockfile_is_up_to_date(&manifest, &stale, Loader::Datapack));

    let validated = validate_lockfile(&manifest, stale);
    assert!(validated.datapack.is_empty());
    assert!(validated.fabric.is_empty());
}

#[test]
fn validator_checks_pinned_versions() {
    let mut manifest = Manifest::default();
    manifest.fabric.push((
        "a".to_string(),
        Project {
            version: Some("v2".to_string()),
        },
    ));

    let lockfile = LockfileV1 {
        datapack: vec![],
        fabric: vec![artefact("a", "v1")],
    };
    assert!(!lockfile_is_up_to_date(&manifest, &lockfile, Loader::Fabric));

    // The pin may also name the recorded version id.
    let mut pinned_by_id = Manifest::default();
    pinned_by_id.fabric.push((
        "a".to_string(),
        Project {
            version: Some("v1".to_string()),
        },
    ));
    assert!(lockfile_is_up_to_date(&pinned_by_id, &lockfile, Loader::Fabric));
}

#[test]
fn artefact_new_requires_declared_hash() {
    let no_hash = file("mod.jar", None, true);
    let err = Artefact::new("p", "s", "v", "1.0", &no_hash).unwrap_err();
    assert_eq!(err, FetchError::MissingHash);

    let hashed = file("mod.jar", Some("ab".repeat(64).as_str()), true);
    let artefact = Artefact::new("p", "s", "v", "1.0", &hashed).unwrap();
    assert_eq!(artefact.project_id, "p");
    assert_eq!(artefact.project_slug, "s");
    assert_eq!(artefact.version_id, "v");
    assert_eq!(artefact.version_number, "1.0");
    assert_eq!(artefact.filename, "mod.jar");
    assert_eq!(artefact.checksum.0, "ab".repeat(64));
}

#[test]
fn content_type_allowlist() {
    assert_eq!(
        validate_content_type(None).unwrap_err(),
        FetchError::MissingContentType
    );
    assert!(validate_content_type(Some("application/java-archive")).is_ok());
    assert!(validate_content_type(Some("application/zip")).is_ok());
    assert_eq!(
        validate_content_type(Some("text/html")).unwrap_err(),
        FetchError::DisallowedContentType
    );
}

#[test]
fn content_length_comparison() {
    assert_eq!(
        validate_content_length(Some(10), None).unwrap_err(),
        FetchError::MissingContentLength
    );
    assert_eq!(
        validate_content_length(Some(10), Some("ten")).unwrap_err(),
        FetchError::InvalidContentLength
    );
    assert_eq!(validate_content_length(Some(10), Some("10")), Ok(true));
    assert_eq!(validate_content_length(Some(10), Some("11")), Ok(false));
    // An unknown body length counts as zero, as for a streamed response.
    assert_eq!(validate_content_length(None, Some("0")), Ok(true));
    assert_eq!(validate_content_length(None, Some("10")), Ok(false));
}

#[test]
fn decimal_parsing_bounds() {
    assert_eq!(parse_u64("0"), Some(0));
    assert_eq!(parse_u64("1234567890"), Some(1234567890));
    assert_eq!(parse_u64("18446744073709551615"), Some(u64::MAX));
    assert_eq!(parse_u64("18446744073709551616"), None);
    assert_eq!(parse_u64(""), None);
    assert_eq!(parse_u64("12a"), None);
    assert_eq!(parse_u64("-1"), None);
}

#[test]
fn fetch_plan_decisions() {
    let no_hash = file("mod.jar", None, true);
    assert_eq!(
        plan_fetch(&no_hash, false).unwrap_err(),
        FetchError::MissingHash
    );

    let hashed = file("mod.jar", Some("ab".repeat(64).as_str()), true);
    assert_eq!(plan_fetch(&hashed, false), Ok(FetchPlan::Download));
    assert_eq!(plan_fetch(&hashed, true), Ok(FetchPlan::ReuseExisting));
}

#[test]
fn checksum_verification_accepts_matching_bytes() {
    let data = b"some downloaded archive bytes";
    let declared = hex::encode(<sha2::Sha512 as sha2::Digest>::digest(data));
    let f = file("mod.jar", Some(declared.as_str()), true);

    let artefact = complete_fetch("p", "s", "v", "1.0", &f, data).unwrap();
    assert_eq!(artefact.checksum.0, declared);
}

#[test]
fn checksum_verification_exact_known_digest() {
    // The SHA-512 of the empty input, as every implementation must
    // produce it.
    let declared = "cf83e1357eefb8bdf1542850d66d8007d620e4050b5715dc83f4a921d36ce9ce\
                    47d0d13c5d85f2b0ff8318d2877eec2f63b931bd47417a81a538327af927da3e";
    let f = file("empty.jar", Some(declared), true);
    assert!(complete_fetch("p", "s", "v", "1.0", &f, b"").is_ok());
}

#[test]
fn stale_existing_file_fails_checksum() {
    // A pre-existing file is reused without any request, but its bytes
    // do not hash to the declared checksum: the fetch must fail.
    let declared = "ab".repeat(64);
    let f = file("mod.jar", Some(declared.as_str()), true);

    assert_eq!(plan_fetch(&f, true), Ok(FetchPlan::ReuseExisting));
    let err = complete_fetch("p", "s", "v", "1.0", &f, b"stale bytes").unwrap_err();
    assert_eq!(err, FetchError::ChecksumMismatch);
}

#[test]
fn field_line_round_trip() {
    let line = modrinth::codec::encode_field_line("project_id", "AABBCC");
    assert_eq!(line, "project_id = \"AABBCC\"");
    let value = modrinth::codec::decode_field_line(&line, "project_id").unwrap();
    assert_eq!(value, "AABBCC");

    assert!(modrinth::codec::decode_field_line("project_id = AABBCC", "project_id").is_none());
    assert!(modrinth::codec::decode_field_line("slug = \"AABBCC\"", "project_id").is_none());
    assert!(modrinth::codec::decode_field_line("", "project_id").is_none());
}

#[test]
fn lock_entry_round_trip() {
    let original = artefact("alpha", "v1");
    let lines = modrinth::codec::encode_artefact(&original);
    assert_eq!(lines.len(), 6);
    assert_eq!(lines[0], "project_id = \"alpha\"");
    assert_eq!(lines[2], "version_id = \"v1\"");

    let decoded = modrinth::codec::decode_artefact(&lines, 0).unwrap();
    assert_eq!(decoded, original);

    let mut broken = lines.clone();
    broken[5] = "checksum = unquoted".to_string();
    assert!(modrinth::codec::decode_artefact(&broken, 0).is_none());
}

#[test]
fn lockfile_text_layout() {
    let lockfile = LockfileV1 {
        datapack: vec![],
        fabric: vec![artefact("alpha", "v1")],
    };
    let lines = modrinth::codec::encode_lockfile(&lockfile);
    assert_eq!(
        lines,
        vec![
            "[[fabric]]".to_string(),
            "project_id = \"alpha\"".to_string(),
            "project_slug = \"alpha-slug\"".to_string(),
            "version_id = \"v1\"".to_string(),
            "version_number = \"v1-number\"".to_string(),
            "filename = \"alpha.jar\"".to_string(),
            format!("checksum = \"{}\"", "00".repeat(64)),
            String::new(),
        ]
    );
}

#[test]
fn lockfile_text_is_valid_toml() {
    let lockfile = LockfileV1 {
        datapack: vec![artefact("pack", "p1")],
        fabric: vec![artefact("alpha", "v1"), artefact("beta", "v2")],
    };
    let text = modrinth::codec::encode_lockfile(&lockfile).join("\n");
    let value: toml::Value = toml::from_str(&text).unwrap();

    let fabric = value.get("fabric").unwrap().as_array().unwrap();
    assert_eq!(fabric.len(), 2);
    assert_eq!(
        fabric[1].get("project_id").unwrap().as_str().unwrap(),
        "beta"
    );
    let datapack = value.get("datapack").unwrap().as_array().unwrap();
    assert_eq!(
        datapack[0].get("checksum").unwrap().as_str().unwrap(),
        "00".repeat(64)
    );
}

#[test]
fn lockfile_full_round_trip() {
    let original = LockfileV1 {
        datapack: vec![artefact("pack", "p1")],
        fabric: vec![artefact("alpha", "v1"), artefact("beta", "v2")],
    };
    let lines = modrinth::codec::encode_lockfile(&original);
    let decoded = modrinth::codec::decode_lockfile(&lines).unwrap();
    assert_eq!(decoded, original);

    let empty = LockfileV1::default();
    let lines = modrinth::codec::encode_lockfile(&empty);
    assert!(lines.is_empty());
    assert_eq!(modrinth::codec::decode_lockfile(&lines).unwrap(), empty);

    // A truncated record is rejected rather than misread.
    let mut broken = modrinth::codec::encode_lockfile(&original);
    broken.pop();
    assert!(modrinth::codec::decode_lockfile(&broken).is_none());
}
