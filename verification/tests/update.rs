use modder::cli::Source;
use modder::closure::{ClosureBuilder, Step};
use modder::curseforge_wrapper::{CurseForgeAPI, CurseForgeError};
use modder::fallback::Fallback;
use modder::gh_releases::Error as HostError;
use modder::identity::{Answer, Query, Resolver};
use modder::listing::listed_paths;
use modder::metadata::Metadata;
use modder::model::{
    DependencyRef, ErrorKind, Identity, JobOutcome, Problem, ProjectRef, Relation, VersionDescriptor,
};
use modder::modrinth_wrapper::modrinth::{Error as RegistryError, VersionData};
use modder::scheduler::job_outcome;
use modder::update::{finish_update, start_update, update_file_modrinth};
use modder::ModLoader;
use std::io::{Cursor, Write};

fn plain_jar() -> Vec<u8> {
    let mut writer = zip::ZipWriter::new(Cursor::new(Vec::new()));
    writer.start_file("fabric.mod.json", zip::write::SimpleFileOptions::default()).unwrap();
    writer.write_all(b"{}").unwrap();
    writer.finish().unwrap().into_inner()
}

fn installed(loaders: Option<Vec<&str>>) -> VersionData {
    VersionData {
        name: None,
        version_number: None,
        game_versions: None,
        changelog: None,
        dependencies: None,
        version_type: None,
        loaders: loaders.map(|names| names.into_iter().map(String::from).collect()),
        featured: None,
        status: None,
        id: "v1".to_string(),
        project_id: "AANobbMI".to_string(),
        author_id: "me".to_string(),
        date_published: "2024-12-01".to_string(),
        downloads: 0,
        changelog_url: None,
        files: None,
    }
}

fn version_of(id: &str, deps: &[&str]) -> VersionDescriptor {
    VersionDescriptor {
        source: Source::Modrinth,
        project_id: id.to_string(),
        version_id: format!("{id}-1"),
        game_versions: vec!["1.21.4".to_string()],
        loaders: vec!["fabric".to_string()],
        files: Vec::new(),
        dependencies: deps
            .iter()
            .map(|d| DependencyRef { target: ProjectRef::new(Source::Modrinth, d), relation: Relation::Required })
            .collect(),
    }
}

#[test]
fn a_mod_of_unknown_origin_is_passed_over() {
    let bytes = plain_jar();
    let mut resolver = Resolver::for_bytes(&bytes);
    let mut asked = Vec::new();
    while let Some(query) = resolver.next_query() {
        let answer = match query {
            Query::ContentHash { .. } => {
                asked.push("hash");
                Answer::NoMatch
            }
            Query::Fingerprint { .. } => {
                asked.push("fingerprint");
                Answer::NoMatch
            }
            Query::ProvenanceTag => {
                asked.push("tag");
                match Metadata::read_stamp(bytes.clone()) {
                    Some((provider, repo_ref)) => Answer::Tag { provider, repo_ref },
                    None => Answer::NoMatch,
                }
            }
        };
        resolver.answer(answer);
    }
    // The tag is read only after the lookups found nothing.
    assert_eq!(asked, vec!["hash", "fingerprint", "tag"]);
    let identity = resolver.identity().unwrap();
    assert!(matches!(identity, Identity::Unknown));
    for other_sources in [false, true] {
        let plan = start_update(None, &identity, other_sources);
        // No orchestrator: no provider is asked, nothing is downloaded.
        assert!(plan.is_none());
        let ending = finish_update(&plan, true, "mods/a.jar");
        assert!(matches!(ending.outcome, JobOutcome::NotFound));
        assert!(!ending.removes_previous);
        let warning = ending.warning.unwrap();
        assert_eq!(warning.kind, ErrorKind::IdentityUnknown);
        assert_eq!(warning.reason, "Nothing tells where mods/a.jar came from");
    }
}

#[test]
fn an_update_starts_at_the_provider_that_knows_the_mod() {
    let by_hash = Identity::ContentAddressed { hash: "ab".to_string() };
    let by_fingerprint = Identity::Fingerprinted { fingerprint: 7 };
    let tagged = Identity::ProvenanceTagged { provider: Source::Github, repo_ref: "o/r".to_string() };
    assert_eq!(start_update(None, &by_hash, false).unwrap().order, vec![Source::Modrinth]);
    assert_eq!(start_update(None, &by_fingerprint, false).unwrap().order, vec![Source::CurseForge]);
    assert_eq!(
        start_update(None, &tagged, true).unwrap().order,
        vec![Source::Github, Source::Modrinth, Source::CurseForge]
    );
    // A provider that is named comes first, whatever is known of the mod.
    assert_eq!(
        start_update(Some(Source::CurseForge), &by_hash, true).unwrap().order,
        vec![Source::CurseForge, Source::Modrinth, Source::Github]
    );
    let named = start_update(Some(Source::Github), &Identity::Unknown, false).unwrap();
    assert_eq!(named.order, vec![Source::Github]);
    assert_eq!(named.tried, 0);
    assert!(!named.served);
}

#[test]
fn the_end_of_an_update_that_had_an_orchestrator() {
    let mut plan = start_update(Some(Source::Modrinth), &Identity::Unknown, true);
    let fallback = plan.as_mut().unwrap();
    fallback.record(Some(Problem::new(ErrorKind::IdentityUnknown, "unknown hash")));
    fallback.record(None);
    let ending = finish_update(&plan, true, "mods/a.jar");
    assert!(matches!(ending.outcome, JobOutcome::Downloaded));
    assert!(ending.removes_previous);
    assert!(ending.warning.is_none());
    assert!(!finish_update(&plan, false, "mods/a.jar").removes_previous);

    let mut direct = start_update(Some(Source::Modrinth), &Identity::Unknown, true);
    direct.as_mut().unwrap().record(None);
    let ending = finish_update(&direct, true, "mods/a.jar");
    assert!(matches!(ending.outcome, JobOutcome::Downloaded));
    assert!(!ending.removes_previous);
}

#[test]
fn a_mod_that_no_provider_knows_is_not_found() {
    let mut unknown = Fallback::new(Source::Modrinth, true);
    unknown.record(Some(Problem::new(ErrorKind::IdentityUnknown, "unknown hash")));
    unknown.record(Some(Problem::new(ErrorKind::IdentityUnknown, "No key found")));
    unknown.record(Some(Problem::new(ErrorKind::NotFound, "no version")));
    assert!(matches!(job_outcome(&unknown), JobOutcome::NotFound));
    let ending = finish_update(&Some(unknown), true, "mods/a.jar");
    assert!(matches!(ending.outcome, JobOutcome::NotFound));
    assert!(!ending.removes_previous);

    let mut broken = Fallback::new(Source::Modrinth, true);
    broken.record(Some(Problem::new(ErrorKind::IdentityUnknown, "unknown hash")));
    broken.record(Some(Problem::new(ErrorKind::TransportError, "timeout")));
    broken.record(Some(Problem::new(ErrorKind::IdentityUnknown, "unknown fingerprint")));
    assert!(matches!(job_outcome(&broken), JobOutcome::Failed { reason } if reason == "timeout"));
}

#[test]
fn what_the_registry_is_asked_for_an_update() {
    let unknown = update_file_modrinth(None, Some(ModLoader::Forge), "mods/a.jar").unwrap_err();
    assert_eq!(unknown.kind, ErrorKind::IdentityUnknown);
    assert_eq!(unknown.reason, "Nothing tells where mods/a.jar came from");

    let known = installed(Some(vec!["quilt", "fabric"]));
    assert_eq!(
        update_file_modrinth(Some(&known), None, "mods/a.jar").unwrap(),
        ("AANobbMI".to_string(), ModLoader::Quilt)
    );
    assert_eq!(
        update_file_modrinth(Some(&known), Some(ModLoader::Forge), "mods/a.jar").unwrap(),
        ("AANobbMI".to_string(), ModLoader::Forge)
    );
    assert_eq!(
        update_file_modrinth(Some(&installed(None)), None, "mods/a.jar").unwrap(),
        ("AANobbMI".to_string(), ModLoader::Fabric)
    );
    let unnamed = update_file_modrinth(Some(&installed(Some(vec![]))), None, "mods/a.jar").unwrap_err();
    assert_eq!(unnamed.kind, ErrorKind::ParseError);
    assert_eq!(unnamed.reason, "No loader found");
}

#[test]
fn the_kind_of_each_error() {
    assert_eq!(RegistryError::NoVersionsFound("a".to_string()).kind(), ErrorKind::NotFound);
    assert_eq!(RegistryError::RequestErr("x".to_string()).kind(), ErrorKind::TransportError);
    assert_eq!(RegistryError::IoError("x".to_string()).kind(), ErrorKind::IoError);
    assert_eq!(RegistryError::SerdeErr("x".to_string()).kind(), ErrorKind::ParseError);
    assert_eq!(RegistryError::MetadataErr("x".to_string()).kind(), ErrorKind::ParseError);
    assert_eq!(RegistryError::UnknownError("x".to_string()).kind(), ErrorKind::ParseError);
    assert_eq!(RegistryError::GithubError("x".to_string()).kind(), ErrorKind::ParseError);
    let problem = RegistryError::NoVersionsFound("a.jar".to_string()).problem();
    assert_eq!(problem.kind, ErrorKind::NotFound);
    assert_eq!(problem.reason, "No versions found for mod a.jar");

    assert_eq!(HostError::NoReleases.kind(), ErrorKind::NotFound);
    assert_eq!(HostError::ModNotFound.kind(), ErrorKind::NotFound);
    assert_eq!(HostError::Reqwest("x".to_string()).kind(), ErrorKind::TransportError);
    assert_eq!(HostError::AuthFailed("x".to_string()).kind(), ErrorKind::TransportError);
    assert_eq!(HostError::Serde("x".to_string()).kind(), ErrorKind::ParseError);
    assert_eq!(HostError::WriteFileErr("x".to_string()).kind(), ErrorKind::IoError);
    let problem = HostError::AuthFailed("401".to_string()).problem();
    assert_eq!(problem.kind, ErrorKind::TransportError);
    assert_eq!(problem.reason, "Authorization failed: 401");

    assert_eq!(CurseForgeError::NoFingerprintFound("a".to_string()).kind(), ErrorKind::IdentityUnknown);
    assert_eq!(CurseForgeError::NoGameVersionFound("a".to_string()).kind(), ErrorKind::NotFound);
    assert_eq!(CurseForgeError::NoModFound.kind(), ErrorKind::NotFound);
    assert_eq!(CurseForgeError::HttpError("x".to_string()).kind(), ErrorKind::TransportError);
    assert_eq!(CurseForgeError::IoError("x".to_string()).kind(), ErrorKind::IoError);
    assert_eq!(CurseForgeError::InvalidResponse.kind(), ErrorKind::ParseError);
    assert_eq!(CurseForgeError::JsonParsingError("x".to_string()).kind(), ErrorKind::ParseError);
    assert_eq!(CurseForgeError::UrlParseError("x".to_string()).kind(), ErrorKind::ParseError);
    assert_eq!(CurseForgeError::UnknownError("x".to_string()).kind(), ErrorKind::ParseError);
    let problem = CurseForgeError::NoFingerprintFound("a.jar".to_string()).problem();
    assert_eq!(problem.kind, ErrorKind::IdentityUnknown);
    assert_eq!(problem.reason, "No fingerprint found for mod a.jar");
}

#[test]
fn the_fingerprint_that_is_sent() {
    assert_eq!(CurseForgeAPI::fingerprint_request(b"Hello world"), vec![1423925525]);
    assert_eq!(CurseForgeAPI::fingerprint_request(b"Hello \t world\r\n"), vec![1423925525]);
}

#[test]
fn only_the_mods_of_a_directory_are_listed() {
    let scanned: Vec<String> =
        ["mods/a.jar", "mods/notes.txt", "mods/b.jar.disabled", "mods/old", "mods/.jar", "mods/c.JAR"]
            .iter()
            .map(|p| p.to_string())
            .collect();
    assert_eq!(listed_paths(&scanned), vec!["mods/a.jar".to_string(), "mods/b.jar.disabled".to_string()]);
    assert!(listed_paths(&Vec::new()).is_empty());
}

#[test]
fn the_projects_of_the_request_are_the_roots() {
    let roots = vec![ProjectRef::new(Source::Modrinth, "root"), ProjectRef::new(Source::Modrinth, "lib")];
    let catalogue = vec![
        (ProjectRef::new(Source::Modrinth, "root"), version_of("root", &["lib", "dep", "root"])),
        (ProjectRef::new(Source::Modrinth, "lib"), version_of("lib", &["dep"])),
        (ProjectRef::new(Source::Modrinth, "dep"), version_of("dep", &[])),
    ];
    let builder = ClosureBuilder::expand(&roots, catalogue);
    assert!(builder.is_root(&ProjectRef::new(Source::Modrinth, "root")));
    assert!(builder.is_root(&ProjectRef::new(Source::Modrinth, "lib")));
    assert!(!builder.is_root(&ProjectRef::new(Source::Modrinth, "dep")));
    assert!(!builder.is_root(&ProjectRef::new(Source::Modrinth, "never met")));
    assert!(!builder.is_root(&ProjectRef::new(Source::Github, "root")));
    let flags: Vec<(String, bool)> =
        builder.into_entries().into_iter().map(|e| (e.key.project_id, e.is_root)).collect();
    assert_eq!(
        flags,
        vec![("root".to_string(), true), ("lib".to_string(), true), ("dep".to_string(), false)]
    );
}

#[test]
fn what_an_answer_settles() {
    let roots = vec![ProjectRef::new(Source::Modrinth, "root")];
    let mut builder = ClosureBuilder::new(&roots);
    let key = builder.next_request().unwrap();
    let step = builder.settle(&key, Some(version_of("root", &["lib", "root", "lib"])));
    assert!(step.is_root);
    let skipped: Vec<&str> = step.skipped.iter().map(|r| r.project_id.as_str()).collect();
    assert_eq!(skipped, vec!["root", "lib"]);
    assert_eq!(builder.skipped_count(), 2);
    // The file of a root is downloaded by whoever asked for it.
    assert!(!step.downloads(true));
    let outcomes = step.outcomes(true);
    assert_eq!(outcomes.len(), 2);
    assert!(outcomes.iter().all(|o| matches!(o, JobOutcome::SkippedDuplicate)));

    let key = builder.next_request().unwrap();
    assert_eq!(key.project_id, "lib");
    let step = builder.settle(&key, None);
    assert!(!step.is_root);
    assert!(step.skipped.is_empty());
    assert!(!step.downloads(false));
    let outcomes = step.outcomes(false);
    assert_eq!(outcomes.len(), 1);
    assert!(matches!(outcomes[0], JobOutcome::NotFound));
    assert!(builder.next_request().is_none());

    let dependency = Step { is_root: false, skipped: vec![ProjectRef::new(Source::Modrinth, "x")] };
    assert!(dependency.downloads(true));
    let outcomes = dependency.outcomes(false);
    assert_eq!(outcomes.len(), 2);
    assert!(matches!(outcomes[0], JobOutcome::SkippedDuplicate));
    assert!(matches!(outcomes[1], JobOutcome::NotFound));

    let later: Vec<String> = builder.skipped_from(1).into_iter().map(|r| r.project_id).collect();
    assert_eq!(later, vec!["lib".to_string()]);
    assert!(builder.skipped_from(2).is_empty());
    assert!(builder.skipped_from(9).is_empty());
}

#[test]
fn the_provider_is_read_back_whatever_the_key_holds() {
    for key in ["a:b", "two\nlines", "source", ""] {
        for provider in [Source::Modrinth, Source::Github, Source::CurseForge] {
            let stamped = Metadata::add_metadata(plain_jar(), provider, key, "v\nw: x").unwrap();
            assert_eq!(Metadata::get_source(stamped.clone()).unwrap(), provider);
            assert_eq!(Metadata::get_kv(stamped, "source").unwrap(), provider.to_string());
        }
    }
}
