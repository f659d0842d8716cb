use modder::modrinth_wrapper::modrinth::{
    download_file, update_from_file, version_type_text, Dependency, Error, File, FileHash, GetProject,
    License, LinePaint, Mod, Modrinth, MonetizationStatus, Project, ProjectType, SupportLevel,
    VerbosePaint, VersionData,
};
use modder::model::Relation;
use modder::ModLoader;

fn file(name: &str) -> File {
    File {
        hashes: FileHash { sha512: "ab".to_string(), sha1: "cd".to_string() },
        url: format!("https://cdn.modrinth.com/data/x/{name}"),
        filename: name.to_string(),
        primary: true,
        size: 10,
        file_type: None,
    }
}

fn version() -> VersionData {
    VersionData {
        name: Some("Sodium 0.6.0".to_string()),
        version_number: Some("mc1.21.4-0.6.0".to_string()),
        game_versions: Some(vec!["1.21.3".to_string(), "1.21.4".to_string()]),
        changelog: None,
        dependencies: Some(vec![
            Dependency {
                version_id: None,
                project_id: Some("P7dR8mSH".to_string()),
                file_name: None,
                dependency_type: Some("required".to_string()),
            },
            Dependency { version_id: Some("v".to_string()), project_id: None, file_name: None, dependency_type: None },
        ]),
        version_type: Some("release".to_string()),
        loaders: Some(vec!["fabric".to_string(), "quilt".to_string()]),
        featured: Some(true),
        status: Some("listed".to_string()),
        id: "abc".to_string(),
        project_id: "AANobbMI".to_string(),
        author_id: "me".to_string(),
        date_published: "2024-12-01".to_string(),
        downloads: 1234,
        changelog_url: None,
        files: Some(vec![file("sodium.jar"), file("sodium-sources.jar")]),
    }
}

fn project() -> GetProject {
    GetProject {
        id: "AANobbMI".to_string(),
        slug: "sodium".to_string(),
        project_type: "mod".to_string(),
        team: "t".to_string(),
        title: "Sodium".to_string(),
        description: "d".to_string(),
        categories: vec!["optimization".to_string(), "fabric".to_string()],
        additional_categories: Vec::new(),
        client_side: "required".to_string(),
        server_side: "unsupported".to_string(),
        body: String::new(),
        status: "approved".to_string(),
        requested_status: None,
        issues_url: None,
        source_url: None,
        wiki_url: None,
        discord_url: None,
        donation_urls: Vec::new(),
        icon_url: None,
        color: None,
        thread_id: "x".to_string(),
        monetization_status: None,
        body_url: None,
        moderator_message: None,
        published: "p".to_string(),
        updated: "u".to_string(),
        approved: None,
        queued: None,
        downloads: 1,
        followers: 2,
        license: License { id: "mit".to_string(), name: "MIT".to_string(), url: None },
        versions: Vec::new(),
        game_versions: Vec::new(),
        loaders: Vec::new(),
        gallery: Vec::new(),
    }
}

#[test]
fn project_getters() {
    let p = project();
    assert_eq!(p.get_title(), "Sodium");
    assert_eq!(p.get_slug(), "sodium");
    assert_eq!(p.get_categories(), vec!["optimization".to_string(), "fabric".to_string()]);
}

#[test]
fn version_getters() {
    let v = version();
    assert_eq!(v.get_version(), "mc1.21.4-0.6.0");
    assert_eq!(v.get_version_type(), "release");
    assert_eq!(v.get_game_versions(), Some(vec!["1.21.3".to_string(), "1.21.4".to_string()]));
    assert_eq!(v.primary_file().unwrap().filename, "sodium.jar");
    let mut bare = version();
    bare.version_number = None;
    bare.version_type = None;
    bare.game_versions = None;
    bare.files = None;
    assert_eq!(bare.get_version(), "");
    assert_eq!(bare.get_version_type(), "");
    assert_eq!(bare.get_game_versions(), None);
    assert!(bare.primary_file().is_none());
    bare.files = Some(Vec::new());
    assert!(bare.primary_file().is_none());
}

#[test]
fn format_verbose_without_colours() {
    colored::control::set_override(false);
    let text = version().format_verbose("Sodium", &vec!["optimization".to_string(), "fabric".to_string()]);
    colored::control::unset_override();
    let link = "\u{1b}]8;;https://modrinth.com/mod/AANobbMI\u{1b}\\https://modrinth.com/mod/AANobbMI\u{1b}]8;;\u{1b}\\";
    let expected = format!(
        "Sodium mc1.21.4-0.6.0\n\tURL: {link}\n\tMod version: Sodium 0.6.0\n\tGame versions: 1.21.3, 1.21.4\n\tLoaders: fabric, quilt\n\tCategories: optimization, fabric\n\tStatus: listed\n\tDate published: 2024-12-01\n\tDownloads: 1234\n\n"
    );
    assert_eq!(text, expected);
}

#[test]
fn format_without_colours() {
    colored::control::set_override(false);
    let release = version().format("Sodium");
    let mut other = version();
    other.version_type = Some("Beta".to_string());
    let beta = other.format("Sodium");
    other.version_type = Some("alpha".to_string());
    let alpha = other.format("Sodium");
    other.version_type = None;
    let unknown = other.format("Sodium");
    colored::control::unset_override();
    let link = "\u{1b}]8;;https://modrinth.com/mod/AANobbMI\u{1b}\\Sodium\u{1b}]8;;\u{1b}\\";
    assert_eq!(release, format!("RELEASE\tAANobbMI\t{link}\n"));
    assert_eq!(beta, format!("BETA\tAANobbMI\t{link}\n"));
    assert_eq!(alpha, format!("ALPHA\tAANobbMI\t{link}\n"));
    assert_eq!(unknown, format!("UNKNOWN\tAANobbMI\t{link}\n"));
}

#[test]
fn lay_out_from_painted_parts() {
    let paint = VerbosePaint {
        name: "<n>".to_string(),
        version: "<v>".to_string(),
        link: "<l>".to_string(),
        game_versions: "<g>".to_string(),
        loaders: "<o>".to_string(),
        categories: "<c>".to_string(),
    };
    assert_eq!(
        version().lay_out_verbose(&paint),
        "<n> <v>\n\tURL: <l>\n\tMod version: Sodium 0.6.0\n\tGame versions: <g>\n\tLoaders: <o>\n\tCategories: <c>\n\tStatus: listed\n\tDate published: 2024-12-01\n\tDownloads: 1234\n\n"
    );
    let line = LinePaint { label: "L".to_string(), project_id: "P".to_string(), link: "K".to_string() };
    assert_eq!(VersionData::lay_out_line(&line), "L\tP\tK\n");
    assert_eq!(version().page_url(), "https://modrinth.com/mod/AANobbMI");
}

#[test]
fn version_type_columns() {
    assert_eq!(version_type_text("release"), "RELEASE");
    assert_eq!(version_type_text("Beta"), "BETA   ");
    assert_eq!(version_type_text("ALPHA"), "ALPHA  ");
    assert_eq!(version_type_text("github"), "GITHUB ");
    assert_eq!(version_type_text(""), "UNKNOWN");
    assert_eq!(version_type_text("relea\u{17f}e"), "RELEASE");
}

#[test]
fn modrinth_addresses() {
    assert_eq!(
        Modrinth::versions_url("sodium", "1.21.4", ModLoader::NeoForge),
        "https://api.modrinth.com/v2/project/sodium/version?game_versions=[\"1.21.4\"]&loaders=[\"neoforge\"]"
    );
    assert_eq!(
        Modrinth::search_url("carpet", 100, 200),
        "https://api.modrinth.com/v2/search?query=carpet&limit=100&index=relevance&facets=%5B%5B%22project_type%3Amod%22%5D%5D&offset=200"
    );
    assert_eq!(Modrinth::project_url("AANobbMI"), "https://api.modrinth.com/v2/project/AANobbMI");
    assert_eq!(Modrinth::version_file_url("abcd"), "https://api.modrinth.com/v2/version_file/abcd");
    assert_eq!(Modrinth::loader_name(ModLoader::LiteLoader), "liteloader");
    assert_eq!(Modrinth::loader_name(ModLoader::Any), "any");
}

#[test]
fn the_first_version_listed_is_taken() {
    let mut second = version();
    second.id = "second".to_string();
    let versions = vec![version(), second];
    assert_eq!(Modrinth::get_version(&versions).unwrap().id, "abc");
    assert!(Modrinth::get_version(&Vec::new()).is_none());
}

#[test]
fn pages_of_the_most_downloaded_mods() {
    assert_eq!(Modrinth::get_top_mods(0), vec![]);
    assert_eq!(Modrinth::get_top_mods(42), vec![(42, 0)]);
    assert_eq!(Modrinth::get_top_mods(100), vec![(100, 0)]);
    assert_eq!(Modrinth::get_top_mods(250), vec![(100, 0), (100, 100), (50, 200)]);
    let all = Modrinth::get_top_mods(u16::MAX);
    assert_eq!(all.len(), 656);
    assert_eq!(all[654], (100, 65400));
    assert_eq!(all[655], (35, 65500));
}

#[test]
fn loader_for_an_update() {
    let v = version();
    assert_eq!(Modrinth::loader_for_update(Some(ModLoader::Forge), &v).unwrap(), ModLoader::Forge);
    assert_eq!(Modrinth::loader_for_update(None, &v).unwrap(), ModLoader::Fabric);
    let mut quilt = version();
    quilt.loaders = Some(vec!["quilt".to_string()]);
    assert_eq!(Modrinth::loader_for_update(None, &quilt).unwrap(), ModLoader::Quilt);
    quilt.loaders = Some(vec!["paper".to_string()]);
    assert_eq!(Modrinth::loader_for_update(None, &quilt).unwrap(), ModLoader::Any);
    quilt.loaders = None;
    assert_eq!(Modrinth::loader_for_update(None, &quilt).unwrap(), ModLoader::Fabric);
    quilt.loaders = Some(Vec::new());
    match Modrinth::loader_for_update(None, &quilt) {
        Err(Error::UnknownError(reason)) => assert_eq!(reason, "No loader found"),
        other => panic!("{other:?}"),
    }
}

#[test]
fn what_an_update_downloads() {
    let v = version();
    assert_eq!(update_from_file(Some(&v), "mods/sodium.jar").unwrap().unwrap().filename, "sodium.jar");
    match update_from_file(None, "mods/sodium.jar") {
        Err(Error::NoVersionsFound(name)) => assert_eq!(name, "mods/sodium.jar"),
        other => panic!("{other:?}"),
    }
    assert_eq!(download_file(&file("sodium.jar"), "mods"), "mods/sodium.jar");
}

#[test]
fn modrinth_errors_in_words() {
    assert_eq!(Error::NoVersionsFound("a.jar".to_string()).to_string(), "No versions found for mod a.jar");
    assert_eq!(Error::SerdeErr("x".to_string()).to_string(), "Error deserializing the response: x");
    assert_eq!(
        Error::RequestErr("x".to_string()).to_string(),
        "Error sending the request. This may mean that the request was malformed: x"
    );
    assert_eq!(Error::MetadataErr("x".to_string()).to_string(), "Metadata error: x");
    assert_eq!(Error::UnknownError("x".to_string()).to_string(), "Unknown error: x");
    assert_eq!(Error::GithubError("x".to_string()).to_string(), "Error getting mod from github: x");
    assert_eq!(Error::IoError("x".to_string()).to_string(), "Error writing file: x");
}

#[test]
fn dependencies_as_the_engine_takes_them() {
    let v = version();
    let deps = v.dependencies.unwrap();
    let first = deps[0].to_ref().unwrap();
    assert_eq!(first.target.project_id, "P7dR8mSH");
    assert_eq!(first.relation, Relation::Required);
    assert!(deps[1].to_ref().is_none());
}

#[test]
fn mods_by_slug_and_title() {
    let project = Project {
        slug: "sodium".to_string(),
        title: "Sodium".to_string(),
        description: String::new(),
        categories: Vec::new(),
        client_side: SupportLevel::Required,
        server_side: SupportLevel::Unsupported,
        project_type: ProjectType::Mod,
        downloads: 1,
        icon_url: None,
        color: None,
        thread_id: None,
        monetization_status: Some(MonetizationStatus::Monetized),
        project_id: "AANobbMI".to_string(),
        author: "jelly".to_string(),
        display_categories: Vec::new(),
        versions: Vec::new(),
        follows: 0,
        date_created: String::new(),
        date_modified: String::new(),
        latest_version: None,
        license: "MIT".to_string(),
        gallery: Vec::new(),
        featured_gallery: None,
    };
    assert_eq!(project.to_string(), "Sodium");
    let m = Mod::from(project);
    assert_eq!(m.slug, "sodium");
    assert_eq!(m.to_string(), "Sodium");
    let extras = Mod::extras();
    assert_eq!(extras.len(), 10);
    assert_eq!(extras[0].slug, "anti-xray");
    assert_eq!(extras[9].title, "Status");
    let mut all = vec![m.clone(), extras[3].clone(), m.clone()];
    all.extend(extras.clone());
    let unique = Mod::unique(all);
    assert_eq!(unique.len(), 11);
    assert_eq!(unique[0], m);
    assert_eq!(unique[1].slug, "easyauth");
    assert_eq!(unique[2].slug, "anti-xray");
}
