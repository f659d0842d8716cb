use modder::address::{destination, file_name_from_url};
use modder::listing::{
    extension_of, find_version, github_line, lay_out_repo, path_is_listed, path_is_mod, render,
    repo_name_of, tagged_repo_of, ModEntry, RepoPaint,
};
use modder::cli::Source;
use modder::update::{update_file_curseforge, update_file_github};
use modder::model::ErrorKind;

fn pairs(items: &[(&str, &str)]) -> Vec<(String, String)> {
    items.iter().map(|(k, v)| (k.to_string(), v.to_string())).collect()
}

#[test]
fn extensions() {
    assert_eq!(extension_of("a.jar"), Some("jar".to_string()));
    assert_eq!(extension_of("a.jar.disabled"), Some("disabled".to_string()));
    assert_eq!(extension_of("a"), None);
    assert_eq!(extension_of(".hidden"), None);
    assert_eq!(extension_of(".hidden.jar"), Some("jar".to_string()));
    assert_eq!(extension_of("a."), Some(String::new()));
    for name in ["a.jar", "a", ".hidden", ".hidden.jar", "a.", "a.b.c", "x.tar.gz"] {
        let expected = std::path::Path::new(name).extension().map(|e| e.to_str().unwrap().to_string());
        assert_eq!(extension_of(name), expected, "{name}");
    }
}

#[test]
fn which_files_are_mods() {
    assert!(path_is_mod("mods/sodium.jar"));
    assert!(!path_is_mod("mods/sodium.jar.disabled"));
    assert!(!path_is_mod("mods.jar/readme"));
    assert!(path_is_listed("mods/sodium.jar"));
    assert!(path_is_listed("mods/sodium.jar.disabled"));
    assert!(!path_is_listed("mods/readme.txt"));
    assert!(!path_is_listed("mods/jar"));
}

#[test]
fn game_version_in_a_name() {
    assert_eq!(find_version("mods/carpet-1.21.4-1.4.161.jar"), Some("1.21.4".to_string()));
    assert_eq!(find_version("mods/mod-1.21-rc1.jar"), Some("1.21-rc1".to_string()));
    assert_eq!(find_version("mods/mod-1.20-pre12+build.jar"), Some("1.20-pre12".to_string()));
    assert_eq!(find_version("mods/readme"), None);
}

#[test]
fn file_name_from_an_address() {
    assert_eq!(
        file_name_from_url("https://edge.forgecdn.net/files/1/2/Create%20Addition-1.19.2.jar"),
        Some("Create Addition-1.19.2.jar".to_string())
    );
    assert_eq!(
        file_name_from_url("https://github.com/o/r/releases/download/v1/a%2Bb.jar?x=1#top"),
        Some("a+b.jar".to_string())
    );
    assert_eq!(file_name_from_url("https://example.com"), Some(String::new()));
    assert_eq!(file_name_from_url("https://example.com/a/%FF.jar"), Some("\u{fffd}.jar".to_string()));
    assert_eq!(file_name_from_url("not an address"), None);
    assert_eq!(file_name_from_url("data:text/plain,Hello"), None);
    assert_eq!(destination("mods", "a.jar"), "mods/a.jar");
    assert_eq!(destination("", "a.jar"), "/a.jar");
}

#[test]
fn list_with_aligned_columns() {
    let lines = vec![
        Some("RELEASE\tAANobbMI\tSodium\n".to_string()),
        None,
        Some("BETA\tP7dR8mSHxx\tFabric API\n".to_string()),
    ];
    assert_eq!(render(&lines), Some("RELEASE  AANobbMI    Sodium\nBETA     P7dR8mSHxx  Fabric API\n".to_string()));
    assert_eq!(render(&Vec::new()), Some(String::new()));
    assert_eq!(render(&vec![None]), Some(String::new()));
}

#[test]
fn repository_of_a_tagged_mod() {
    assert_eq!(tagged_repo_of(&pairs(&[("source", "github"), ("repo", "o/r")])), Some("o/r".to_string()));
    assert_eq!(tagged_repo_of(&pairs(&[("source", ""), ("repo", "o/r")])), None);
    assert_eq!(tagged_repo_of(&pairs(&[("repo", "o/r")])), None);
    assert_eq!(tagged_repo_of(&pairs(&[("source", "github")])), None);
    assert_eq!(repo_name_of("o/r"), "r");
    assert_eq!(repo_name_of("r"), "r");
}

#[test]
fn line_of_a_tagged_mod() {
    colored::control::set_override(false);
    let short = github_line(&pairs(&[("source", "github"), ("repo", "o/r")]), false);
    let long = github_line(&pairs(&[("source", "github"), ("repo", "o/r")]), true);
    colored::control::unset_override();
    let link = "\u{1b}]8;;https://github.com/o/r\u{1b}\\r\u{1b}]8;;\u{1b}\\";
    assert_eq!(short, Some(format!("GITHUB\to/r\t{link}")));
    assert_eq!(long, Some(format!("GITHUB  o/r  {link}")));
    assert_eq!(github_line(&pairs(&[("repo", "o/r")]), false), None);
    let paint = RepoPaint { label: "A".to_string(), repo: "B".to_string(), link: "C".to_string() };
    assert_eq!(lay_out_repo(&paint, false), "A\tB\tC");
    assert_eq!(lay_out_repo(&paint, true), "A  B  C");
}

#[test]
fn entry_of_a_tagged_mod() {
    let entry = ModEntry::from_github(
        &pairs(&[("source", "github"), ("repo", "o/r")]),
        "mods/r-fabric-1.21.4.jar.disabled",
    )
    .unwrap();
    assert_eq!(entry.name, "r");
    assert_eq!(entry.source, Source::Github);
    assert_eq!(entry.project_id, "o/r");
    assert_eq!(entry.version, "1.21.4");
    assert_eq!(entry.version_type, "GITHUB");
    assert!(!entry.enabled);
    assert_eq!(entry.path, "mods/r-fabric-1.21.4.jar.disabled");
    assert!(ModEntry::from_github(&pairs(&[]), "mods/a.jar").is_none());
    let plain = ModEntry::from_github(&pairs(&[("source", "github"), ("repo", "o/r")]), "mods/r.jar").unwrap();
    assert_eq!(plain.version, "");
    assert!(plain.enabled);
}

#[test]
fn repository_for_an_update() {
    assert_eq!(
        update_file_github(&pairs(&[("source", "github"), ("repo", "o/r")]), "a.jar").unwrap(),
        ("o".to_string(), "r".to_string())
    );
    let not_github = update_file_github(&pairs(&[("source", "modrinth"), ("repo", "o/r")]), "a.jar").unwrap_err();
    assert_eq!(not_github.kind, ErrorKind::NotFound);
    let unnamed = update_file_github(&pairs(&[("repo", "o/r")]), "a.jar").unwrap_err();
    assert_eq!(unnamed.kind, ErrorKind::IdentityUnknown);
    assert_eq!(unnamed.reason, "No key found");
    let no_repo = update_file_github(&pairs(&[("source", "github")]), "a.jar").unwrap_err();
    assert_eq!(no_repo.reason, "Could not find repo for a.jar");
    let malformed = update_file_github(&pairs(&[("source", "github"), ("repo", "r")]), "a.jar").unwrap_err();
    assert_eq!(malformed.kind, ErrorKind::ParseError);
    let empty = update_file_curseforge(&Vec::new(), "1.21.4", "a.jar").unwrap_err();
    assert_eq!(empty.kind, ErrorKind::NotFound);
    assert_eq!(empty.reason, "Version not found for a.jar");
}
