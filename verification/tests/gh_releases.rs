use modder::gh_releases::{
    asset_fits, fitting_asset, get_mod_from_release, AssetState, Error, GHReleasesAPI, Release,
    ReleaseAsset, User, GH_RELEASES_API,
};

fn user() -> User {
    User {
        name: None,
        email: None,
        login: "bot".to_string(),
        id: 1,
        node_id: String::new(),
        avatar_url: String::new(),
        gravatar_id: None,
        url: String::new(),
        html_url: String::new(),
        followers_url: String::new(),
        following_url: String::new(),
        gists_url: String::new(),
        starred_url: None,
        subscriptions_url: String::new(),
        organizations_url: String::new(),
        repos_url: String::new(),
        events_url: String::new(),
        received_events_url: String::new(),
        user_type: "User".to_string(),
        site_admin: false,
        starred_at: None,
        user_view_type: "public".to_string(),
    }
}

fn asset(name: &str) -> ReleaseAsset {
    ReleaseAsset {
        url: String::new(),
        browser_download_url: format!("https://github.com/o/r/releases/download/v1/{name}"),
        id: 1,
        node_id: String::new(),
        name: name.to_string(),
        label: None,
        state: AssetState::Uploaded,
        content_type: "application/java-archive".to_string(),
        size: 1,
        digest: None,
        download_count: 0,
        created_at: "2024-12-01T00:00:00Z".to_string(),
        updated_at: "2024-12-01T00:00:00Z".to_string(),
        uploader: None,
    }
}

fn release(tag: &str, assets: &[&str]) -> Release {
    Release {
        url: String::new(),
        html_url: String::new(),
        assets_url: String::new(),
        upload_url: String::new(),
        tarball_url: None,
        zipball_url: None,
        id: 1,
        node_id: String::new(),
        tag_name: tag.to_string(),
        target_commitish: "main".to_string(),
        name: Some(format!("Release {tag}")),
        body: None,
        draft: false,
        prerelease: false,
        created_at: "2024-12-01T00:00:00Z".to_string(),
        published_at: None,
        author: user(),
        assets: assets.iter().map(|a| asset(a)).collect(),
        body_html: None,
        body_text: None,
        mentions_count: None,
        discussion_url: None,
        reactions: None,
    }
}

#[test]
fn the_first_fitting_asset_of_the_first_serving_release() {
    let releases = vec![
        release("v3", &["mod-forge-1.21.4.jar", "mod-fabric-1.21.5.jar"]),
        release("v2", &["mod-forge-1.21.4.jar", "mod-fabric-1.21.4.jar", "mod-fabric-1.21.4-sources.jar"]),
        release("v1", &["old-fabric-1.21.4.jar"]),
    ];
    let found = get_mod_from_release(&releases, "fabric", "1.21.4").unwrap();
    assert_eq!(found.name, "mod-fabric-1.21.4.jar");
    assert_eq!(get_mod_from_release(&releases, "forge", "1.21.4").unwrap().name, "mod-forge-1.21.4.jar");
    assert_eq!(get_mod_from_release(&releases, "old", "fabric").unwrap().name, "old-fabric-1.21.4.jar");
    assert!(matches!(get_mod_from_release(&releases, "quilt", "1.21.4"), Err(Error::ModNotFound)));
    assert!(matches!(get_mod_from_release(&[], "fabric", "1.21.4"), Err(Error::ModNotFound)));
    assert!(fitting_asset(&releases[0], "fabric", "1.21.4").is_none());
    assert!(asset_fits(&asset("a-fabric-1.21.4.jar"), "fabric", "1.21.4"));
    assert!(!asset_fits(&asset("a-fabric-1.21.jar"), "fabric", "1.21.4"));
}

#[test]
fn the_loader_is_read_as_a_word_of_the_name() {
    assert!(asset_fits(&asset("mod-Fabric-1.21.4.jar"), "fabric", "1.21.4"));
    assert!(asset_fits(&asset("fabric+1.21.4.jar"), "FABRIC", "1.21.4"));
    assert!(asset_fits(&asset("mod_1.21.4_forge"), "forge", "1.21.4"));
    assert!(!asset_fits(&asset("mod-neoforge-1.21.4.jar"), "forge", "1.21.4"));
    assert!(asset_fits(&asset("mod-neoforge-1.21.4.jar"), "neoforge", "1.21.4"));
    assert!(!asset_fits(&asset("fabricated-1.21.4.jar"), "fabric", "1.21.4"));
    assert!(!asset_fits(&asset("prefabric-1.21.4.jar"), "fabric", "1.21.4"));
    assert!(asset_fits(&asset("prefabric-fabric-1.21.4.jar"), "fabric", "1.21.4"));
    assert!(!asset_fits(&asset("fab"), "fabric", ""));
    let releases = vec![
        release("v2", &["mod-neoforge-1.21.4.jar"]),
        release("v1", &["mod-forge-1.21.4.jar"]),
    ];
    assert_eq!(get_mod_from_release(&releases, "forge", "1.21.4").unwrap().name, "mod-forge-1.21.4.jar");
}

#[test]
fn download_url_of_an_asset() {
    assert_eq!(
        asset("a.jar").get_download_url(),
        Some("https://github.com/o/r/releases/download/v1/a.jar".to_string())
    );
}

#[test]
fn requests_to_the_release_host() {
    assert_eq!(GH_RELEASES_API, "https://api.github.com/repos");
    assert_eq!(
        GHReleasesAPI::releases_url("fabricmc", "fabric"),
        "https://api.github.com/repos/fabricmc/fabric/releases"
    );
    let mut api = GHReleasesAPI::new();
    assert_eq!(api.authorization(), None);
    api.token("SECRET-REDACTED".to_string());
    assert_eq!(api.authorization(), Some("Bearer SECRET-REDACTED".to_string()));
    assert_eq!(GHReleasesAPI::default().token, None);
}

#[test]
fn refused_requests() {
    assert!(matches!(GHReleasesAPI::refused(401, "no".to_string()), Error::AuthFailed(m) if m == "no"));
    assert!(matches!(GHReleasesAPI::refused(403, "no".to_string()), Error::AuthFailed(_)));
    assert!(matches!(GHReleasesAPI::refused(404, "gone".to_string()), Error::Reqwest(m) if m == "gone"));
    assert!(matches!(GHReleasesAPI::get_releases(Vec::new()), Err(Error::NoReleases)));
    assert_eq!(GHReleasesAPI::get_releases(vec![release("v1", &[])]).unwrap().len(), 1);
}

#[test]
fn owner_and_repository() {
    assert_eq!(GHReleasesAPI::split_repo("owner/repo"), Some(("owner".to_string(), "repo".to_string())));
    assert_eq!(GHReleasesAPI::split_repo(" owner /repo/x"), Some(("owner".to_string(), "repo".to_string())));
    assert_eq!(GHReleasesAPI::split_repo("owner"), None);
    assert_eq!(GHReleasesAPI::split_repo("/"), Some((String::new(), String::new())));
}

#[test]
fn release_host_errors_in_words() {
    assert_eq!(Error::NoReleases.to_string(), "No releases found");
    assert_eq!(Error::ModNotFound.to_string(), "Mod not found for the particular game version or loader");
    assert_eq!(Error::AuthFailed("x".to_string()).to_string(), "Authorization failed: x");
    assert_eq!(Error::Serde("x".to_string()).to_string(), "Error deserializing the response: x");
    assert_eq!(Error::WriteFileErr("x".to_string()).to_string(), "Error writing the mod to a file: x");
    assert_eq!(
        Error::Reqwest("x".to_string()).to_string(),
        "Error sending the request. This may mean that the request was malformed: x"
    );
}
