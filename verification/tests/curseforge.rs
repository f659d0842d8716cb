use modder::curseforge_wrapper::{
    AsModIdVec, AsNum, Author, CurseForgeAPI, CurseForgeError, CurseForgeMod, Dependency, ExactMatch,
    File, FileIndex, FingerprintResponse, Links, Logo, Mod, BASE_URL, GAME_ID,
};
use modder::model::Relation;
use modder::ModLoader;

fn index(version: &str, file_id: u32) -> FileIndex {
    FileIndex {
        game_version: version.to_string(),
        file_id,
        filename: format!("carpet-{version}.jar"),
        release_type: 1,
        game_version_type_id: None,
        mod_loader: Some(4),
    }
}

fn a_mod(id: u32, indexes: Vec<FileIndex>) -> Mod {
    Mod {
        id,
        game_id: 432,
        name: "Carpet".to_string(),
        slug: "carpet".to_string(),
        links: Links { website_url: None, wiki_url: None, issues_url: None, source_url: None },
        summary: String::new(),
        status: 4,
        download_count: 10,
        is_featured: false,
        primary_category_id: 1,
        categories: Vec::new(),
        class_id: 6,
        authors: vec![Author { id: 1, name: "gnembon".to_string(), url: String::new() }],
        logo: Logo {
            id: 1,
            mod_id: id,
            title: String::new(),
            description: String::new(),
            thumbnail_url: String::new(),
            url: String::new(),
        },
        screenshots: Vec::new(),
        main_file_id: 1,
        latest_files: Vec::new(),
        latest_files_indexes: indexes,
        latest_early_access_files_indexes: Vec::new(),
        date_created: String::new(),
        date_modified: String::new(),
        date_released: String::new(),
        allow_mod_distribution: true,
        game_popularity_rank: 1,
        is_available: true,
        thumbs_up_count: 0,
        rating: None,
    }
}

fn a_file(id: u32, deps: Vec<Dependency>) -> File {
    File {
        id,
        game_id: 432,
        mod_id: 349239,
        is_available: true,
        display_name: String::new(),
        file_name: "carpet.jar".to_string(),
        release_type: 1,
        file_status: 4,
        hashes: Vec::new(),
        file_date: String::new(),
        file_length: 1,
        download_count: 1,
        file_size_on_disk: None,
        download_url: None,
        game_versions: Vec::new(),
        sortable_game_versions: Vec::new(),
        dependencies: deps,
        expose_as_alternative: None,
        parent_project_file_id: None,
        alternate_file_id: None,
        is_server_pack: false,
        server_pack_file_id: None,
        is_early_access_content: None,
        early_access_end_date: None,
        file_fingerprint: 1,
        modules: Vec::new(),
    }
}

#[test]
fn the_first_index_for_a_version_is_taken() {
    let m = a_mod(1, vec![index("1.21.3", 10), index("1.21.4", 20), index("1.21.4", 30)]);
    assert_eq!(m.get_version_and_loader("1.21.4").unwrap().file_id, 20);
    assert_eq!(m.get_version_and_loader("1.21.3").unwrap().file_id, 10);
    assert!(m.get_version_and_loader("1.20").is_none());
    assert_eq!(m.position_for_version("1.21.4"), Some(1));
    assert_eq!(m.to_string(), "Carpet");
    assert_eq!(CurseForgeAPI::file_for_version(&m, "1.21.4").unwrap().file_id, 20);
    match CurseForgeAPI::file_for_version(&m, "1.0") {
        Err(CurseForgeError::NoGameVersionFound(v)) => assert_eq!(v, "1.0"),
        other => panic!("{other:?}"),
    }
}

#[test]
fn loader_numbers() {
    assert_eq!(ModLoader::Any.as_num(), 0);
    assert_eq!(ModLoader::Forge.as_num(), 1);
    assert_eq!(ModLoader::Cauldron.as_num(), 2);
    assert_eq!(ModLoader::LiteLoader.as_num(), 3);
    assert_eq!(ModLoader::Fabric.as_num(), 4);
    assert_eq!(ModLoader::Quilt.as_num(), 5);
    assert_eq!(ModLoader::NeoForge.as_num(), 6);
}

#[test]
fn mod_ids_as_a_list() {
    assert_eq!(349239u32.as_mod_id_vec(), vec![349239]);
    let ids: &[u32] = &[349239, 349240];
    assert_eq!(ids.as_mod_id_vec(), vec![349239, 349240]);
}

#[test]
fn curseforge_addresses() {
    assert_eq!(GAME_ID, 432);
    assert_eq!(BASE_URL, "https://api.curseforge.com/v1");
    assert_eq!(
        CurseForgeAPI::search_mods_url("1.21.4", ModLoader::Fabric, "Carpet", 10),
        "https://api.curseforge.com/v1/mods/search?gameId=432&index=0&searchFilter=Carpet&gameVersion=1.21.4&pageSize=10&sortField=6&gameFlavors[0]=4&sortOrder=desc"
    );
    assert_eq!(CurseForgeAPI::mods_url(), "https://api.curseforge.com/v1/mods");
    assert_eq!(
        CurseForgeAPI::mod_files_url(447673, "1.21.4", ModLoader::NeoForge),
        "https://api.curseforge.com/v1/mods/447673/files?index=0&gameVersion=1.21.4&pageSize=1&modLoaderType=6"
    );
    assert_eq!(
        CurseForgeAPI::download_url(447673, 12),
        "https://api.curseforge.com/v1/mods/447673/files/12/download-url"
    );
    assert_eq!(CurseForgeAPI::mod_file_url(447673, 12), "https://api.curseforge.com/v1/mods/447673/files/12");
    assert_eq!(CurseForgeAPI::fingerprints_url(), "https://api.curseforge.com/v1/fingerprints/432");
    assert_eq!(CurseForgeAPI::new("key".to_string()).api_key, "key");
}

#[test]
fn the_first_exact_match_is_the_file() {
    let mut response = FingerprintResponse {
        is_cache_built: true,
        exact_matches: Vec::new(),
        exact_fingerprints: Vec::new(),
        partial_matches: Vec::new(),
        partial_match_fingerprints: Vec::new(),
        installed_fingerprints: Vec::new(),
        unmatched_fingerprints: Vec::new(),
    };
    match CurseForgeAPI::get_version_from_file(&response, "carpet.jar") {
        Err(CurseForgeError::NoFingerprintFound(name)) => assert_eq!(name, "carpet.jar"),
        other => panic!("{other:?}"),
    }
    response.exact_matches.push(ExactMatch { id: 1, file: a_file(7, Vec::new()), latest_files: Vec::new() });
    response.exact_matches.push(ExactMatch { id: 2, file: a_file(8, Vec::new()), latest_files: Vec::new() });
    assert_eq!(CurseForgeAPI::get_version_from_file(&response, "carpet.jar").unwrap().id, 7);
}

#[test]
fn the_first_mod_answered_is_the_mod() {
    assert!(matches!(CurseForgeAPI::first_mod(&Vec::new()), Err(CurseForgeError::NoModFound)));
    let mods = vec![a_mod(5, Vec::new()), a_mod(6, Vec::new())];
    assert_eq!(CurseForgeAPI::first_mod(&mods).unwrap().id, 5);
}

#[test]
fn dependencies_of_a_file() {
    let file = a_file(
        1,
        vec![Dependency { mod_id: 306612, relation_type: 3 }, Dependency { mod_id: 7, relation_type: 2 }],
    );
    assert_eq!(CurseForgeAPI::get_dependencies(&file), vec![306612, 7]);
    let first = file.dependencies[0].to_ref();
    assert_eq!(first.target.project_id, "306612");
    assert_eq!(first.relation, Relation::Required);
    assert_eq!(file.dependencies[1].to_ref().relation, Relation::Optional);
    assert_eq!(Dependency { mod_id: 1, relation_type: 1 }.to_ref().relation, Relation::Embedded);
    assert_eq!(Dependency { mod_id: 1, relation_type: 5 }.to_ref().relation, Relation::Incompatible);
    assert_eq!(Dependency { mod_id: 1, relation_type: 4 }.to_ref().relation, Relation::Other);
}

#[test]
fn curseforge_errors_in_words() {
    assert_eq!(CurseForgeError::InvalidResponse.to_string(), "Invalid response from CurseForge");
    assert_eq!(CurseForgeError::JsonParsingError("x".to_string()).to_string(), "JSON Parsing error: x");
    assert_eq!(CurseForgeError::HttpError("x".to_string()).to_string(), "HTTP Error: x");
    assert_eq!(CurseForgeError::IoError("x".to_string()).to_string(), "IO Error: x");
    assert_eq!(
        CurseForgeError::NoGameVersionFound("1.0".to_string()).to_string(),
        "No game version found for mod 1.0"
    );
    assert_eq!(
        CurseForgeError::NoFingerprintFound("a.jar".to_string()).to_string(),
        "No fingerprint found for mod a.jar"
    );
    assert_eq!(CurseForgeError::NoModFound.to_string(), "No mod found");
    assert_eq!(CurseForgeError::UrlParseError("x".to_string()).to_string(), "URL Parse error: x");
    assert_eq!(CurseForgeError::UnknownError("x".to_string()).to_string(), "Unknown error: x");
}
