use modder::cli::{Cli, Commands, Lookup, Matching, Source};
use modder::{calc_sha512, Link, ModLoader, Mods, UrlBuilder};

#[test]
fn source_names() {
    assert_eq!(Source::Modrinth.to_string(), "modrinth");
    assert_eq!(Source::Github.to_string(), "github");
    assert_eq!(Source::CurseForge.to_string(), "curseforge");
    assert_eq!(Source::default(), Source::Modrinth);
    assert_eq!(Source::all(), vec![Source::Modrinth, Source::Github, Source::CurseForge]);
}

#[test]
fn source_from_name() {
    assert_eq!(Source::from_name("modrinth"), Ok(Source::Modrinth));
    assert_eq!(Source::from_name("  GitHub\n"), Ok(Source::Github));
    assert_eq!(Source::from_name("CURSEFORGE"), Ok(Source::CurseForge));
    assert_eq!(Source::from_name("curse-forge"), Err("Invalid source".to_string()));
    assert_eq!(Source::from_name(""), Err("Invalid source".to_string()));
    for source in Source::all() {
        assert_eq!(Source::from_name(&source.to_string()), Ok(source));
    }
}

#[test]
fn source_for_a_request() {
    assert_eq!(Source::for_request("sodium", None), Source::Modrinth);
    assert_eq!(Source::for_request("owner/repo", None), Source::Github);
    assert_eq!(Source::for_request("owner/repo", Some(Source::CurseForge)), Source::CurseForge);
    assert_eq!(Source::for_request("sodium", Some(Source::Github)), Source::Github);
}

#[test]
fn command_titles() {
    let add = Commands::Add {
        mod_: "sodium".to_string(),
        version: None,
        source: None,
        token: None,
        loader: ModLoader::Fabric,
        dir: "./".to_string(),
    };
    assert_eq!(add.to_string(), "Add");
    let update = Commands::Update {
        dir: "./".to_string(),
        version: Some("1.21.4".to_string()),
        delete_previous: false,
        token: None,
        source: None,
        other_sources: true,
        loader: None,
    };
    assert_eq!(update.to_string(), "Update");
    assert_eq!(
        Commands::QuickAdd { version: None, limit: 100, loader: ModLoader::Fabric }.to_string(),
        "Quick Add"
    );
    assert_eq!(Commands::Toggle { version: None, dir: "./".to_string() }.to_string(), "Toggle");
    let list = Commands::List { dir: "./".to_string(), verbose: true };
    assert_eq!(list.to_string(), "List");
    let cli = Cli { command: list, silent: false };
    assert!(!cli.silent);
}

#[test]
fn loaders() {
    assert_eq!(ModLoader::default(), ModLoader::Fabric);
    assert_eq!(ModLoader::NeoForge.to_string(), "NeoForge");
    assert_eq!(ModLoader::LiteLoader.to_string(), "LiteLoader");
    assert_eq!(ModLoader::all().len(), 7);
    assert_eq!(ModLoader::all()[0], ModLoader::Forge);
    assert_eq!(ModLoader::all()[6], ModLoader::Any);
    assert_eq!(ModLoader::from_provider_name("fabric"), ModLoader::Fabric);
    assert_eq!(ModLoader::from_provider_name("forge"), ModLoader::Forge);
    assert_eq!(ModLoader::from_provider_name("quilt"), ModLoader::Quilt);
    assert_eq!(ModLoader::from_provider_name("neoforge"), ModLoader::NeoForge);
    assert_eq!(ModLoader::from_provider_name("cauldron"), ModLoader::Cauldron);
    assert_eq!(ModLoader::from_provider_name("liteloader"), ModLoader::LiteLoader);
    assert_eq!(ModLoader::from_provider_name("Fabric"), ModLoader::Any);
    assert_eq!(ModLoader::from_provider_name("bukkit"), ModLoader::Any);
}

#[test]
fn curated_slugs() {
    assert_eq!(Mods::FabricApi.to_string(), "fabric-api");
    assert_eq!(Mods::AntiXray.to_string(), "anti-xray");
    assert_eq!(Mods::AppleSkin.to_string(), "appleskin");
    assert_eq!(Mods::EasyAuth.to_string(), "easy-auth");
    assert_eq!(Mods::EssentialCommands.to_string(), "essential-commands");
    assert_eq!(Mods::Lithium.to_string(), "lithium");
    assert_eq!(Mods::Origins.to_string(), "origins");
    assert_eq!(Mods::SkinRestorer.to_string(), "skin-restorer");
    assert_eq!(Mods::Status.to_string(), "status");
    assert_eq!(Mods::CarpetExtra.to_string(), "carpet-extra");
    assert_eq!(Mods::FabricCarpet.to_string(), "fabric-carpet");
    assert_eq!(Mods::Geyser.to_string(), "geyser");
    assert_eq!(Mods::WorldEdit.to_string(), "worldedit");
}

#[test]
fn link_as_a_terminal_takes_it() {
    let link = Link::new("sodium".to_string(), "https://modrinth.com/mod/AANobbMI".to_string());
    assert_eq!(link.text, "sodium");
    assert_eq!(link.to_string(), "\u{1b}]8;;https://modrinth.com/mod/AANobbMI\u{1b}\\sodium\u{1b}]8;;\u{1b}\\");
    assert_eq!(Link::default().to_string(), "\u{1b}]8;;\u{1b}\\\u{1b}]8;;\u{1b}\\");
}

#[test]
fn url_builder() {
    let mut url = UrlBuilder::new("https://api.github.com/repos", "/a/b/releases");
    assert_eq!(url.to_string(), "https://api.github.com/repos/a/b/releases");
    url.add_param("per_page", "10");
    assert_eq!(url.to_string(), "https://api.github.com/repos/a/b/releases?per_page=10");
    url.add_param("page", "2");
    url.add_param("x", "");
    assert_eq!(url.to_string(), "https://api.github.com/repos/a/b/releases?per_page=10&page=2&x=");
    assert_eq!(url.params.len(), 3);
}

#[test]
fn content_hash() {
    assert_eq!(
        calc_sha512(b"abc"),
        "ddaf35a193617abacc417349ae20413112e6fa4e89a97ea20a9eeee64b55d39a\
         2192992a274fc1a836ba3c23a3feebbd454d4423643ce80e2a9ac94fa54ca49f"
    );
    assert_eq!(
        calc_sha512(b""),
        "cf83e1357eefb8bdf1542850d66d8007d620e4050b5715dc83f4a921d36ce9ce\
         47d0d13c5d85f2b0ff8318d2877eec2f63b931bd47417a81a538327af927da3e"
    );
    assert_eq!(modder::digest::try_sha512(b"abc"), Some(calc_sha512(b"abc")));
}

#[test]
fn how_each_provider_looks_up_and_matches() {
    assert_eq!(Source::Modrinth.lookup(), Lookup::ContentHash);
    assert_eq!(Source::CurseForge.lookup(), Lookup::Fingerprint);
    assert_eq!(Source::Github.lookup(), Lookup::RepoReference);
    assert_eq!(Source::Modrinth.matching(), Matching::Listed);
    assert_eq!(Source::CurseForge.matching(), Matching::Listed);
    assert_eq!(Source::Github.matching(), Matching::AssetName);
}
