use modder::listing::github_line;
use modder::modrinth_wrapper::modrinth::VersionData;

fn version(kind: &str) -> VersionData {
    VersionData {
        name: Some("n".to_string()),
        version_number: Some("1.0".to_string()),
        game_versions: Some(vec!["1.21.4".to_string()]),
        changelog: None,
        dependencies: None,
        version_type: Some(kind.to_string()),
        loaders: Some(vec!["fabric".to_string()]),
        featured: None,
        status: Some("listed".to_string()),
        id: "i".to_string(),
        project_id: "P".to_string(),
        author_id: "a".to_string(),
        date_published: "d".to_string(),
        downloads: 5,
        changelog_url: None,
        files: None,
    }
}

// The switch of the `colored` crate is one for the whole process, so the
// painted forms are tested in one place.
#[test]
fn painted_when_colours_are_on() {
    colored::control::set_override(true);
    let release = version("release").format("M");
    let beta = version("beta").format("M");
    let alpha = version("alpha").format("M");
    let other = version("x").format("M");
    let verbose = version("release").format_verbose("M", &vec!["c".to_string()]);
    let nested = version("release").format_verbose("a\u{1b}[0mb\u{1b}[0m", &vec!["\u{1b}[0m".to_string()]);
    let line = github_line(&vec![("source".to_string(), "github".to_string()), ("repo".to_string(), "o/r".to_string())], false)
        .unwrap();
    colored::control::unset_override();
    let link = "\u{1b}]8;;https://modrinth.com/mod/P\u{1b}\\M\u{1b}]8;;\u{1b}\\";
    let bold_link = format!("\u{1b}[1m{link}\u{1b}[0m");
    let rest = |text: &str| -> String { text.splitn(2, '\t').nth(1).unwrap().to_string() };
    assert!(release.starts_with("\u{1b}[32mRELEASE\u{1b}[0m\t"));
    assert!(beta.starts_with("\u{1b}[33mBETA\u{1b}[0m\t"));
    assert!(alpha.starts_with("\u{1b}[31mALPHA\u{1b}[0m\t"));
    assert!(other.starts_with("\u{1b}[36mUNKNOWN\u{1b}[0m\t"));
    assert!(release.ends_with(&format!("\t{bold_link}\n")));
    // The grey of the project id is the colour itself or the nearest that the terminal has.
    let id = rest(&release);
    let id = id.split('\t').next().unwrap().to_string();
    assert!(id.starts_with("\u{1b}[") && id.ends_with("mP\u{1b}[0m"));
    assert!(verbose.starts_with("\u{1b}[1mM\u{1b}[0m \u{1b}["));
    let page = "\u{1b}]8;;https://modrinth.com/mod/P\u{1b}\\https://modrinth.com/mod/P\u{1b}]8;;\u{1b}\\";
    assert!(verbose.contains(&format!("\tURL: \u{1b}[34m{page}\u{1b}[0m\n")));
    assert!(verbose.contains("\tGame versions: \u{1b}[32m1.21.4\u{1b}[0m\n"));
    assert!(verbose.contains("\tLoaders: \u{1b}[36mfabric\u{1b}[0m\n"));
    assert!(verbose.contains("\tCategories: \u{1b}[33mc\u{1b}[0m\n"));
    assert!(verbose.ends_with("\tStatus: listed\n\tDate published: d\n\tDownloads: 5\n\n"));
    assert!(line.starts_with("\u{1b}[33mGITHUB\u{1b}[0m\t"));
    // A style that ends within a text is taken up again behind it.
    assert!(nested.starts_with("\u{1b}[1ma\u{1b}[0m\u{1b}[1mb\u{1b}[0m\u{1b}[1m\u{1b}[0m \u{1b}["));
    assert!(nested.contains("\tCategories: \u{1b}[33m\u{1b}[0m\u{1b}[33m\u{1b}[0m\n"));
}
