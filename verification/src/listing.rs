//! What a directory of mods is shown as: which files count as mods, what is
//! known of each, and the lines of the list.

use crate::cli::Source;
use crate::metadata::{last_value, pair_views, Metadata};
use crate::modrinth_wrapper::modrinth::{items_of, text_of, GetProject, VersionData};
use crate::paint::{bold, styled, tinted, truecolor, yellow};
use crate::text::{
    from_chars, join, joined, split, split_on, str_eq, string_views, to_chars, views,
};
use crate::toggle::{file_name, file_name_of, is_disabled, path_is_disabled};
use crate::Link;
use vstd::prelude::*;

verus! {

/// The extension of a file name: what follows its last dot. A name without
/// a dot has none, nor has a name whose only dot is its first character.
pub open spec fn extension(name: Seq<char>) -> Option<Seq<char>> {
    let pieces = split_on(name, '.');
    if pieces.len() < 2 || (pieces.len() == 2 && pieces[0].len() == 0) {
        None
    } else {
        Some(pieces.last())
    }
}

/// Whether a path names a mod that can be updated: an archive in use.
pub open spec fn is_mod(path: Seq<char>) -> bool {
    extension(file_name(path)) == Some("jar"@)
}

/// Whether a path names a mod, enabled or disabled.
pub open spec fn is_listed(path: Seq<char>) -> bool {
    extension(file_name(path)) == Some("jar"@) || extension(file_name(path)) == Some("disabled"@)
}

/// The extension of a file name.
pub fn extension_of(name: &str) -> (r: Option<String>)
    ensures
        match r {
            Some(ext) => extension(name@) == Some(ext@),
            None => extension(name@) is None,
        },
{
    let chars = to_chars(name);
    let pieces = split(chars.as_slice(), '.');
    proof {
        assert(views(pieces@).len() == pieces@.len());
    }
    if pieces.len() < 2 {
        return None;
    }
    proof {
        assert(views(pieces@)[0] == pieces@[0]@);
        assert(views(pieces@).last() == pieces@.last()@);
    }
    if pieces.len() == 2 && pieces[0].len() == 0 {
        return None;
    }
    Some(from_chars(pieces[pieces.len() - 1].as_slice()))
}

/// Whether the file at `path` is a mod that can be updated.
pub fn path_is_mod(path: &str) -> (r: bool)
    ensures
        r == is_mod(path@),
{
    let name = file_name_of(path);
    match extension_of(name.as_str()) {
        Some(ext) => str_eq(ext.as_str(), "jar"),
        None => false,
    }
}

/// Whether the file at `path` is a mod, enabled or disabled.
pub fn path_is_listed(path: &str) -> (r: bool)
    ensures
        r == is_listed(path@),
{
    let name = file_name_of(path);
    match extension_of(name.as_str()) {
        Some(ext) => str_eq(ext.as_str(), "jar") || str_eq(ext.as_str(), "disabled"),
        None => false,
    }
}

/// The mods among the first `n` of `paths`, enabled or disabled, in order.
pub open spec fn listed_of(paths: Seq<Seq<char>>, n: nat) -> Seq<Seq<char>>
    decreases n,
{
    if n == 0 {
        Seq::empty()
    } else if is_listed(paths[n - 1]) {
        listed_of(paths, (n - 1) as nat).push(paths[n - 1])
    } else {
        listed_of(paths, (n - 1) as nat)
    }
}

/// The entries of a directory that are mods, enabled or disabled: the
/// others are neither listed nor renamed.
pub fn listed_paths(paths: &Vec<String>) -> (r: Vec<String>)
    ensures
        string_views(r@) == listed_of(string_views(paths@), paths@.len()),
{
    let mut r: Vec<String> = Vec::new();
    let mut i: usize = 0;
    proof {
        assert(string_views(r@) =~= Seq::empty());
    }
    while i < paths.len()
        invariant
            i <= paths.len(),
            string_views(r@) == listed_of(string_views(paths@), i as nat),
        decreases paths.len() - i,
    {
        let ghost before = string_views(r@);
        assert(string_views(paths@)[i as int] == paths@[i as int]@);
        if path_is_listed(paths[i].as_str()) {
            let path = paths[i].clone();
            r.push(path);
            proof {
                assert(string_views(r@) =~= before.push(paths@[i as int]@));
            }
        }
        i = i + 1;
    }
    r
}

/// The text in which columns that tabs part are aligned, as the `tabwriter`
/// crate lays it out; `None` where it gives none.
pub uninterp spec fn tab_aligned(text: Seq<char>) -> Option<Seq<char>>;

/// `tabwriter::TabWriter` over a buffer in memory: the text is written to
/// it, and what it has laid out is taken from it with `into_inner`.
#[verifier::external_body]
pub(crate) fn tabulate(text: &str) -> (r: Option<String>)
    ensures
        match r {
            Some(laid_out) => tab_aligned(text@) == Some(laid_out@),
            None => tab_aligned(text@) is None,
        },
{
    let mut writer = tabwriter::TabWriter::new(Vec::new());
    std::io::Write::write_all(&mut writer, text.as_bytes()).ok()?;
    String::from_utf8(writer.into_inner().ok()?).ok()
}

/// The first match of a pattern in a text, as the `regex` crate finds it;
/// `None` where the pattern is none or matches nowhere.
pub uninterp spec fn first_match(pattern: Seq<char>, text: Seq<char>) -> Option<Seq<char>>;

/// `regex::Regex::new`, then `Regex::find`.
#[verifier::external_body]
pub(crate) fn regex_find(pattern: &str, text: &str) -> (r: Option<String>)
    ensures
        match r {
            Some(found) => first_match(pattern@, text@) == Some(found@),
            None => first_match(pattern@, text@) is None,
        },
{
    let compiled = regex::Regex::new(pattern).ok()?;
    compiled.find(text).map(|found| found.as_str().to_string())
}

/// The pattern of a game version: two or three numbers with dots between
/// them, and `-pre` or `-rc` with a number where they follow.
pub open spec fn version_pattern() -> Seq<char> {
    "\\b\\d+\\.\\d+(?:\\.\\d+)?(?:-(?:pre|rc)\\d+)?\\b"@
}

/// The game version that a text carries: the first match of the pattern.
pub open spec fn version_in(text: Seq<char>) -> Option<Seq<char>> {
    first_match(version_pattern(), text)
}

/// The game version that `text` carries.
pub fn find_version(text: &str) -> (r: Option<String>)
    ensures
        match r {
            Some(found) => version_in(text@) == Some(found@),
            None => version_in(text@) is None,
        },
{
    regex_find("\\b\\d+\\.\\d+(?:\\.\\d+)?(?:-(?:pre|rc)\\d+)?\\b", text)
}

/// The texts that are there, one after the other: a missing one adds nothing.
pub open spec fn gathered(lines: Seq<Option<String>>, n: nat) -> Seq<char>
    decreases n,
{
    if n == 0 {
        Seq::empty()
    } else {
        gathered(lines, (n - 1) as nat) + text_of(lines[n - 1])
    }
}

/// The list of a directory: the lines of its mods, in order, with their columns aligned.
pub fn render(lines: &Vec<Option<String>>) -> (r: Option<String>)
    ensures
        match r {
            Some(list) => tab_aligned(gathered(lines@, lines@.len())) == Some(list@),
            None => tab_aligned(gathered(lines@, lines@.len())) is None,
        },
{
    let mut text = String::new();
    let mut i: usize = 0;
    while i < lines.len()
        invariant
            i <= lines.len(),
            text@ == gathered(lines@, i as nat),
        decreases lines.len() - i,
    {
        match &lines[i] {
            Some(line) => {
                text.append(line.as_str());
            },
            None => {
                assert(text@ + Seq::<char>::empty() =~= text@);
            },
        }
        i = i + 1;
    }
    tabulate(text.as_str())
}

/// What is known of one mod of a directory.
#[derive(Debug, Clone)]
pub struct ModEntry {
    pub name: String,
    pub source: Source,
    pub project_id: String,
    pub version: String,
    pub game_version: Option<String>,
    pub category: Option<String>,
    pub version_type: String,
    pub enabled: bool,
    pub path: String,
}

/// The last component of a repository reference.
pub open spec fn repo_name(repo: Seq<char>) -> Seq<char> {
    split_on(repo, '/').last()
}

/// The page of a repository at the release host.
pub open spec fn repo_page(repo: Seq<char>) -> Seq<char> {
    "https://github.com/"@ + repo
}

/// The repository that the provenance of a mod names, where it names a
/// provider at all.
pub open spec fn tagged_repo(pairs: Seq<(Seq<char>, Seq<char>)>) -> Option<Seq<char>> {
    match last_value(pairs, "source"@, pairs.len()) {
        Some(source) => if source.len() == 0 {
            None
        } else {
            last_value(pairs, "repo"@, pairs.len())
        },
        None => None,
    }
}

/// The last component of a repository reference.
pub fn repo_name_of(repo: &str) -> (r: String)
    ensures
        r@ == repo_name(repo@),
{
    file_name_of(repo)
}

/// The repository that the provenance of a mod names.
pub fn tagged_repo_of(pairs: &Vec<(String, String)>) -> (r: Option<String>)
    ensures
        match r {
            Some(repo) => tagged_repo(pair_views(pairs@)) == Some(repo@),
            None => tagged_repo(pair_views(pairs@)) is None,
        },
{
    match Metadata::lookup(pairs, "source") {
        Some(source) => {
            if source.as_str().unicode_len() == 0 {
                None
            } else {
                Metadata::lookup(pairs, "repo")
            }
        },
        None => None,
    }
}

impl ModEntry {
    /// The entry of a mod that the content-addressed provider knows.
    pub fn from_modrinth(version: &VersionData, project: &GetProject, path: &str) -> (r: ModEntry)
        ensures
            r.name == project.title,
            r.source == Source::Modrinth,
            r.project_id == version.project_id,
            r.version@ == text_of(version.version_number),
            r.game_version matches Some(games) && games@ == joined(
                items_of(version.game_versions),
                ", "@,
                items_of(version.game_versions).len(),
            ),
            r.category matches Some(cats) && cats@ == joined(
                string_views(project.categories@),
                ", "@,
                project.categories@.len(),
            ),
            r.version_type@ == text_of(version.version_type),
            r.enabled == !is_disabled(path@),
            r.path@ == path@,
    {
        let games = match &version.game_versions {
            Some(v) => join(v.as_slice(), ", "),
            None => String::new(),
        };
        ModEntry {
            name: project.get_title(),
            source: Source::Modrinth,
            project_id: version.project_id.clone(),
            version: version.get_version(),
            game_version: Some(games),
            category: Some(join(project.categories.as_slice(), ", ")),
            version_type: version.get_version_type(),
            enabled: !path_is_disabled(path),
            path: String::from_str(path),
        }
    }

    /// The entry of a mod whose provenance names a repository of the release
    /// host; `None` where it names none. The version is the game version
    /// that the path carries, where it carries one.
    pub fn from_github(pairs: &Vec<(String, String)>, path: &str) -> (r: Option<ModEntry>)
        ensures
            match r {
                Some(entry) => {
                    &&& tagged_repo(pair_views(pairs@)) == Some(entry.project_id@)
                    &&& entry.name@ == repo_name(entry.project_id@)
                    &&& entry.source == Source::Github
                    &&& entry.version@ == match version_in(path@) {
                        Some(v) => v,
                        None => Seq::empty(),
                    }
                    &&& entry.game_version is None
                    &&& entry.category is None
                    &&& entry.version_type@ == "GITHUB"@
                    &&& entry.enabled == !is_disabled(path@)
                    &&& entry.path@ == path@
                },
                None => tagged_repo(pair_views(pairs@)) is None,
            },
    {
        let repo = match tagged_repo_of(pairs) {
            Some(repo) => repo,
            None => {
                return None;
            },
        };
        let version = match find_version(path) {
            Some(v) => v,
            None => String::new(),
        };
        Some(
            ModEntry {
                name: repo_name_of(repo.as_str()),
                source: Source::Github,
                project_id: repo,
                version,
                game_version: None,
                category: None,
                version_type: String::from_str("GITHUB"),
                enabled: !path_is_disabled(path),
                path: String::from_str(path),
            },
        )
    }
}

/// The painted parts of the line of a mod from the release host.
#[derive(Debug, Clone)]
pub struct RepoPaint {
    pub label: String,
    pub repo: String,
    pub link: String,
}

/// The line of a mod from the release host, given its painted parts: two
/// spaces between them in the long form, a tab in the short one.
pub open spec fn repo_line(paint: RepoPaint, verbose: bool) -> Seq<char> {
    if verbose {
        paint.label@ + "  "@ + paint.repo@ + "  "@ + paint.link@
    } else {
        paint.label@ + "\t"@ + paint.repo@ + "\t"@ + paint.link@
    }
}

/// How the parts of that line are painted: the word yellow, the repository
/// grey, the link bold.
pub open spec fn repo_paint(paint: RepoPaint, repo: Seq<char>) -> bool {
    let link = Link::shown(repo_name(repo), repo_page(repo));
    &&& styled(paint.label@, seq!['3', '3'], "GITHUB"@)
    &&& tinted(paint.repo@, repo)
    &&& styled(paint.link@, seq!['1'], link)
}

/// The line of a mod from the release host, put together from its painted parts.
pub fn lay_out_repo(paint: &RepoPaint, verbose: bool) -> (r: String)
    ensures
        r@ == repo_line(*paint, verbose),
{
    let mut r = paint.label.clone();
    if verbose {
        r.append("  ");
        r.append(paint.repo.as_str());
        r.append("  ");
    } else {
        r.append("\t");
        r.append(paint.repo.as_str());
        r.append("\t");
    }
    r.append(paint.link.as_str());
    r
}

/// The line of the list for a mod whose provenance names a repository of
/// the release host; `None` where it names none.
pub fn github_line(pairs: &Vec<(String, String)>, verbose: bool) -> (r: Option<String>)
    ensures
        match r {
            Some(line) => tagged_repo(pair_views(pairs@)) matches Some(repo) && exists|paint: RepoPaint|
                line@ == repo_line(paint, verbose) && repo_paint(paint, repo),
            None => tagged_repo(pair_views(pairs@)) is None,
        },
{
    let repo = match tagged_repo_of(pairs) {
        Some(repo) => repo,
        None => {
            return None;
        },
    };
    let name = repo_name_of(repo.as_str());
    let page = String::from_str("https://github.com/").concat(repo.as_str());
    let link = Link::new(name, page);
    let paint = RepoPaint {
        label: yellow("GITHUB"),
        repo: truecolor(repo.as_str(), 128, 128, 128),
        link: bold(link.to_string().as_str()),
    };
    let line = lay_out_repo(&paint, verbose);
    assert(repo_paint(paint, repo@));
    Some(line)
}

} // verus!
