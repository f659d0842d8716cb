//! The content-addressed provider: its data model, the addresses of its
//! requests and what is picked from its answers.

use crate::cli::Source;
use crate::model::{
    dependency_keys, DependencyRef, ErrorKind, FileRef, Problem, ProjectRef, Relation,
    VersionDescriptor,
};
use crate::paint::{blue, bold, cyan, green, red, styled, tinted, truecolor, yellow};
use crate::text::{
    clone_strings, decimal, decimal_of, join, joined, str_eq, string_views, to_uppercase, uppercase,
};
use crate::{Link, ModLoader};
use vstd::prelude::*;

verus! {

/// One version of a project.
#[derive(Debug, Clone)]
pub struct VersionData {
    pub name: Option<String>,
    pub version_number: Option<String>,
    pub game_versions: Option<Vec<String>>,
    pub changelog: Option<String>,
    pub dependencies: Option<Vec<Dependency>>,
    pub version_type: Option<String>,
    pub loaders: Option<Vec<String>>,
    pub featured: Option<bool>,
    pub status: Option<String>,
    pub id: String,
    pub project_id: String,
    pub author_id: String,
    pub date_published: String,
    pub downloads: u32,
    pub changelog_url: Option<String>,
    pub files: Option<Vec<File>>,
}

/// A project or version that a version depends on.
#[derive(Debug, Clone, PartialEq, Eq)]
pub struct Dependency {
    pub version_id: Option<String>,
    pub project_id: Option<String>,
    pub file_name: Option<String>,
    pub dependency_type: Option<String>,
}

/// One file of a version.
#[derive(Debug, Clone)]
pub struct File {
    pub hashes: FileHash,
    pub url: String,
    pub filename: String,
    pub primary: bool,
    pub size: u32,
    pub file_type: Option<String>,
}

/// The hashes of a file.
#[derive(Debug, Clone)]
pub struct FileHash {
    pub sha512: String,
    pub sha1: String,
}

/// A project as the provider describes it.
#[derive(Debug, Clone)]
pub struct GetProject {
    pub id: String,
    pub slug: String,
    pub project_type: String,
    pub team: String,
    pub title: String,
    pub description: String,
    pub categories: Vec<String>,
    pub additional_categories: Vec<String>,
    pub client_side: String,
    pub server_side: String,
    pub body: String,
    pub status: String,
    pub requested_status: Option<String>,
    pub issues_url: Option<String>,
    pub source_url: Option<String>,
    pub wiki_url: Option<String>,
    pub discord_url: Option<String>,
    pub donation_urls: Vec<DonationLink>,
    pub icon_url: Option<String>,
    pub color: Option<u32>,
    pub thread_id: String,
    pub monetization_status: Option<String>,
    pub body_url: Option<String>,
    pub moderator_message: Option<ModeratorMessage>,
    pub published: String,
    pub updated: String,
    pub approved: Option<String>,
    pub queued: Option<String>,
    pub downloads: u32,
    pub followers: u32,
    pub license: License,
    pub versions: Vec<String>,
    pub game_versions: Vec<String>,
    pub loaders: Vec<String>,
    pub gallery: Vec<GalleryImage>,
}

/// What a moderator said of a project.
#[derive(Debug, Clone)]
pub struct ModeratorMessage {
    pub message: String,
    pub body: Option<String>,
}

/// The license of a project.
#[derive(Debug, Clone)]
pub struct License {
    pub id: String,
    pub name: String,
    pub url: Option<String>,
}

/// Where a project takes donations.
#[derive(Debug, Clone)]
pub struct DonationLink {
    pub id: String,
    pub platform: String,
    pub url: String,
}

/// An image of the gallery of a project.
#[derive(Debug, Clone)]
pub struct GalleryImage {
    pub url: String,
    pub featured: bool,
    pub title: Option<String>,
    pub description: Option<String>,
    pub created: String,
    pub ordering: Option<i32>,
}

/// A project as a search finds it.
#[derive(Debug, Clone)]
pub struct Project {
    pub slug: String,
    pub title: String,
    pub description: String,
    pub categories: Vec<String>,
    pub client_side: SupportLevel,
    pub server_side: SupportLevel,
    pub project_type: ProjectType,
    pub downloads: u64,
    pub icon_url: Option<String>,
    pub color: Option<u32>,
    pub thread_id: Option<String>,
    pub monetization_status: Option<MonetizationStatus>,
    pub project_id: String,
    pub author: String,
    pub display_categories: Vec<String>,
    pub versions: Vec<String>,
    pub follows: u64,
    pub date_created: String,
    pub date_modified: String,
    pub latest_version: Option<String>,
    pub license: String,
    pub gallery: Vec<String>,
    pub featured_gallery: Option<String>,
}

/// Whether a side of the game is supported.
#[derive(Debug, Clone, Copy, PartialEq, Eq, Structural)]
pub enum SupportLevel {
    Required,
    Optional,
    Unsupported,
    Unknown,
}

/// What kind of project it is.
#[derive(Debug, Clone, Copy, PartialEq, Eq, Structural)]
pub enum ProjectType {
    Mod,
    Modpack,
    Resourcepack,
    Shader,
}

/// Whether a project earns money.
#[derive(Debug, Clone, Copy, PartialEq, Eq, Structural)]
pub enum MonetizationStatus {
    Monetized,
    Demonetized,
    ForceDemonetized,
}

/// One page of a search.
#[derive(Debug, Clone)]
pub struct ProjectSearch {
    pub hits: Vec<Project>,
    pub offset: u16,
    pub limit: u16,
    pub total_hits: u16,
}

/// A mod by its slug and title.
#[derive(Debug, Clone, PartialEq, Eq, Hash)]
pub struct Mod {
    pub slug: String,
    pub title: String,
}

/// Why a request to the provider did not give what was asked for.
#[derive(Debug, Clone)]
pub enum Error {
    RequestErr(String),
    SerdeErr(String),
    NoVersionsFound(String),
    MetadataErr(String),
    UnknownError(String),
    GithubError(String),
    IoError(String),
}

impl Error {
    /// The error in words.
    pub open spec fn message(self) -> Seq<char> {
        match self {
            Error::RequestErr(e) =>
                "Error sending the request. This may mean that the request was malformed: "@ + e@,
            Error::SerdeErr(e) => "Error deserializing the response: "@ + e@,
            Error::NoVersionsFound(name) => "No versions found for mod "@ + name@,
            Error::MetadataErr(e) => "Metadata error: "@ + e@,
            Error::UnknownError(e) => "Unknown error: "@ + e@,
            Error::GithubError(e) => "Error getting mod from github: "@ + e@,
            Error::IoError(e) => "Error writing file: "@ + e@,
        }
    }

    pub fn to_string(&self) -> (r: String)
        ensures
            r@ == self.message(),
    {
        match self {
            Error::RequestErr(e) => String::from_str(
                "Error sending the request. This may mean that the request was malformed: ",
            ).concat(e.as_str()),
            Error::SerdeErr(e) => String::from_str("Error deserializing the response: ").concat(
                e.as_str(),
            ),
            Error::NoVersionsFound(name) => String::from_str("No versions found for mod ").concat(
                name.as_str(),
            ),
            Error::MetadataErr(e) => String::from_str("Metadata error: ").concat(e.as_str()),
            Error::UnknownError(e) => String::from_str("Unknown error: ").concat(e.as_str()),
            Error::GithubError(e) => String::from_str("Error getting mod from github: ").concat(
                e.as_str(),
            ),
            Error::IoError(e) => String::from_str("Error writing file: ").concat(e.as_str()),
        }
    }
}

impl Error {
    /// What kind of failure the error is: a provider without a version is an
    /// absence, a request that failed is the transport's, a file that could
    /// not be written is the file system's, and the rest is an answer that
    /// could not be read.
    pub open spec fn kind_of(self) -> ErrorKind {
        match self {
            Error::NoVersionsFound(_) => ErrorKind::NotFound,
            Error::RequestErr(_) => ErrorKind::TransportError,
            Error::IoError(_) => ErrorKind::IoError,
            _ => ErrorKind::ParseError,
        }
    }

    pub fn kind(&self) -> (r: ErrorKind)
        ensures
            r == self.kind_of(),
    {
        match self {
            Error::NoVersionsFound(_) => ErrorKind::NotFound,
            Error::RequestErr(_) => ErrorKind::TransportError,
            Error::IoError(_) => ErrorKind::IoError,
            _ => ErrorKind::ParseError,
        }
    }

    /// The error as the orchestrator is told it.
    pub fn problem(&self) -> (r: Problem)
        ensures
            r@ == (self.kind_of(), self.message()),
    {
        Problem { kind: self.kind(), reason: self.to_string() }
    }
}

impl GetProject {
    pub fn get_title(&self) -> (r: String)
        ensures
            r == self.title,
    {
        self.title.clone()
    }

    pub fn get_categories(&self) -> (r: Vec<String>)
        ensures
            r@ == self.categories@,
    {
        clone_strings(&self.categories)
    }

    pub fn get_slug(&self) -> (r: String)
        ensures
            r == self.slug,
    {
        self.slug.clone()
    }
}

/// The text of an optional string: nothing where there is none.
pub open spec fn text_of(value: Option<String>) -> Seq<char> {
    match value {
        Some(s) => s@,
        None => Seq::empty(),
    }
}

/// The items of an optional list: none where there is no list.
pub open spec fn items_of(value: Option<Vec<String>>) -> Seq<Seq<char>> {
    match value {
        Some(v) => string_views(v@),
        None => Seq::empty(),
    }
}

/// The text of an optional string.
pub fn text_or_empty(value: &Option<String>) -> (r: String)
    ensures
        r@ == text_of(*value),
{
    match value {
        Some(s) => s.clone(),
        None => String::new(),
    }
}

/// The items of an optional list, with `, ` between them.
pub fn items_or_none(value: &Option<Vec<String>>) -> (r: String)
    ensures
        r@ == joined(items_of(*value), ", "@, items_of(*value).len()),
{
    match value {
        Some(v) => join(v.as_slice(), ", "),
        None => String::new(),
    }
}

/// Where a project is shown.
pub open spec fn project_page(project_id: Seq<char>) -> Seq<char> {
    "https://modrinth.com/mod/"@ + project_id
}

/// The word that says what kind of version it is.
pub open spec fn version_label(version_type: Seq<char>) -> Seq<char> {
    let upper = uppercase(version_type);
    if upper == "RELEASE"@ {
        "RELEASE"@
    } else if upper == "BETA"@ {
        "BETA"@
    } else if upper == "ALPHA"@ {
        "ALPHA"@
    } else {
        "UNKNOWN"@
    }
}

/// The style in which that word is shown: green for a release, yellow for a
/// beta, red for an alpha, cyan for anything else.
pub open spec fn version_style(version_type: Seq<char>) -> Seq<char> {
    let upper = uppercase(version_type);
    if upper == "RELEASE"@ {
        seq!['3', '2']
    } else if upper == "BETA"@ {
        seq!['3', '3']
    } else if upper == "ALPHA"@ {
        seq!['3', '1']
    } else {
        seq!['3', '6']
    }
}

/// The word of the kind of a version, padded to one width, as lists show it.
pub open spec fn version_column(version_type: Seq<char>) -> Seq<char> {
    let upper = uppercase(version_type);
    if upper == "RELEASE"@ {
        "RELEASE"@
    } else if upper == "BETA"@ {
        "BETA   "@
    } else if upper == "ALPHA"@ {
        "ALPHA  "@
    } else if upper == "GITHUB"@ {
        "GITHUB "@
    } else {
        "UNKNOWN"@
    }
}

/// The word of the kind of a version, padded to one width.
pub fn version_type_text(version_type: &str) -> (r: String)
    ensures
        r@ == version_column(version_type@),
{
    let upper = to_uppercase(version_type);
    if str_eq(upper.as_str(), "RELEASE") {
        String::from_str("RELEASE")
    } else if str_eq(upper.as_str(), "BETA") {
        String::from_str("BETA   ")
    } else if str_eq(upper.as_str(), "ALPHA") {
        String::from_str("ALPHA  ")
    } else if str_eq(upper.as_str(), "GITHUB") {
        String::from_str("GITHUB ")
    } else {
        String::from_str("UNKNOWN")
    }
}

/// The painted parts of the long description of a version.
#[derive(Debug, Clone)]
pub struct VerbosePaint {
    pub name: String,
    pub version: String,
    pub link: String,
    pub game_versions: String,
    pub loaders: String,
    pub categories: String,
}

/// The painted parts of the short description of a version.
#[derive(Debug, Clone)]
pub struct LinePaint {
    pub label: String,
    pub project_id: String,
    pub link: String,
}

impl VersionData {
    /// The long description of a version, given its painted parts.
    pub open spec fn verbose_text(self, paint: VerbosePaint) -> Seq<char> {
        paint.name@ + " "@ + paint.version@ + "\n"@ + "\tURL: "@ + paint.link@ + "\n"@
            + "\tMod version: "@ + text_of(self.name) + "\n"@ + "\tGame versions: "@
            + paint.game_versions@ + "\n"@ + "\tLoaders: "@ + paint.loaders@ + "\n"@
            + "\tCategories: "@ + paint.categories@ + "\n"@ + "\tStatus: "@ + text_of(self.status)
            + "\n"@ + "\tDate published: "@ + self.date_published@ + "\n"@ + "\tDownloads: "@
            + decimal_of(self.downloads as nat) + "\n\n"@
    }

    /// How the parts of the long description are painted: the name of the mod
    /// bold, the version grey, the link blue, the game versions green, the
    /// loaders cyan and the categories yellow.
    pub open spec fn verbose_paint(
        self,
        paint: VerbosePaint,
        mod_name: Seq<char>,
        categories: Seq<Seq<char>>,
    ) -> bool {
        let page = project_page(self.project_id@);
        let link = Link::shown(page, page);
        let games = joined(items_of(self.game_versions), ", "@, items_of(self.game_versions).len());
        let loaders = joined(items_of(self.loaders), ", "@, items_of(self.loaders).len());
        let cats = joined(categories, ", "@, categories.len());
        &&& styled(paint.name@, seq!['1'], mod_name)
        &&& tinted(
            paint.version@,
            text_of(self.version_number),
        )
        &&& styled(paint.link@, seq!['3', '4'], link)
        &&& styled(paint.game_versions@, seq!['3', '2'], games)
        &&& styled(paint.loaders@, seq!['3', '6'], loaders)
        &&& styled(paint.categories@, seq!['3', '3'], cats)
    }

    /// The short description of a version, given its painted parts.
    pub open spec fn line_text(paint: LinePaint) -> Seq<char> {
        paint.label@ + "\t"@ + paint.project_id@ + "\t"@ + paint.link@ + "\n"@
    }

    /// How the parts of the short description are painted: the kind of the
    /// version in its colour, the project id grey, the link bold.
    pub open spec fn line_paint(self, paint: LinePaint, mod_name: Seq<char>) -> bool {
        let link = Link::shown(mod_name, project_page(self.project_id@));
        let kind = text_of(self.version_type);
        &&& styled(
            paint.label@,
            version_style(kind),
            version_label(kind),
        )
        &&& tinted(paint.project_id@, self.project_id@)
        &&& styled(paint.link@, seq!['1'], link)
    }

    /// The address of the page of the project.
    pub fn page_url(&self) -> (r: String)
        ensures
            r@ == project_page(self.project_id@),
    {
        String::from_str("https://modrinth.com/mod/").concat(self.project_id.as_str())
    }

    /// The long description of a version, put together from its painted parts.
    pub fn lay_out_verbose(&self, paint: &VerbosePaint) -> (r: String)
        ensures
            r@ == self.verbose_text(*paint),
    {
        let mut r = paint.name.clone();
        r.append(" ");
        r.append(paint.version.as_str());
        r.append("\n");
        r.append("\tURL: ");
        r.append(paint.link.as_str());
        r.append("\n");
        r.append("\tMod version: ");
        r.append(text_or_empty(&self.name).as_str());
        r.append("\n");
        r.append("\tGame versions: ");
        r.append(paint.game_versions.as_str());
        r.append("\n");
        r.append("\tLoaders: ");
        r.append(paint.loaders.as_str());
        r.append("\n");
        r.append("\tCategories: ");
        r.append(paint.categories.as_str());
        r.append("\n");
        r.append("\tStatus: ");
        r.append(text_or_empty(&self.status).as_str());
        r.append("\n");
        r.append("\tDate published: ");
        r.append(self.date_published.as_str());
        r.append("\n");
        r.append("\tDownloads: ");
        r.append(decimal(self.downloads as u64).as_str());
        r.append("\n\n");
        r
    }

    /// The short description of a version, put together from its painted parts.
    pub fn lay_out_line(paint: &LinePaint) -> (r: String)
        ensures
            r@ == VersionData::line_text(*paint),
    {
        let mut r = paint.label.clone();
        r.append("\t");
        r.append(paint.project_id.as_str());
        r.append("\t");
        r.append(paint.link.as_str());
        r.append("\n");
        r
    }

    /// The long description of a version of the mod `mod_name`: its parts are
    /// painted, then laid out.
    pub fn format_verbose(&self, mod_name: &str, categories: &[String]) -> (r: String)
        ensures
            exists|paint: VerbosePaint|
                r@ == self.verbose_text(paint) && self.verbose_paint(
                    paint,
                    mod_name@,
                    string_views(categories@),
                ),
    {
        let url = self.page_url();
        let link = Link::new(url.clone(), url);
        let paint = VerbosePaint {
            name: bold(mod_name),
            version: truecolor(text_or_empty(&self.version_number).as_str(), 128, 128, 128),
            link: blue(link.to_string().as_str()),
            game_versions: green(items_or_none(&self.game_versions).as_str()),
            loaders: cyan(items_or_none(&self.loaders).as_str()),
            categories: yellow(join(categories, ", ").as_str()),
        };
        let r = self.lay_out_verbose(&paint);
        assert(self.verbose_paint(paint, mod_name@, string_views(categories@)));
        r
    }

    /// The short description of a version of the mod `mod_name`.
    pub fn format(&self, mod_name: &str) -> (r: String)
        ensures
            exists|paint: LinePaint|
                r@ == VersionData::line_text(paint) && self.line_paint(paint, mod_name@),
    {
        let url = self.page_url();
        let link = Link::new(String::from_str(mod_name), url);
        let kind = text_or_empty(&self.version_type);
        let upper = to_uppercase(kind.as_str());
        let label = if str_eq(upper.as_str(), "RELEASE") {
            green("RELEASE")
        } else if str_eq(upper.as_str(), "BETA") {
            yellow("BETA")
        } else if str_eq(upper.as_str(), "ALPHA") {
            red("ALPHA")
        } else {
            cyan("UNKNOWN")
        };
        let paint = LinePaint {
            label,
            project_id: truecolor(self.project_id.as_str(), 128, 128, 128),
            link: bold(link.to_string().as_str()),
        };
        let r = VersionData::lay_out_line(&paint);
        assert(self.line_paint(paint, mod_name@));
        r
    }

    pub fn get_game_versions(&self) -> (r: Option<Vec<String>>)
        ensures
            match r {
                Some(versions) => self.game_versions matches Some(own) && versions@ == own@,
                None => self.game_versions is None,
            },
    {
        match &self.game_versions {
            Some(versions) => Some(clone_strings(versions)),
            None => None,
        }
    }

    pub fn get_version(&self) -> (r: String)
        ensures
            r@ == text_of(self.version_number),
    {
        text_or_empty(&self.version_number)
    }

    pub fn get_version_type(&self) -> (r: String)
        ensures
            r@ == text_of(self.version_type),
    {
        text_or_empty(&self.version_type)
    }

    /// The file that is downloaded for a version: the first it lists.
    pub fn primary_file(&self) -> (r: Option<&File>)
        ensures
            match r {
                Some(file) => self.files matches Some(files) && files@.len() > 0 && *file == files@[0],
                None => match self.files {
                    Some(files) => files@.len() == 0,
                    None => true,
                },
            },
    {
        match &self.files {
            Some(files) => if files.len() > 0 {
                Some(&files[0])
            } else {
                None
            },
            None => None,
        }
    }
}

/// The provider itself: its functions stand on this type.
pub struct Modrinth;

/// The name by which the provider knows a loader.
pub open spec fn loader_name(loader: ModLoader) -> Seq<char> {
    match loader {
        ModLoader::Forge => "forge"@,
        ModLoader::Fabric => "fabric"@,
        ModLoader::Quilt => "quilt"@,
        ModLoader::NeoForge => "neoforge"@,
        ModLoader::Cauldron => "cauldron"@,
        ModLoader::LiteLoader => "liteloader"@,
        ModLoader::Any => "any"@,
    }
}

/// The address that lists the versions of a project for one game version and loader.
pub open spec fn versions_address(project: Seq<char>, game_version: Seq<char>, loader: ModLoader) -> Seq<
    char,
> {
    "https://api.modrinth.com/v2/project/"@ + project + "/version?game_versions=[\""@ + game_version
        + "\"]&loaders=[\""@ + loader_name(loader) + "\"]"@
}

/// The address of a search.
pub open spec fn search_address(query: Seq<char>, limit: u16, offset: u16) -> Seq<char> {
    "https://api.modrinth.com/v2/search?query="@ + query + "&limit="@ + decimal_of(limit as nat)
        + "&index=relevance&facets=%5B%5B%22project_type%3Amod%22%5D%5D&offset="@ + decimal_of(
        offset as nat,
    )
}

/// The pages that fetch the `limit` most downloaded mods: full pages of a
/// hundred first, then what is left; each page is its size and where it starts.
pub open spec fn top_pages(limit: u16) -> Seq<(u16, u16)> {
    let full = Seq::new((limit / 100) as nat, |i: int| (100u16, (i * 100) as u16));
    if limit % 100 != 0 {
        full.push(((limit % 100) as u16, ((limit / 100) * 100) as u16))
    } else {
        full
    }
}

impl Modrinth {
    /// The name by which the provider knows a loader.
    pub fn loader_name(loader: ModLoader) -> (r: String)
        ensures
            r@ == loader_name(loader),
    {
        match loader {
            ModLoader::Forge => String::from_str("forge"),
            ModLoader::Fabric => String::from_str("fabric"),
            ModLoader::Quilt => String::from_str("quilt"),
            ModLoader::NeoForge => String::from_str("neoforge"),
            ModLoader::Cauldron => String::from_str("cauldron"),
            ModLoader::LiteLoader => String::from_str("liteloader"),
            ModLoader::Any => String::from_str("any"),
        }
    }

    /// The address that `get_version` asks.
    pub fn versions_url(project: &str, game_version: &str, loader: ModLoader) -> (r: String)
        ensures
            r@ == versions_address(project@, game_version@, loader),
    {
        let mut r = String::from_str("https://api.modrinth.com/v2/project/");
        r.append(project);
        r.append("/version?game_versions=[\"");
        r.append(game_version);
        r.append("\"]&loaders=[\"");
        r.append(Modrinth::loader_name(loader).as_str());
        r.append("\"]");
        r
    }

    /// The address that `search_mods` asks.
    pub fn search_url(query: &str, limit: u16, offset: u16) -> (r: String)
        ensures
            r@ == search_address(query@, limit, offset),
    {
        let mut r = String::from_str("https://api.modrinth.com/v2/search?query=");
        r.append(query);
        r.append("&limit=");
        r.append(decimal(limit as u64).as_str());
        r.append("&index=relevance&facets=%5B%5B%22project_type%3Amod%22%5D%5D&offset=");
        r.append(decimal(offset as u64).as_str());
        r
    }

    /// The address of a project.
    pub fn project_url(id: &str) -> (r: String)
        ensures
            r@ == "https://api.modrinth.com/v2/project/"@ + id@,
    {
        String::from_str("https://api.modrinth.com/v2/project/").concat(id)
    }

    /// The address that tells which version a file with that hash is.
    pub fn version_file_url(hash: &str) -> (r: String)
        ensures
            r@ == "https://api.modrinth.com/v2/version_file/"@ + hash@,
    {
        String::from_str("https://api.modrinth.com/v2/version_file/").concat(hash)
    }

    /// The version that is taken of those that the provider lists for a game
    /// version and a loader: the first, as the provider ranks them.
    pub fn get_version<'a>(versions: &'a Vec<VersionData>) -> (r: Option<&'a VersionData>)
        ensures
            match r {
                Some(version) => versions@.len() > 0 && *version == versions@[0],
                None => versions@.len() == 0,
            },
    {
        if versions.len() == 0 {
            None
        } else {
            Some(&versions[0])
        }
    }

    /// The pages that `get_top_mods` fetches for the `limit` most downloaded mods.
    pub fn get_top_mods(limit: u16) -> (pages: Vec<(u16, u16)>)
        ensures
            pages@ == top_pages(limit),
    {
        let mut pages: Vec<(u16, u16)> = Vec::new();
        let full: u16 = limit / 100;
        let mut i: u16 = 0;
        while i < full
            invariant
                i <= full,
                full == limit / 100,
                pages@ == Seq::new(i as nat, |k: int| (100u16, (k * 100) as u16)),
            decreases full - i,
        {
            pages.push((100, i * 100));
            i = i + 1;
            assert(pages@ =~= Seq::new(i as nat, |k: int| (100u16, (k * 100) as u16)));
        }
        if limit % 100 != 0 {
            pages.push((limit % 100, full * 100));
        }
        assert(pages@ =~= top_pages(limit));
        pages
    }

    /// The loader for which a mod is updated: the one asked for; else the
    /// first that the installed version names, read as the provider writes
    /// it; the default loader where the version names no list at all. A
    /// version with an empty list of loaders has none.
    pub open spec fn update_loader(asked: Option<ModLoader>, installed: VersionData) -> Option<
        ModLoader,
    > {
        match asked {
            Some(loader) => Some(loader),
            None => match installed.loaders {
                Some(names) => if names@.len() > 0 {
                    Some(ModLoader::known_as(names@[0]@))
                } else {
                    None
                },
                None => Some(ModLoader::Fabric),
            },
        }
    }

    /// The loader for which a mod is updated, or the error of a version
    /// that names an empty list of loaders.
    pub fn loader_for_update(asked: Option<ModLoader>, installed: &VersionData) -> (r: Result<
        ModLoader,
        Error,
    >)
        ensures
            match r {
                Ok(loader) => Modrinth::update_loader(asked, *installed) == Some(loader),
                Err(Error::UnknownError(reason)) => Modrinth::update_loader(asked, *installed) is None
                    && reason@ == "No loader found"@,
                Err(_) => false,
            },
    {
        match asked {
            Some(loader) => Ok(loader),
            None => match &installed.loaders {
                Some(names) => if names.len() > 0 {
                    Ok(ModLoader::from_provider_name(names[0].as_str()))
                } else {
                    Err(Error::UnknownError(String::from_str("No loader found")))
                },
                None => {
                    proof {
                        reveal_strlit("fabric");
                    }
                    Ok(ModLoader::Fabric)
                },
            },
        }
    }
}

/// What is downloaded when a mod is updated: the first file of the version
/// that the provider has for the new game version. Without such a version
/// the mod at `filename` has none.
pub fn update_from_file<'a>(found: Option<&'a VersionData>, filename: &str) -> (r: Result<
    Option<&'a File>,
    Error,
>)
    ensures
        match r {
            Ok(file) => found matches Some(version) && match file {
                Some(f) => version.files matches Some(files) && files@.len() > 0 && *f == files@[0],
                None => match version.files {
                    Some(files) => files@.len() == 0,
                    None => true,
                },
            },
            Err(Error::NoVersionsFound(name)) => found is None && name@ == filename@,
            Err(_) => false,
        },
{
    match found {
        Some(version) => Ok(version.primary_file()),
        None => Err(Error::NoVersionsFound(String::from_str(filename))),
    }
}

/// Where a downloaded file is saved.
pub fn download_file(file: &File, prefix: &str) -> (r: String)
    ensures
        r@ == crate::address::saved_at(prefix@, file.filename@),
{
    crate::address::destination(prefix, file.filename.as_str())
}

impl Project {
    /// The title of the project.
    pub fn to_string(&self) -> (r: String)
        ensures
            r == self.title,
    {
        self.title.clone()
    }
}

/// The mods that are offered beside the most downloaded ones, by slug and title.
pub open spec fn curated() -> Seq<(Seq<char>, Seq<char>)> {
    seq![
        ("anti-xray"@, "Anti Xray"@),
        ("appleskin"@, "Apple Skin"@),
        ("carpet-extra"@, "Carpet Extra"@),
        ("easyauth"@, "Easy Auth"@),
        ("essential-commands"@, "Essential Commands"@),
        ("fabric-carpet"@, "Fabric Carpet"@),
        ("geyser"@, "Geyser"@),
        ("origins"@, "Origins"@),
        ("skinrestorer"@, "Skin Restorer"@),
        ("status"@, "Status"@),
    ]
}

impl View for Mod {
    type V = (Seq<char>, Seq<char>);

    open spec fn view(&self) -> (Seq<char>, Seq<char>) {
        (self.slug@, self.title@)
    }
}

/// The views of the mods, in order.
pub open spec fn mod_views(mods: Seq<Mod>) -> Seq<(Seq<char>, Seq<char>)> {
    mods.map_values(|m: Mod| m@)
}

/// The first `n` of `all`, each once: a mod that came before is left out.
pub open spec fn unique(all: Seq<(Seq<char>, Seq<char>)>, n: nat) -> Seq<(Seq<char>, Seq<char>)>
    decreases n,
{
    if n == 0 {
        Seq::empty()
    } else {
        let before = unique(all, (n - 1) as nat);
        if before.contains(all[n - 1]) {
            before
        } else {
            before.push(all[n - 1])
        }
    }
}

/// What is kept holds no mod twice, and holds every mod that was there.
pub proof fn lemma_unique(all: Seq<(Seq<char>, Seq<char>)>, n: nat)
    requires
        n <= all.len(),
    ensures
        unique(all, n).no_duplicates(),
        forall|i: int| 0 <= i < n ==> unique(all, n).contains(all[i]),
        forall|m: (Seq<char>, Seq<char>)| unique(all, n).contains(m) ==> all.contains(m),
    decreases n,
{
    if n > 0 {
        lemma_unique(all, (n - 1) as nat);
        let before = unique(all, (n - 1) as nat);
        let now = unique(all, n);
        let last = all[n - 1];
        if before.contains(last) {
            assert forall|i: int| 0 <= i < n implies now.contains(all[i]) by {}
        } else {
            assert(now[before.len() as int] == last);
            assert forall|i: int, j: int| 0 <= i < now.len() && 0 <= j < now.len() && i != j implies now[i]
                != now[j] by {
                if i < before.len() && j < before.len() {
                } else if i < before.len() {
                    assert(before.contains(before[i]));
                } else {
                    assert(before.contains(before[j]));
                }
            }
            assert forall|i: int| 0 <= i < n implies now.contains(all[i]) by {
                if i < n - 1 {
                    let k = choose|k: int| 0 <= k < before.len() && before[k] == all[i];
                    assert(now[k] == all[i]);
                }
            }
            assert forall|m: (Seq<char>, Seq<char>)| now.contains(m) implies all.contains(m) by {
                let k = choose|k: int| 0 <= k < now.len() && now[k] == m;
                if k < before.len() {
                    assert(before.contains(m));
                }
            }
        }
    }
}

impl Mod {
    /// The mods that are offered beside the most downloaded ones.
    pub fn extras() -> (r: Vec<Mod>)
        ensures
            mod_views(r@) == curated(),
    {
        let mut r: Vec<Mod> = Vec::new();
        r.push(Mod { slug: String::from_str("anti-xray"), title: String::from_str("Anti Xray") });
        r.push(Mod { slug: String::from_str("appleskin"), title: String::from_str("Apple Skin") });
        r.push(
            Mod { slug: String::from_str("carpet-extra"), title: String::from_str("Carpet Extra") },
        );
        r.push(Mod { slug: String::from_str("easyauth"), title: String::from_str("Easy Auth") });
        r.push(
            Mod {
                slug: String::from_str("essential-commands"),
                title: String::from_str("Essential Commands"),
            },
        );
        r.push(
            Mod { slug: String::from_str("fabric-carpet"), title: String::from_str("Fabric Carpet") },
        );
        r.push(Mod { slug: String::from_str("geyser"), title: String::from_str("Geyser") });
        r.push(Mod { slug: String::from_str("origins"), title: String::from_str("Origins") });
        r.push(
            Mod { slug: String::from_str("skinrestorer"), title: String::from_str("Skin Restorer") },
        );
        r.push(Mod { slug: String::from_str("status"), title: String::from_str("Status") });
        assert(mod_views(r@) =~= curated());
        r
    }

    /// Whether the two are one mod: same slug, same title.
    pub fn same(&self, other: &Mod) -> (r: bool)
        ensures
            r == (self@ == other@),
    {
        str_eq(self.slug.as_str(), other.slug.as_str()) && str_eq(
            self.title.as_str(),
            other.title.as_str(),
        )
    }

    /// The mods of `all`, each once, in the order in which they first come.
    pub fn unique(all: Vec<Mod>) -> (r: Vec<Mod>)
        ensures
            mod_views(r@) == unique(mod_views(all@), all@.len()),
            mod_views(r@).no_duplicates(),
    {
        let ghost views = mod_views(all@);
        let mut r: Vec<Mod> = Vec::new();
        proof {
            assert(mod_views(r@) =~= Seq::empty());
        }
        for m in it: all
            invariant
                it.seq() == all@,
                views == mod_views(all@),
                mod_views(r@) == unique(views, it.index() as nat),
        {
            let mut known = false;
            let mut k: usize = 0;
            while k < r.len() && !known
                invariant
                    k <= r.len(),
                    known ==> mod_views(r@).contains(m@),
                    !known ==> forall|j: int| 0 <= j < k ==> mod_views(r@)[j] != m@,
                decreases r.len() - k + if known { 0int } else { 1int },
            {
                if r[k].same(&m) {
                    assert(mod_views(r@)[k as int] == m@);
                    known = true;
                } else {
                    k = k + 1;
                }
            }
            let ghost before = mod_views(r@);
            assert(views[it.index() as int] == m@);
            if !known {
                r.push(m);
                proof {
                    assert(mod_views(r@) =~= before.push(m@));
                }
            }
        }
        proof {
            lemma_unique(views, all@.len());
        }
        r
    }

    /// The mod that a project is.
    pub fn from(project: Project) -> (r: Mod)
        ensures
            r.slug == project.slug,
            r.title == project.title,
    {
        Mod { slug: project.slug, title: project.title }
    }

    /// The title of the mod.
    pub fn to_string(&self) -> (r: String)
        ensures
            r == self.title,
    {
        self.title.clone()
    }
}

/// The projects that the first `n` dependencies name, in order: a
/// dependency that names no project is passed over.
pub open spec fn named_projects(deps: Seq<Dependency>, n: nat) -> Seq<(Source, Seq<char>)>
    decreases n,
{
    if n == 0 {
        Seq::empty()
    } else {
        let before = named_projects(deps, (n - 1) as nat);
        match deps[n - 1].project_id {
            Some(id) => before.push((Source::Modrinth, id@)),
            None => before,
        }
    }
}

/// The dependencies of an optional list: none where there is no list.
pub open spec fn dependencies_of(value: Option<Vec<Dependency>>) -> Seq<Dependency> {
    match value {
        Some(v) => v@,
        None => Seq::empty(),
    }
}

/// The files of an optional list: none where there is no list.
pub open spec fn files_of(value: Option<Vec<File>>) -> Seq<File> {
    match value {
        Some(v) => v@,
        None => Seq::empty(),
    }
}

impl File {
    /// The file as the engine takes it: its address, its name and its content hash.
    pub fn to_ref(&self) -> (r: FileRef)
        ensures
            r.url == self.url,
            r.filename == self.filename,
            r.hash == self.hashes.sha512,
    {
        FileRef {
            url: self.url.clone(),
            filename: self.filename.clone(),
            hash: self.hashes.sha512.clone(),
        }
    }
}

impl VersionData {
    /// The dependencies of the version that name a project, in order.
    pub fn dependency_refs(&self) -> (r: Vec<DependencyRef>)
        ensures
            dependency_keys(r@) == named_projects(
                dependencies_of(self.dependencies),
                dependencies_of(self.dependencies).len(),
            ),
    {
        let mut r: Vec<DependencyRef> = Vec::new();
        proof {
            assert(dependency_keys(r@) =~= Seq::empty());
        }
        match &self.dependencies {
            Some(deps) => {
                let mut i: usize = 0;
                while i < deps.len()
                    invariant
                        i <= deps.len(),
                        dependency_keys(r@) == named_projects(deps@, i as nat),
                    decreases deps.len() - i,
                {
                    let ghost before = dependency_keys(r@);
                    match deps[i].to_ref() {
                        Some(dep) => {
                            r.push(dep);
                            proof {
                                assert(dependency_keys(r@) =~= before.push(dep.target@));
                            }
                        },
                        None => {},
                    }
                    i = i + 1;
                }
            },
            None => {},
        }
        r
    }

    /// The version as the engine takes it.
    pub fn to_descriptor(&self) -> (r: VersionDescriptor)
        ensures
            r.source == Source::Modrinth,
            r.project_id == self.project_id,
            r.version_id == self.id,
            string_views(r.game_versions@) == items_of(self.game_versions),
            string_views(r.loaders@) == items_of(self.loaders),
            r.files@.len() == files_of(self.files).len(),
            forall|i: int|
                0 <= i < r.files@.len() ==> (#[trigger] r.files@[i]).url == files_of(self.files)[i].url
                    && r.files@[i].filename == files_of(self.files)[i].filename && r.files@[i].hash
                    == files_of(self.files)[i].hashes.sha512,
            dependency_keys(r.dependencies@) == named_projects(
                dependencies_of(self.dependencies),
                dependencies_of(self.dependencies).len(),
            ),
    {
        let game_versions = match &self.game_versions {
            Some(v) => clone_strings(v),
            None => Vec::new(),
        };
        let loaders = match &self.loaders {
            Some(v) => clone_strings(v),
            None => Vec::new(),
        };
        let mut files: Vec<FileRef> = Vec::new();
        match &self.files {
            Some(own) => {
                let mut i: usize = 0;
                while i < own.len()
                    invariant
                        i <= own.len(),
                        files@.len() == i,
                        forall|j: int|
                            0 <= j < i ==> (#[trigger] files@[j]).url == own@[j].url
                                && files@[j].filename == own@[j].filename && files@[j].hash
                                == own@[j].hashes.sha512,
                    decreases own.len() - i,
                {
                    files.push(own[i].to_ref());
                    i = i + 1;
                }
            },
            None => {},
        }
        proof {
            assert(string_views(Seq::<String>::empty()) =~= Seq::<Seq<char>>::empty());
        }
        VersionDescriptor {
            source: Source::Modrinth,
            project_id: self.project_id.clone(),
            version_id: self.id.clone(),
            game_versions,
            loaders,
            files,
            dependencies: self.dependency_refs(),
        }
    }
}

/// How the provider's word for a relation reads.
pub open spec fn relation_of(kind: Option<String>) -> Relation {
    match kind {
        Some(word) => if word@ == "required"@ {
            Relation::Required
        } else if word@ == "optional"@ {
            Relation::Optional
        } else if word@ == "embedded"@ {
            Relation::Embedded
        } else if word@ == "incompatible"@ {
            Relation::Incompatible
        } else {
            Relation::Other
        },
        None => Relation::Other,
    }
}

impl Dependency {
    /// The dependency as the engine takes it; `None` for one that names no project.
    pub fn to_ref(&self) -> (r: Option<DependencyRef>)
        ensures
            match r {
                Some(dep) => self.project_id matches Some(id) && dep.target@ == (Source::Modrinth, id@)
                    && dep.relation == relation_of(self.dependency_type),
                None => self.project_id is None,
            },
    {
        let relation = match &self.dependency_type {
            Some(word) => if str_eq(word.as_str(), "required") {
                Relation::Required
            } else if str_eq(word.as_str(), "optional") {
                Relation::Optional
            } else if str_eq(word.as_str(), "embedded") {
                Relation::Embedded
            } else if str_eq(word.as_str(), "incompatible") {
                Relation::Incompatible
            } else {
                Relation::Other
            },
            None => Relation::Other,
        };
        match &self.project_id {
            Some(id) => Some(
                DependencyRef {
                    target: ProjectRef { source: Source::Modrinth, project_id: id.clone() },
                    relation,
                },
            ),
            None => None,
        }
    }
}

} // verus!
