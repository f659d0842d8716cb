//! The data model of the fingerprint-addressed provider.

use crate::model::{ErrorKind, Problem};
use crate::text::str_eq;
use crate::ModLoader;
use vstd::prelude::*;

verus! {

/// The answer to a search: the mods found and where the page stands.
#[derive(Debug, Clone)]
pub struct Root {
    pub data: Vec<Mod>,
    pub pagination: Option<Pagination>,
}

/// A mod as the provider describes it.
#[derive(Debug, Clone)]
pub struct Mod {
    pub id: u32,
    pub game_id: u32,
    pub name: String,
    pub slug: String,
    pub links: Links,
    pub summary: String,
    pub status: u32,
    pub download_count: u32,
    pub is_featured: bool,
    pub primary_category_id: u32,
    pub categories: Vec<Category>,
    pub class_id: u32,
    pub authors: Vec<Author>,
    pub logo: Logo,
    pub screenshots: Vec<Screenshot>,
    pub main_file_id: u32,
    pub latest_files: Vec<File>,
    pub latest_files_indexes: Vec<FileIndex>,
    pub latest_early_access_files_indexes: Vec<FileIndex>,
    pub date_created: String,
    pub date_modified: String,
    pub date_released: String,
    pub allow_mod_distribution: bool,
    pub game_popularity_rank: u32,
    pub is_available: bool,
    pub thumbs_up_count: u32,
    pub rating: Option<u32>,
}

/// Where a mod is at home.
#[derive(Debug, Clone)]
pub struct Links {
    pub website_url: Option<String>,
    pub wiki_url: Option<String>,
    pub issues_url: Option<String>,
    pub source_url: Option<String>,
}

/// A category of mods.
#[derive(Debug, Clone)]
pub struct Category {
    pub id: u32,
    pub game_id: u32,
    pub name: String,
    pub slug: String,
    pub url: String,
    pub icon_url: String,
    pub date_modified: String,
    pub is_class: bool,
    pub class_id: u32,
    pub parent_category_id: u32,
    pub display_index: Option<u32>,
}

/// An author of a mod.
#[derive(Debug, Clone)]
pub struct Author {
    pub id: u32,
    pub name: String,
    pub url: String,
}

/// The logo of a mod.
#[derive(Debug, Clone)]
pub struct Logo {
    pub id: u32,
    pub mod_id: u32,
    pub title: String,
    pub description: String,
    pub thumbnail_url: String,
    pub url: String,
}

/// A screenshot of a mod.
#[derive(Debug, Clone)]
pub struct Screenshot {
    pub id: u32,
    pub mod_id: u32,
    pub title: String,
    pub description: String,
    pub thumbnail_url: String,
    pub url: String,
}

/// One file of a mod.
#[derive(Debug, Clone)]
pub struct File {
    pub id: u32,
    pub game_id: u32,
    pub mod_id: u32,
    pub is_available: bool,
    pub display_name: String,
    pub file_name: String,
    pub release_type: u32,
    pub file_status: u32,
    pub hashes: Vec<FileHash>,
    pub file_date: String,
    pub file_length: u64,
    pub download_count: u32,
    pub file_size_on_disk: Option<u64>,
    pub download_url: Option<String>,
    pub game_versions: Vec<String>,
    pub sortable_game_versions: Vec<SortableGameVersion>,
    pub dependencies: Vec<Dependency>,
    pub expose_as_alternative: Option<bool>,
    pub parent_project_file_id: Option<u32>,
    pub alternate_file_id: Option<u32>,
    pub is_server_pack: bool,
    pub server_pack_file_id: Option<u32>,
    pub is_early_access_content: Option<bool>,
    pub early_access_end_date: Option<String>,
    pub file_fingerprint: u64,
    pub modules: Vec<Module>,
}

/// A hash of a file and the algorithm that made it.
#[derive(Debug, Clone)]
pub struct FileHash {
    pub value: String,
    pub algo: u32,
}

/// A game version in the forms the provider sorts by.
#[derive(Debug, Clone)]
pub struct SortableGameVersion {
    pub game_version_name: String,
    pub game_version_padded: String,
    pub game_version: String,
    pub game_version_release_date: String,
    pub game_version_type_id: Option<u32>,
}

/// A mod that a file depends on.
#[derive(Debug, Clone)]
pub struct Dependency {
    pub mod_id: u32,
    pub relation_type: u32,
}

/// A part of a file and its fingerprint.
#[derive(Debug, Clone)]
pub struct Module {
    pub name: String,
    pub fingerprint: u64,
}

/// The newest file of a mod for one game version.
#[derive(Debug, Clone)]
pub struct FileIndex {
    pub game_version: String,
    pub file_id: u32,
    pub filename: String,
    pub release_type: u32,
    pub game_version_type_id: Option<u32>,
    pub mod_loader: Option<u32>,
}

/// Where a page of results stands.
#[derive(Debug, Clone)]
pub struct Pagination {
    pub index: u32,
    pub page_size: u32,
    pub result_count: u32,
    pub total_count: u32,
}

/// What a search asks for.
#[derive(Debug, Clone)]
pub struct ModBuilder {
    pub game_version: String,
    pub search: String,
}

/// The answer to a lookup by fingerprint.
#[derive(Debug, Clone)]
pub struct FingerprintResponse {
    pub is_cache_built: bool,
    pub exact_matches: Vec<ExactMatch>,
    pub exact_fingerprints: Vec<u32>,
    pub partial_matches: Vec<PartialMatch>,
    pub partial_match_fingerprints: Vec<(String, Vec<u32>)>,
    pub installed_fingerprints: Vec<u32>,
    pub unmatched_fingerprints: Vec<u32>,
}

/// A file whose fingerprint is the one asked for.
#[derive(Debug, Clone)]
pub struct ExactMatch {
    pub id: u32,
    pub file: File,
    pub latest_files: Vec<File>,
}

/// A file that shares parts with the one asked for.
#[derive(Debug, Clone)]
pub struct PartialMatch {
    pub id: u32,
    pub file: File,
    pub latest_files: Vec<File>,
}

/// The answer that holds the address of a file.
#[derive(Debug, Clone)]
pub struct DownloadFile {
    pub data: String,
}

/// The answer that holds one file.
#[derive(Debug, Clone)]
pub struct GetModFileResponse {
    pub data: File,
}

/// Why a request to the provider did not give what was asked for.
#[derive(Debug, Clone)]
pub enum CurseForgeError {
    InvalidResponse,
    JsonParsingError(String),
    HttpError(String),
    IoError(String),
    NoGameVersionFound(String),
    NoFingerprintFound(String),
    NoModFound,
    UrlParseError(String),
    UnknownError(String),
}

impl CurseForgeError {
    /// The error in words.
    pub open spec fn message(self) -> Seq<char> {
        match self {
            CurseForgeError::InvalidResponse => "Invalid response from CurseForge"@,
            CurseForgeError::JsonParsingError(e) => "JSON Parsing error: "@ + e@,
            CurseForgeError::HttpError(e) => "HTTP Error: "@ + e@,
            CurseForgeError::IoError(e) => "IO Error: "@ + e@,
            CurseForgeError::NoGameVersionFound(v) => "No game version found for mod "@ + v@,
            CurseForgeError::NoFingerprintFound(f) => "No fingerprint found for mod "@ + f@,
            CurseForgeError::NoModFound => "No mod found"@,
            CurseForgeError::UrlParseError(e) => "URL Parse error: "@ + e@,
            CurseForgeError::UnknownError(e) => "Unknown error: "@ + e@,
        }
    }

    pub fn to_string(&self) -> (r: String)
        ensures
            r@ == self.message(),
    {
        match self {
            CurseForgeError::InvalidResponse => String::from_str("Invalid response from CurseForge"),
            CurseForgeError::JsonParsingError(e) => String::from_str("JSON Parsing error: ").concat(
                e.as_str(),
            ),
            CurseForgeError::HttpError(e) => String::from_str("HTTP Error: ").concat(e.as_str()),
            CurseForgeError::IoError(e) => String::from_str("IO Error: ").concat(e.as_str()),
            CurseForgeError::NoGameVersionFound(v) => String::from_str(
                "No game version found for mod ",
            ).concat(v.as_str()),
            CurseForgeError::NoFingerprintFound(f) => String::from_str(
                "No fingerprint found for mod ",
            ).concat(f.as_str()),
            CurseForgeError::NoModFound => String::from_str("No mod found"),
            CurseForgeError::UrlParseError(e) => String::from_str("URL Parse error: ").concat(
                e.as_str(),
            ),
            CurseForgeError::UnknownError(e) => String::from_str("Unknown error: ").concat(e.as_str()),
        }
    }
}

impl CurseForgeError {
    /// What kind of failure the error is: a fingerprint that the provider
    /// does not know leaves the origin of the file unknown; a provider
    /// without the mod or without a file for the game version is an absence;
    /// a request that failed is the transport's, a file that could not be
    /// written is the file system's, and the rest is an answer that could not
    /// be read.
    pub open spec fn kind_of(self) -> ErrorKind {
        match self {
            CurseForgeError::NoFingerprintFound(_) => ErrorKind::IdentityUnknown,
            CurseForgeError::NoGameVersionFound(_) => ErrorKind::NotFound,
            CurseForgeError::NoModFound => ErrorKind::NotFound,
            CurseForgeError::HttpError(_) => ErrorKind::TransportError,
            CurseForgeError::IoError(_) => ErrorKind::IoError,
            _ => ErrorKind::ParseError,
        }
    }

    pub fn kind(&self) -> (r: ErrorKind)
        ensures
            r == self.kind_of(),
    {
        match self {
            CurseForgeError::NoFingerprintFound(_) => ErrorKind::IdentityUnknown,
            CurseForgeError::NoGameVersionFound(_) => ErrorKind::NotFound,
            CurseForgeError::NoModFound => ErrorKind::NotFound,
            CurseForgeError::HttpError(_) => ErrorKind::TransportError,
            CurseForgeError::IoError(_) => ErrorKind::IoError,
            _ => ErrorKind::ParseError,
        }
    }

    /// The error as the orchestrator is told it.
    pub fn problem(&self) -> (r: Problem)
        ensures
            r@ == (self.kind_of(), self.message()),
    {
        Problem { kind: self.kind(), reason: self.to_string() }
    }
}

impl FileIndex {
    /// A copy of the index.
    pub fn duplicate(&self) -> (r: FileIndex)
        ensures
            r == *self,
    {
        FileIndex {
            game_version: self.game_version.clone(),
            file_id: self.file_id,
            filename: self.filename.clone(),
            release_type: self.release_type,
            game_version_type_id: self.game_version_type_id,
            mod_loader: self.mod_loader,
        }
    }
}

/// Where the first index for `game_version` stands among `indexes`; their
/// number where there is none.
pub open spec fn first_for_version(indexes: Seq<FileIndex>, game_version: Seq<char>) -> int
    decreases indexes.len(),
{
    if indexes.len() == 0 || indexes[0].game_version@ == game_version {
        0
    } else {
        1 + first_for_version(indexes.skip(1), game_version)
    }
}

/// A position with no index for the version before it, that holds one or is the end.
pub proof fn lemma_first_for_version_is(indexes: Seq<FileIndex>, game_version: Seq<char>, i: int)
    requires
        0 <= i <= indexes.len(),
        forall|j: int| 0 <= j < i ==> indexes[j].game_version@ != game_version,
        i < indexes.len() ==> indexes[i].game_version@ == game_version,
    ensures
        first_for_version(indexes, game_version) == i,
    decreases i,
{
    if i > 0 {
        assert(indexes[0].game_version@ != game_version);
        assert forall|j: int| 0 <= j < i - 1 implies indexes.skip(1)[j].game_version@ != game_version by {
            assert(indexes.skip(1)[j] == indexes[j + 1]);
        }
        lemma_first_for_version_is(indexes.skip(1), game_version, i - 1);
    }
}

/// What a mod of this provider can be asked.
pub trait CurseForgeMod {
    /// The newest file for a game version: of the indexes that the provider
    /// lists, the first for that version.
    fn get_version_and_loader(&self, game_version: &str) -> Option<FileIndex>;
}

impl Mod {
    /// Where the newest file for `game_version` stands among the indexes.
    pub fn position_for_version(&self, game_version: &str) -> (r: Option<usize>)
        ensures
            match r {
                Some(i) => i < self.latest_files_indexes@.len() && i == first_for_version(
                    self.latest_files_indexes@,
                    game_version@,
                ),
                None => first_for_version(self.latest_files_indexes@, game_version@)
                    == self.latest_files_indexes@.len(),
            },
    {
        let mut i: usize = 0;
        while i < self.latest_files_indexes.len()
            invariant
                i <= self.latest_files_indexes.len(),
                forall|j: int|
                    0 <= j < i ==> self.latest_files_indexes@[j].game_version@ != game_version@,
            decreases self.latest_files_indexes.len() - i,
        {
            if str_eq(self.latest_files_indexes[i].game_version.as_str(), game_version) {
                proof {
                    lemma_first_for_version_is(self.latest_files_indexes@, game_version@, i as int);
                }
                return Some(i);
            }
            i = i + 1;
        }
        proof {
            lemma_first_for_version_is(
                self.latest_files_indexes@,
                game_version@,
                self.latest_files_indexes@.len() as int,
            );
        }
        None
    }

    /// The name of the mod.
    pub fn to_string(&self) -> (r: String)
        ensures
            r == self.name,
    {
        self.name.clone()
    }
}

impl CurseForgeMod for Mod {
    fn get_version_and_loader(&self, game_version: &str) -> (r: Option<FileIndex>)
        ensures
            match r {
                Some(index) => {
                    let i = first_for_version(self.latest_files_indexes@, game_version@);
                    0 <= i < self.latest_files_indexes@.len() && index == self.latest_files_indexes@[i]
                },
                None => first_for_version(self.latest_files_indexes@, game_version@)
                    == self.latest_files_indexes@.len(),
            },
    {
        match self.position_for_version(game_version) {
            Some(i) => Some(self.latest_files_indexes[i].duplicate()),
            None => None,
        }
    }
}

/// The number by which the provider knows a loader.
pub open spec fn loader_number(loader: ModLoader) -> u8 {
    match loader {
        ModLoader::Forge => 1,
        ModLoader::Cauldron => 2,
        ModLoader::LiteLoader => 3,
        ModLoader::Fabric => 4,
        ModLoader::Quilt => 5,
        ModLoader::NeoForge => 6,
        ModLoader::Any => 0,
    }
}

/// What has a number at this provider.
pub trait AsNum {
    fn as_num(&self) -> u8;
}

impl AsNum for ModLoader {
    fn as_num(&self) -> (n: u8)
        ensures
            n == loader_number(*self),
    {
        match self {
            ModLoader::Forge => 1,
            ModLoader::Cauldron => 2,
            ModLoader::LiteLoader => 3,
            ModLoader::Fabric => 4,
            ModLoader::Quilt => 5,
            ModLoader::NeoForge => 6,
            ModLoader::Any => 0,
        }
    }
}

} // verus!
