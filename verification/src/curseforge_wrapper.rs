//! The fingerprint-addressed provider: its fingerprint, its data model, the
//! addresses of its requests and what is picked from its answers.

pub mod hash;
pub mod structs;

pub use hash::MurmurHash2;
pub use structs::{
    AsNum, Author, Category, CurseForgeError, CurseForgeMod, Dependency, DownloadFile, ExactMatch,
    File, FileHash, FileIndex, FingerprintResponse, GetModFileResponse, Links, Logo, Mod, ModBuilder,
    Module, Pagination, PartialMatch, Root, Screenshot, SortableGameVersion,
};

use crate::cli::Source;
use crate::model::{DependencyRef, ProjectRef, Relation};
use crate::text::{decimal, decimal_of};
use crate::ModLoader;
use structs::{first_for_version, loader_number};
use vstd::prelude::*;
use vstd::slice::slice_to_vec;

verus! {

/// The number of the game at the provider.
pub const GAME_ID: u32 = 432;

/// Where the provider answers.
pub const BASE_URL: &'static str = "https://api.curseforge.com/v1";

/// One mod id or several, as a list.
pub trait AsModIdVec {
    fn as_mod_id_vec(&self) -> Vec<u32>;
}

impl AsModIdVec for &[u32] {
    fn as_mod_id_vec(&self) -> (ids: Vec<u32>)
        ensures
            ids@ == self@,
    {
        slice_to_vec(*self)
    }
}

impl AsModIdVec for u32 {
    fn as_mod_id_vec(&self) -> (ids: Vec<u32>)
        ensures
            ids@ == seq![*self],
    {
        let mut ids: Vec<u32> = Vec::new();
        ids.push(*self);
        ids
    }
}

/// The address of a search.
pub open spec fn search_address(
    game_version: Seq<char>,
    loader: ModLoader,
    search: Seq<char>,
    page_size: u32,
) -> Seq<char> {
    BASE_URL@ + "/mods/search?gameId="@ + decimal_of(GAME_ID as nat) + "&index=0&searchFilter="@
        + search + "&gameVersion="@ + game_version + "&pageSize="@ + decimal_of(page_size as nat)
        + "&sortField=6&gameFlavors[0]="@ + decimal_of(loader_number(loader) as nat)
        + "&sortOrder=desc"@
}

/// The address of the files of a mod for one game version and loader.
pub open spec fn files_address(mod_id: u32, game_version: Seq<char>, loader: ModLoader) -> Seq<char> {
    BASE_URL@ + "/mods/"@ + decimal_of(mod_id as nat) + "/files?index=0&gameVersion="@ + game_version
        + "&pageSize=1&modLoaderType="@ + decimal_of(loader_number(loader) as nat)
}

/// The address that tells where a file is downloaded.
pub open spec fn download_address(mod_id: u32, file_id: u32) -> Seq<char> {
    BASE_URL@ + "/mods/"@ + decimal_of(mod_id as nat) + "/files/"@ + decimal_of(file_id as nat)
        + "/download-url"@
}

/// The address of one file of a mod.
pub open spec fn file_address(mod_id: u32, file_id: u32) -> Seq<char> {
    BASE_URL@ + "/mods/"@ + decimal_of(mod_id as nat) + "/files/"@ + decimal_of(file_id as nat)
}

/// The provider, as far as the library knows it: the key it is asked with.
#[derive(Debug, Clone)]
pub struct CurseForgeAPI {
    pub api_key: String,
}

impl CurseForgeAPI {
    pub fn new(api_key: String) -> (r: Self)
        ensures
            r.api_key == api_key,
    {
        Self { api_key }
    }

    /// The address that `search_mods` asks.
    pub fn search_mods_url(game_version: &str, loader: ModLoader, search: &str, page_size: u32) -> (r:
        String)
        ensures
            r@ == search_address(game_version@, loader, search@, page_size),
    {
        let mut r = String::from_str(BASE_URL);
        r.append("/mods/search?gameId=");
        r.append(decimal(GAME_ID as u64).as_str());
        r.append("&index=0&searchFilter=");
        r.append(search);
        r.append("&gameVersion=");
        r.append(game_version);
        r.append("&pageSize=");
        r.append(decimal(page_size as u64).as_str());
        r.append("&sortField=6&gameFlavors[0]=");
        r.append(decimal(loader.as_num() as u64).as_str());
        r.append("&sortOrder=desc");
        r
    }

    /// The address that `get_mods` posts to.
    pub fn mods_url() -> (r: String)
        ensures
            r@ == BASE_URL@ + "/mods"@,
    {
        String::from_str(BASE_URL).concat("/mods")
    }

    /// The address that `get_mod_files` asks.
    pub fn mod_files_url(mod_id: u32, game_version: &str, loader: ModLoader) -> (r: String)
        ensures
            r@ == files_address(mod_id, game_version@, loader),
    {
        let mut r = String::from_str(BASE_URL);
        r.append("/mods/");
        r.append(decimal(mod_id as u64).as_str());
        r.append("/files?index=0&gameVersion=");
        r.append(game_version);
        r.append("&pageSize=1&modLoaderType=");
        r.append(decimal(loader.as_num() as u64).as_str());
        r
    }

    /// The address that `download_mod` asks first.
    pub fn download_url(mod_id: u32, file_id: u32) -> (r: String)
        ensures
            r@ == download_address(mod_id, file_id),
    {
        let mut r = String::from_str(BASE_URL);
        r.append("/mods/");
        r.append(decimal(mod_id as u64).as_str());
        r.append("/files/");
        r.append(decimal(file_id as u64).as_str());
        r.append("/download-url");
        r
    }

    /// The address of one file, which `get_dependencies` asks.
    pub fn mod_file_url(mod_id: u32, file_id: u32) -> (r: String)
        ensures
            r@ == file_address(mod_id, file_id),
    {
        let mut r = String::from_str(BASE_URL);
        r.append("/mods/");
        r.append(decimal(mod_id as u64).as_str());
        r.append("/files/");
        r.append(decimal(file_id as u64).as_str());
        r
    }

    /// The address that a lookup by fingerprint posts to.
    pub fn fingerprints_url() -> (r: String)
        ensures
            r@ == BASE_URL@ + "/fingerprints/"@ + decimal_of(GAME_ID as nat),
    {
        let mut r = String::from_str(BASE_URL);
        r.append("/fingerprints/");
        r.append(decimal(GAME_ID as u64).as_str());
        r
    }

    /// The fingerprints that the provider is asked for when a file with
    /// these bytes is looked up: the fingerprint of the bytes, and no other.
    pub fn fingerprint_request(contents: &[u8]) -> (r: Vec<u32>)
        ensures
            r@ == seq![hash::fingerprint(contents@)],
    {
        let mut r: Vec<u32> = Vec::new();
        r.push(MurmurHash2::hash(contents));
        r
    }

    /// The file that a lookup by fingerprint found: that of the first exact
    /// match. Without an exact match the file named `file_name` is unknown.
    pub fn get_version_from_file<'a>(response: &'a FingerprintResponse, file_name: &str) -> (r: Result<
        &'a File,
        CurseForgeError,
    >)
        ensures
            match r {
                Ok(file) => response.exact_matches@.len() > 0 && *file == response.exact_matches@[0].file,
                Err(CurseForgeError::NoFingerprintFound(name)) => response.exact_matches@.len() == 0
                    && name@ == file_name@,
                Err(_) => false,
            },
    {
        if response.exact_matches.len() == 0 {
            return Err(CurseForgeError::NoFingerprintFound(String::from_str(file_name)));
        }
        Ok(&response.exact_matches[0].file)
    }

    /// The first of the mods that the provider answered with.
    pub fn first_mod<'a>(mods: &'a Vec<Mod>) -> (r: Result<&'a Mod, CurseForgeError>)
        ensures
            match r {
                Ok(found) => mods@.len() > 0 && *found == mods@[0],
                Err(e) => mods@.len() == 0 && e is NoModFound,
            },
    {
        if mods.len() == 0 {
            return Err(CurseForgeError::NoModFound);
        }
        Ok(&mods[0])
    }

    /// The newest file of a mod for a game version, which `get_dependencies`
    /// reads the dependencies from.
    pub fn file_for_version<'a>(found: &'a Mod, version: &str) -> (r: Result<
        &'a FileIndex,
        CurseForgeError,
    >)
        ensures
            match r {
                Ok(index) => {
                    let i = first_for_version(found.latest_files_indexes@, version@);
                    0 <= i < found.latest_files_indexes@.len() && *index
                        == found.latest_files_indexes@[i]
                },
                Err(CurseForgeError::NoGameVersionFound(v)) => first_for_version(
                    found.latest_files_indexes@,
                    version@,
                ) == found.latest_files_indexes@.len() && v@ == version@,
                Err(_) => false,
            },
    {
        match found.position_for_version(version) {
            Some(i) => Ok(&found.latest_files_indexes[i]),
            None => Err(CurseForgeError::NoGameVersionFound(String::from_str(version))),
        }
    }

    /// The mods that a file depends on, in the order in which it lists them.
    pub fn get_dependencies(file: &File) -> (ids: Vec<u32>)
        ensures
            ids@.len() == file.dependencies@.len(),
            forall|i: int| 0 <= i < ids@.len() ==> ids@[i] == file.dependencies@[i].mod_id,
    {
        let mut ids: Vec<u32> = Vec::new();
        let mut i: usize = 0;
        while i < file.dependencies.len()
            invariant
                i <= file.dependencies.len(),
                ids@.len() == i,
                forall|j: int| 0 <= j < i ==> ids@[j] == file.dependencies@[j].mod_id,
            decreases file.dependencies.len() - i,
        {
            ids.push(file.dependencies[i].mod_id);
            i = i + 1;
        }
        ids
    }
}

/// How the provider's number for a relation reads.
pub open spec fn relation_of(relation_type: u32) -> Relation {
    if relation_type == 1 {
        Relation::Embedded
    } else if relation_type == 2 {
        Relation::Optional
    } else if relation_type == 3 {
        Relation::Required
    } else if relation_type == 5 {
        Relation::Incompatible
    } else {
        Relation::Other
    }
}

impl Dependency {
    /// The dependency as the engine takes it: the project is the mod, by its number.
    pub fn to_ref(&self) -> (r: DependencyRef)
        ensures
            r.target@ == (Source::CurseForge, decimal_of(self.mod_id as nat)),
            r.relation == relation_of(self.relation_type),
    {
        let relation = if self.relation_type == 1 {
            Relation::Embedded
        } else if self.relation_type == 2 {
            Relation::Optional
        } else if self.relation_type == 3 {
            Relation::Required
        } else if self.relation_type == 5 {
            Relation::Incompatible
        } else {
            Relation::Other
        };
        DependencyRef {
            target: ProjectRef { source: Source::CurseForge, project_id: decimal(self.mod_id as u64) },
            relation,
        }
    }
}

} // verus!
