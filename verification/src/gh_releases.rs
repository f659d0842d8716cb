//! The release host: the addresses of its requests and what is picked from
//! its answers.

pub mod structs;

pub use structs::{AssetState, ReactionRollup, Release, ReleaseAsset, User};

use crate::text::{
    from_chars, holds_word, occurs, split, split_on, str_contains, str_contains_word, to_chars, trim,
    trimmed, views,
};
use crate::model::{ErrorKind, Problem};
use crate::UrlBuilder;
use vstd::prelude::*;

verus! {

/// Where the host answers.
pub const GH_RELEASES_API: &'static str = "https://api.github.com/repos";

/// Why a request to the host did not give what was asked for.
#[derive(Debug, Clone)]
pub enum Error {
    Reqwest(String),
    Serde(String),
    NoReleases,
    AuthFailed(String),
    ModNotFound,
    WriteFileErr(String),
}

impl Error {
    /// The error in words.
    pub open spec fn message(self) -> Seq<char> {
        match self {
            Error::Reqwest(e) =>
                "Error sending the request. This may mean that the request was malformed: "@ + e@,
            Error::Serde(e) => "Error deserializing the response: "@ + e@,
            Error::NoReleases => "No releases found"@,
            Error::AuthFailed(e) => "Authorization failed: "@ + e@,
            Error::ModNotFound => "Mod not found for the particular game version or loader"@,
            Error::WriteFileErr(e) => "Error writing the mod to a file: "@ + e@,
        }
    }

    pub fn to_string(&self) -> (r: String)
        ensures
            r@ == self.message(),
    {
        match self {
            Error::Reqwest(e) => String::from_str(
                "Error sending the request. This may mean that the request was malformed: ",
            ).concat(e.as_str()),
            Error::Serde(e) => String::from_str("Error deserializing the response: ").concat(
                e.as_str(),
            ),
            Error::NoReleases => String::from_str("No releases found"),
            Error::AuthFailed(e) => String::from_str("Authorization failed: ").concat(e.as_str()),
            Error::ModNotFound => String::from_str(
                "Mod not found for the particular game version or loader",
            ),
            Error::WriteFileErr(e) => String::from_str("Error writing the mod to a file: ").concat(
                e.as_str(),
            ),
        }
    }
}

impl Error {
    /// What kind of failure the error is: a host without releases or
    /// without a fitting file is an absence, a request that failed or was
    /// refused is the transport's, a file that could not be written is the
    /// file system's, and an answer that could not be read is a parse error.
    pub open spec fn kind_of(self) -> ErrorKind {
        match self {
            Error::NoReleases => ErrorKind::NotFound,
            Error::ModNotFound => ErrorKind::NotFound,
            Error::Reqwest(_) => ErrorKind::TransportError,
            Error::AuthFailed(_) => ErrorKind::TransportError,
            Error::Serde(_) => ErrorKind::ParseError,
            Error::WriteFileErr(_) => ErrorKind::IoError,
        }
    }

    pub fn kind(&self) -> (r: ErrorKind)
        ensures
            r == self.kind_of(),
    {
        match self {
            Error::NoReleases => ErrorKind::NotFound,
            Error::ModNotFound => ErrorKind::NotFound,
            Error::Reqwest(_) => ErrorKind::TransportError,
            Error::AuthFailed(_) => ErrorKind::TransportError,
            Error::Serde(_) => ErrorKind::ParseError,
            Error::WriteFileErr(_) => ErrorKind::IoError,
        }
    }

    /// The error as the orchestrator is told it.
    pub fn problem(&self) -> (r: Problem)
        ensures
            r@ == (self.kind_of(), self.message()),
    {
        Problem { kind: self.kind(), reason: self.to_string() }
    }
}

/// The host, as far as the library knows it: the token it is asked with.
#[derive(Debug, Clone)]
pub struct GHReleasesAPI {
    pub token: Option<String>,
}

impl Default for GHReleasesAPI {
    fn default() -> (r: Self)
        ensures
            r.token is None,
    {
        GHReleasesAPI { token: None }
    }
}

/// The address of the releases of a repository.
pub open spec fn releases_address(owner: Seq<char>, repo: Seq<char>) -> Seq<char> {
    GH_RELEASES_API@ + seq!['/'] + owner + seq!['/'] + repo + "/releases"@
}

/// Whether an asset is for that loader and that game version. The host
/// tells neither, so the name of the asset is read: it has to hold the loader
/// as a word of its own, whatever the case, and the game version.
pub open spec fn fits(asset: ReleaseAsset, loader: Seq<char>, version: Seq<char>) -> bool {
    holds_word(asset.name@, loader) && occurs(asset.name@, version)
}

/// Where the first asset that fits stands among `assets`; their number
/// where none fits.
pub open spec fn first_fitting(assets: Seq<ReleaseAsset>, loader: Seq<char>, version: Seq<char>) -> int
    decreases assets.len(),
{
    if assets.len() == 0 || fits(assets[0], loader, version) {
        0
    } else {
        1 + first_fitting(assets.skip(1), loader, version)
    }
}

/// Whether a release has an asset that fits.
pub open spec fn serves(release: Release, loader: Seq<char>, version: Seq<char>) -> bool {
    first_fitting(release.assets@, loader, version) < release.assets@.len()
}

/// Where the first release with an asset that fits stands among `releases`;
/// their number where none has.
pub open spec fn first_serving(releases: Seq<Release>, loader: Seq<char>, version: Seq<char>) -> int
    decreases releases.len(),
{
    if releases.len() == 0 || serves(releases[0], loader, version) {
        0
    } else {
        1 + first_serving(releases.skip(1), loader, version)
    }
}

/// A position with no fitting asset before it, that holds one or is the end.
pub proof fn lemma_first_fitting_is(
    assets: Seq<ReleaseAsset>,
    loader: Seq<char>,
    version: Seq<char>,
    i: int,
)
    requires
        0 <= i <= assets.len(),
        forall|j: int| 0 <= j < i ==> !fits(assets[j], loader, version),
        i < assets.len() ==> fits(assets[i], loader, version),
    ensures
        first_fitting(assets, loader, version) == i,
    decreases i,
{
    if i > 0 {
        assert(!fits(assets[0], loader, version));
        assert forall|j: int| 0 <= j < i - 1 implies !fits(assets.skip(1)[j], loader, version) by {
            assert(assets.skip(1)[j] == assets[j + 1]);
        }
        lemma_first_fitting_is(assets.skip(1), loader, version, i - 1);
    }
}

/// A position with no serving release before it, that holds one or is the end.
pub proof fn lemma_first_serving_is(
    releases: Seq<Release>,
    loader: Seq<char>,
    version: Seq<char>,
    i: int,
)
    requires
        0 <= i <= releases.len(),
        forall|j: int| 0 <= j < i ==> !serves(releases[j], loader, version),
        i < releases.len() ==> serves(releases[i], loader, version),
    ensures
        first_serving(releases, loader, version) == i,
    decreases i,
{
    if i > 0 {
        assert(!serves(releases[0], loader, version));
        assert forall|j: int| 0 <= j < i - 1 implies !serves(releases.skip(1)[j], loader, version) by {
            assert(releases.skip(1)[j] == releases[j + 1]);
        }
        lemma_first_serving_is(releases.skip(1), loader, version, i - 1);
    }
}

/// The owner and the repository that a reference of the form
/// owner/repository names: the owner without whitespace around it, the
/// repository as it stands between the first and the second slash.
pub open spec fn repo_parts(reference: Seq<char>) -> Option<(Seq<char>, Seq<char>)> {
    let pieces = split_on(reference, '/');
    if pieces.len() >= 2 {
        Some((trimmed(pieces[0]), pieces[1]))
    } else {
        None
    }
}

impl GHReleasesAPI {
    pub fn new() -> (r: Self)
        ensures
            r.token is None,
    {
        Self { token: None }
    }

    /// Sets the token that requests are authorised with.
    pub fn token(&mut self, token: String)
        ensures
            final(self).token == Some(token),
    {
        self.token = Some(token);
    }

    /// The address that `get_releases` asks.
    pub fn releases_url(owner: &str, repo: &str) -> (r: String)
        ensures
            r@ == releases_address(owner@, repo@),
    {
        let mut path = String::new();
        path.push('/');
        path.append(owner);
        path.push('/');
        path.append(repo);
        path.append("/releases");
        let url = UrlBuilder::new(GH_RELEASES_API, path.as_str());
        let r = url.to_string();
        proof {
            assert(r@ =~= releases_address(owner@, repo@));
        }
        r
    }

    /// What the request says of who asks: the token behind the word `Bearer`.
    pub fn authorization(&self) -> (r: Option<String>)
        ensures
            match r {
                Some(value) => self.token matches Some(token) && value@ == "Bearer "@ + token@,
                None => self.token is None,
            },
    {
        match &self.token {
            Some(token) => Some(String::from_str("Bearer ").concat(token.as_str())),
            None => None,
        }
    }

    /// The error that a refused request is: a failed authorisation for the
    /// status 401 or 403, a failed request for any other.
    pub fn refused(status: u16, message: String) -> (e: Error)
        ensures
            e == if status == 401 || status == 403 {
                Error::AuthFailed(message)
            } else {
                Error::Reqwest(message)
            },
    {
        if status == 401 || status == 403 {
            Error::AuthFailed(message)
        } else {
            Error::Reqwest(message)
        }
    }

    /// The releases that the host answered with; an answer without releases
    /// is an error.
    pub fn get_releases(releases: Vec<Release>) -> (r: Result<Vec<Release>, Error>)
        ensures
            match r {
                Ok(found) => releases@.len() > 0 && found == releases,
                Err(e) => releases@.len() == 0 && e is NoReleases,
            },
    {
        if releases.len() == 0 {
            return Err(Error::NoReleases);
        }
        Ok(releases)
    }

    /// The owner and the repository of a reference.
    pub fn split_repo(reference: &str) -> (r: Option<(String, String)>)
        ensures
            match r {
                Some((owner, repo)) => repo_parts(reference@) == Some((owner@, repo@)),
                None => repo_parts(reference@) is None,
            },
    {
        let chars = to_chars(reference);
        let pieces = split(chars.as_slice(), '/');
        proof {
            assert(views(pieces@).len() == pieces@.len());
        }
        if pieces.len() >= 2 {
            proof {
                assert(views(pieces@)[0] == pieces@[0]@);
                assert(views(pieces@)[1] == pieces@[1]@);
            }
            let owner = trim(pieces[0].as_slice());
            Some((from_chars(owner.as_slice()), from_chars(pieces[1].as_slice())))
        } else {
            None
        }
    }
}

/// Whether `asset` is for that loader and that game version.
pub fn asset_fits(asset: &ReleaseAsset, loader: &str, version: &str) -> (r: bool)
    ensures
        r == fits(*asset, loader@, version@),
{
    str_contains_word(asset.name.as_str(), loader) && str_contains(asset.name.as_str(), version)
}

/// The first asset of a release that fits.
pub fn fitting_asset<'a>(release: &'a Release, loader: &str, version: &str) -> (r: Option<
    &'a ReleaseAsset,
>)
    ensures
        match r {
            Some(asset) => serves(*release, loader@, version@) && *asset == release.assets@[first_fitting(
                release.assets@,
                loader@,
                version@,
            )],
            None => !serves(*release, loader@, version@),
        },
{
    let mut i: usize = 0;
    while i < release.assets.len()
        invariant
            i <= release.assets.len(),
            forall|j: int| 0 <= j < i ==> !fits(release.assets@[j], loader@, version@),
        decreases release.assets.len() - i,
    {
        if asset_fits(&release.assets[i], loader, version) {
            proof {
                lemma_first_fitting_is(release.assets@, loader@, version@, i as int);
            }
            return Some(&release.assets[i]);
        }
        i = i + 1;
    }
    proof {
        lemma_first_fitting_is(release.assets@, loader@, version@, release.assets@.len() as int);
    }
    None
}

/// The file of a mod for a loader and a game version: of the releases, in
/// the order in which the host lists them, the first that has an asset that
/// fits, and of its assets the first such.
pub fn get_mod_from_release<'a>(releases: &'a [Release], loader: &str, version: &str) -> (r: Result<
    &'a ReleaseAsset,
    Error,
>)
    ensures
        match r {
            Ok(asset) => {
                let i = first_serving(releases@, loader@, version@);
                &&& 0 <= i < releases@.len()
                &&& *asset == releases@[i].assets@[first_fitting(
                    releases@[i].assets@,
                    loader@,
                    version@,
                )]
            },
            Err(e) => e is ModNotFound && first_serving(releases@, loader@, version@)
                == releases@.len(),
        },
{
    let mut i: usize = 0;
    while i < releases.len()
        invariant
            i <= releases.len(),
            forall|j: int| 0 <= j < i ==> !serves(releases@[j], loader@, version@),
        decreases releases.len() - i,
    {
        match fitting_asset(&releases[i], loader, version) {
            Some(asset) => {
                proof {
                    lemma_first_serving_is(releases@, loader@, version@, i as int);
                }
                return Ok(asset);
            },
            None => {},
        }
        i = i + 1;
    }
    proof {
        lemma_first_serving_is(releases@, loader@, version@, releases@.len() as int);
    }
    Err(Error::ModNotFound)
}

impl ReleaseAsset {
    /// The address from which the asset is downloaded.
    pub fn get_download_url(&self) -> (r: Option<String>)
        ensures
            r == Some(self.browser_download_url),
    {
        Some(self.browser_download_url.clone())
    }
}

} // verus!
