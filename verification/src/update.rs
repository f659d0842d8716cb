//! Bringing the mods of a directory to a new game version: what is decided
//! for each file before a provider is asked and after it has answered.

use crate::cli::Source;
use crate::curseforge_wrapper::structs::first_for_version;
use crate::curseforge_wrapper::Mod;
use crate::fallback::{Fallback, Progress};
use crate::gh_releases::{repo_parts, GHReleasesAPI};
use crate::identity::{classified, IdentityView};
use crate::metadata::{last_value, pair_views, Metadata};
use crate::model::{ErrorKind, Identity, JobOutcome, Problem};
use crate::modrinth_wrapper::modrinth::{Modrinth, VersionData};
use crate::scheduler::{ends_as, job_outcome};
use crate::ModLoader;
use vstd::prelude::*;

verus! {

/// The provider a directory is updated from where none is named.
pub open spec fn preferred(source: Option<Source>) -> Source {
    match source {
        Some(s) => s,
        None => Source::Modrinth,
    }
}

/// The orchestrator for one file of the directory: it starts at the
/// provider named, or at the content-addressed registry, and may go on to
/// the others where that is allowed.
pub fn update_dir(source: Option<Source>, other_sources: bool) -> (f: Fallback)
    ensures
        f.wf(),
        f@ == Progress::start(preferred(source), other_sources),
{
    let start = match source {
        Some(s) => s,
        None => Source::Modrinth,
    };
    Fallback::new(start, other_sources)
}

/// The orchestrator for one file of the directory whose origin was asked
/// for. It starts at the provider named; where none is named, at the provider
/// that knows the file. A file of unknown origin for which no provider is
/// named gets no orchestrator: it is passed over, and no provider is asked.
pub fn start_update(source: Option<Source>, identity: &Identity, other_sources: bool) -> (r: Option<
    Fallback,
>)
    ensures
        match r {
            Some(f) => f.wf() && match source {
                Some(s) => f@ == Progress::start(s, other_sources),
                None => identity@.provider() matches Some(p) && f@ == Progress::start(
                    p,
                    other_sources,
                ),
            },
            None => source is None && identity@.provider() is None,
        },
{
    match source {
        Some(_) => Some(update_dir(source, other_sources)),
        None => match identity.provider() {
            Some(provider) => Some(update_dir(Some(provider), other_sources)),
            None => None,
        },
    }
}

/// A file that neither lookup knows and that holds no provenance is of
/// unknown origin and has no provider of its own: where no provider is
/// named, `start_update` gives it no orchestrator.
pub proof fn lemma_unknown_has_no_provider(hash: Seq<char>, fingerprint: u32)
    ensures
        classified(hash, fingerprint, false, false, None) == IdentityView::Unknown,
        classified(hash, fingerprint, false, false, None).provider() is None,
{
}

/// What is said of a file that nothing tells the origin of.
pub open spec fn unknown_origin(filename: Seq<char>) -> Seq<char> {
    "Nothing tells where "@ + filename + " came from"@
}

/// How the work on one file of the directory ended.
#[derive(Debug, Clone)]
pub struct Ending {
    pub outcome: JobOutcome,
    /// Whether the file that was updated is removed.
    pub removes_previous: bool,
    /// What is said of a file that was passed over.
    pub warning: Option<Problem>,
}

/// The end of the work on the file at `filename`, given the orchestrator
/// that it was started with. A file that was passed over is not found, which
/// is no failure; nothing is removed for it, whatever was asked for, and the
/// warning says that its origin is unknown. For a file that had an
/// orchestrator the outcome is that of the orchestrator, and the file is
/// removed only where that was asked for and a provider other than the
/// first served the update.
pub fn finish_update(plan: &Option<Fallback>, del_prev: bool, filename: &str) -> (r: Ending)
    requires
        plan matches Some(f) ==> f.wf(),
    ensures
        match plan {
            Some(f) => {
                &&& ends_as(f@, r.outcome)
                &&& r.removes_previous == (del_prev && f@.served && f@.tried >= 2)
                &&& r.warning is None
            },
            None => {
                &&& r.outcome is NotFound
                &&& !r.removes_previous
                &&& r.warning matches Some(p) && p@ == (
                    ErrorKind::IdentityUnknown,
                    unknown_origin(filename@),
                )
            },
        },
{
    match plan {
        Some(f) => Ending {
            outcome: job_outcome(f),
            removes_previous: removes_previous(del_prev, f),
            warning: None,
        },
        None => {
            let mut reason = String::from_str("Nothing tells where ");
            reason.append(filename);
            reason.append(" came from");
            Ending {
                outcome: JobOutcome::NotFound,
                removes_previous: false,
                warning: Some(Problem { kind: ErrorKind::IdentityUnknown, reason }),
            }
        },
    }
}

/// What the content-addressed registry is asked for when a mod is updated,
/// given the version that it knows by the hash of the file: the project of
/// that version, and the loader asked for or else the first that the version
/// names. There is nothing to ask for a file whose hash it does not know, nor
/// for a version that names an empty list of loaders.
pub open spec fn registry_request(installed: Option<VersionData>, asked: Option<ModLoader>) -> Option<
    (Seq<char>, ModLoader),
> {
    match installed {
        Some(version) => match Modrinth::update_loader(asked, version) {
            Some(loader) => Some((version.project_id@, loader)),
            None => None,
        },
        None => None,
    }
}

/// The project and the loader that the registry is asked for when the mod
/// at `filename` is updated. A file whose hash the registry does not know is
/// of unknown origin there, which is told as such and is no failure of the
/// registry.
pub fn update_file_modrinth(installed: Option<&VersionData>, asked: Option<ModLoader>, filename: &str) -> (r:
    Result<(String, ModLoader), Problem>)
    ensures
        match r {
            Ok((project, loader)) => installed matches Some(version) && registry_request(
                Some(*version),
                asked,
            ) == Some((project@, loader)),
            Err(problem) => match installed {
                Some(version) => registry_request(Some(*version), asked) is None && problem@ == (
                    ErrorKind::ParseError,
                    "No loader found"@,
                ),
                None => problem@ == (ErrorKind::IdentityUnknown, unknown_origin(filename@)),
            },
        },
{
    let version = match installed {
        Some(version) => version,
        None => {
            let mut reason = String::from_str("Nothing tells where ");
            reason.append(filename);
            reason.append(" came from");
            return Err(Problem { kind: ErrorKind::IdentityUnknown, reason });
        },
    };
    match Modrinth::loader_for_update(asked, version) {
        Ok(loader) => Ok((version.project_id.clone(), loader)),
        Err(_) => Err(Problem::new(ErrorKind::ParseError, "No loader found")),
    }
}

/// Whether the file that was updated is removed: only where that was asked
/// for and a provider other than the preferred one served the update.
pub fn removes_previous(del_prev: bool, f: &Fallback) -> (r: bool)
    requires
        f.wf(),
    ensures
        r == (del_prev && f@.served && f@.tried >= 2),
{
    del_prev && f.served && f.tried >= 2
}

/// The repository that a mod from the release host is updated from, given
/// the pairs of its provenance.
pub open spec fn update_repo(pairs: Seq<(Seq<char>, Seq<char>)>) -> Option<(Seq<char>, Seq<char>)> {
    match last_value(pairs, "source"@, pairs.len()) {
        Some(name) => if Source::named(name) == Some(Source::Github) {
            match last_value(pairs, "repo"@, pairs.len()) {
                Some(repo) => repo_parts(repo),
                None => None,
            }
        } else {
            None
        },
        None => None,
    }
}

/// The owner and the repository that the mod at `filename` is updated from:
/// its provenance has to name the release host and a repository of the form
/// owner/repository. A mod whose provenance names no provider is of unknown
/// origin; one that names another provider has no releases here.
pub fn update_file_github(pairs: &Vec<(String, String)>, filename: &str) -> (r: Result<
    (String, String),
    Problem,
>)
    ensures
        match r {
            Ok((owner, repo)) => update_repo(pair_views(pairs@)) == Some((owner@, repo@)),
            Err(problem) => {
                &&& update_repo(pair_views(pairs@)) is None
                &&& problem.kind == match last_value(pair_views(pairs@), "source"@, pairs@.len()) {
                    None => ErrorKind::IdentityUnknown,
                    Some(name) => if Source::named(name) is Some && Source::named(name) != Some(
                        Source::Github,
                    ) {
                        ErrorKind::NotFound
                    } else {
                        ErrorKind::ParseError
                    },
                }
            },
        },
{
    let name = match Metadata::lookup(pairs, "source") {
        Some(name) => name,
        None => {
            return Err(Problem::new(ErrorKind::IdentityUnknown, "No key found"));
        },
    };
    match Source::from_name(name.as_str()) {
        Ok(Source::Github) => {},
        Ok(_) => {
            return Err(Problem::new(ErrorKind::NotFound, "No releases found"));
        },
        Err(_) => {
            return Err(Problem::new(ErrorKind::ParseError, "Invalid source"));
        },
    }
    let repo = match Metadata::lookup(pairs, "repo") {
        Some(repo) => repo,
        None => {
            let reason = String::from_str("Could not find repo for ").concat(filename);
            return Err(Problem { kind: ErrorKind::ParseError, reason });
        },
    };
    match GHReleasesAPI::split_repo(repo.as_str()) {
        Some(parts) => Ok(parts),
        None => {
            let reason = String::from_str("Could not find repo for ").concat(filename);
            Err(Problem { kind: ErrorKind::ParseError, reason })
        },
    }
}

/// The mod and the file that the mod at `filename` is updated to, given the
/// mods that the fingerprint-addressed provider answered with: the first of
/// them, and its newest file for the new game version.
pub fn update_file_curseforge(mods: &Vec<Mod>, new_version: &str, filename: &str) -> (r: Result<
    (u32, u32),
    Problem,
>)
    ensures
        match r {
            Ok((mod_id, file_id)) => {
                &&& mods@.len() > 0
                &&& mod_id == mods@[0].id
                &&& first_for_version(mods@[0].latest_files_indexes@, new_version@)
                    < mods@[0].latest_files_indexes@.len()
                &&& file_id == mods@[0].latest_files_indexes@[first_for_version(
                    mods@[0].latest_files_indexes@,
                    new_version@,
                )].file_id
            },
            Err(problem) => {
                &&& problem.kind == ErrorKind::NotFound
                &&& mods@.len() == 0 ==> problem.reason@ == "Version not found for "@ + filename@
                &&& mods@.len() > 0 ==> first_for_version(
                    mods@[0].latest_files_indexes@,
                    new_version@,
                ) == mods@[0].latest_files_indexes@.len() && problem.reason@ == "Version "@
                    + new_version@ + " not found for "@ + filename@
            },
        },
{
    if mods.len() == 0 {
        let reason = String::from_str("Version not found for ").concat(filename);
        return Err(Problem { kind: ErrorKind::NotFound, reason });
    }
    match mods[0].position_for_version(new_version) {
        Some(i) => Ok((mods[0].id, mods[0].latest_files_indexes[i].file_id)),
        None => {
            let mut reason = String::from_str("Version ");
            reason.append(new_version);
            reason.append(" not found for ");
            reason.append(filename);
            Err(Problem { kind: ErrorKind::NotFound, reason })
        },
    }
}

} // verus!
