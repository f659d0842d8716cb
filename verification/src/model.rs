//! The values that the engine works on, whatever provider they came from.

use crate::cli::Source;
use crate::text::str_eq;
use crate::ModLoader;
use vstd::prelude::*;

verus! {

/// A project at a provider. Two references with the same provider and the
/// same project id are the same project, whatever else is known of them.
#[derive(Debug, Clone)]
pub struct ProjectRef {
    pub source: Source,
    pub project_id: String,
}

impl View for ProjectRef {
    type V = (Source, Seq<char>);

    open spec fn view(&self) -> (Source, Seq<char>) {
        (self.source, self.project_id@)
    }
}

impl ProjectRef {
    pub fn new(source: Source, project_id: &str) -> (r: ProjectRef)
        ensures
            r@ == (source, project_id@),
    {
        ProjectRef { source, project_id: String::from_str(project_id) }
    }

    /// Whether the two references name one project.
    pub fn same(&self, other: &ProjectRef) -> (r: bool)
        ensures
            r == (self@ == other@),
    {
        self.source == other.source && str_eq(self.project_id.as_str(), other.project_id.as_str())
    }

    /// A reference to the same project.
    pub fn duplicate(&self) -> (r: ProjectRef)
        ensures
            r@ == self@,
    {
        ProjectRef { source: self.source, project_id: self.project_id.clone() }
    }
}

/// How a dependency relates to the project that lists it.
#[derive(Debug, Clone, Copy, PartialEq, Eq, Structural)]
pub enum Relation {
    Required,
    Optional,
    Embedded,
    Incompatible,
    Other,
}

/// One dependency that a version lists.
#[derive(Debug, Clone)]
pub struct DependencyRef {
    pub target: ProjectRef,
    pub relation: Relation,
}

/// One file of a version.
#[derive(Debug, Clone)]
pub struct FileRef {
    pub url: String,
    pub filename: String,
    pub hash: String,
}

/// One version of a project, as a provider describes it.
#[derive(Debug, Clone)]
pub struct VersionDescriptor {
    pub source: Source,
    pub project_id: String,
    pub version_id: String,
    pub game_versions: Vec<String>,
    pub loaders: Vec<String>,
    pub files: Vec<FileRef>,
    pub dependencies: Vec<DependencyRef>,
}

/// The projects that a version depends on, in the order in which it lists them.
pub open spec fn dependency_keys(deps: Seq<DependencyRef>) -> Seq<(Source, Seq<char>)> {
    deps.map_values(|d: DependencyRef| d.target@)
}

/// What one synchronisation asks for.
#[derive(Debug, Clone)]
pub struct ResolutionRequest {
    pub game_version: String,
    pub loader: ModLoader,
    pub preferred: Source,
    pub fallback_enabled: bool,
    pub destination: String,
}

/// Where a local file came from.
#[derive(Debug, Clone)]
pub enum Identity {
    /// The content-addressed provider knows the hash of the file.
    ContentAddressed { hash: String },
    /// The fingerprint-addressed provider knows the fingerprint of the file.
    Fingerprinted { fingerprint: u32 },
    /// The file itself says which provider and which repository it is from.
    ProvenanceTagged { provider: Source, repo_ref: String },
    /// Nothing tells.
    Unknown,
}

/// What kind of failure a provider, a file or an answer gave.
#[derive(Debug, Clone, Copy, PartialEq, Eq, Structural)]
pub enum ErrorKind {
    /// No version matches the runtime and loader asked for.
    NotFound,
    /// The network or the provider failed.
    TransportError,
    /// The provider's answer could not be read.
    ParseError,
    /// Nothing tells where the mod came from.
    IdentityUnknown,
    /// A file could not be read or written.
    IoError,
}

/// Why an attempt failed.
#[derive(Debug, Clone)]
pub struct Problem {
    pub kind: ErrorKind,
    pub reason: String,
}

impl View for Problem {
    type V = (ErrorKind, Seq<char>);

    open spec fn view(&self) -> (ErrorKind, Seq<char>) {
        (self.kind, self.reason@)
    }
}

impl Problem {
    pub fn new(kind: ErrorKind, reason: &str) -> (r: Problem)
        ensures
            r@ == (kind, reason@),
    {
        Problem { kind, reason: String::from_str(reason) }
    }
}

/// How the work on one mod of a batch ended.
#[derive(Debug, Clone)]
pub enum JobOutcome {
    Downloaded,
    NotFound,
    Failed { reason: String },
    SkippedDuplicate,
}

} // verus!
