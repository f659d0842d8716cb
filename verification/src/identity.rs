//! Where a local mod came from. The providers are asked in a fixed order:
//! the content-addressed one by the hash of the file, the
//! fingerprint-addressed one by its fingerprint, and last the file itself by
//! its provenance entry. The first that knows the file decides.

use crate::cli::Source;
use crate::model::Identity;
use vstd::prelude::*;

verus! {

/// What is asked next.
#[derive(Debug, Clone)]
pub enum Query {
    /// Does the content-addressed provider know this hash?
    ContentHash { hash: String },
    /// Does the fingerprint-addressed provider know this fingerprint?
    Fingerprint { fingerprint: u32 },
    /// What does the provenance entry of the file say?
    ProvenanceTag,
}

/// What came back for a query. A lookup that failed, for whatever reason, is
/// a lookup without a match.
#[derive(Debug, Clone)]
pub enum Answer {
    Match,
    NoMatch,
    Tag { provider: Source, repo_ref: String },
}

/// Where the resolver stands.
#[derive(Debug, Clone, Copy, PartialEq, Eq, Structural)]
pub enum Stage {
    AskHash,
    AskFingerprint,
    ReadTag,
    Done,
}

/// An identity as a value of the model.
pub enum IdentityView {
    ContentAddressed { hash: Seq<char> },
    Fingerprinted { fingerprint: u32 },
    ProvenanceTagged { provider: Source, repo_ref: Seq<char> },
    Unknown,
}

impl View for Identity {
    type V = IdentityView;

    open spec fn view(&self) -> IdentityView {
        match self {
            Identity::ContentAddressed { hash } => IdentityView::ContentAddressed { hash: hash@ },
            Identity::Fingerprinted { fingerprint } => IdentityView::Fingerprinted {
                fingerprint: *fingerprint,
            },
            Identity::ProvenanceTagged { provider, repo_ref } => IdentityView::ProvenanceTagged {
                provider: *provider,
                repo_ref: repo_ref@,
            },
            Identity::Unknown => IdentityView::Unknown,
        }
    }
}

impl IdentityView {
    /// The provider that knows a mod of this identity.
    pub open spec fn provider(self) -> Option<Source> {
        match self {
            IdentityView::ContentAddressed { .. } => Some(Source::Modrinth),
            IdentityView::Fingerprinted { .. } => Some(Source::CurseForge),
            IdentityView::ProvenanceTagged { provider, .. } => Some(provider),
            IdentityView::Unknown => None,
        }
    }
}

impl Identity {
    /// The provider that knows the mod: the one whose lookup found it, or
    /// the one that the mod names itself. None knows a mod of unknown origin.
    pub fn provider(&self) -> (r: Option<Source>)
        ensures
            r == self@.provider(),
            r matches Some(source) ==> match self@ {
                IdentityView::ContentAddressed { .. } => source.lookup_of()
                    == crate::cli::Lookup::ContentHash,
                IdentityView::Fingerprinted { .. } => source.lookup_of()
                    == crate::cli::Lookup::Fingerprint,
                _ => true,
            },
    {
        match self {
            Identity::ContentAddressed { .. } => Some(Source::Modrinth),
            Identity::Fingerprinted { .. } => Some(Source::CurseForge),
            Identity::ProvenanceTagged { provider, .. } => Some(*provider),
            Identity::Unknown => None,
        }
    }
}

/// An answer as a value of the model.
pub enum AnswerView {
    Match,
    NoMatch,
    Tag { provider: Source, repo_ref: Seq<char> },
}

impl View for Answer {
    type V = AnswerView;

    open spec fn view(&self) -> AnswerView {
        match self {
            Answer::Match => AnswerView::Match,
            Answer::NoMatch => AnswerView::NoMatch,
            Answer::Tag { provider, repo_ref } => AnswerView::Tag {
                provider: *provider,
                repo_ref: repo_ref@,
            },
        }
    }
}

/// The identity of a file, given what each of the three lookups would find:
/// the first match in the fixed order decides.
pub open spec fn classified(
    hash: Seq<char>,
    fingerprint: u32,
    hash_known: bool,
    fingerprint_known: bool,
    tag: Option<(Source, Seq<char>)>,
) -> IdentityView {
    if hash_known {
        IdentityView::ContentAddressed { hash }
    } else if fingerprint_known {
        IdentityView::Fingerprinted { fingerprint }
    } else {
        match tag {
            Some((provider, repo_ref)) => IdentityView::ProvenanceTagged { provider, repo_ref },
            None => IdentityView::Unknown,
        }
    }
}

/// The resolver as a value of the model.
pub struct Trace {
    pub hash: Seq<char>,
    pub fingerprint: u32,
    pub stage: Stage,
    pub identity: IdentityView,
}

impl Trace {
    pub open spec fn start(hash: Seq<char>, fingerprint: u32) -> Trace {
        Trace { hash, fingerprint, stage: Stage::AskHash, identity: IdentityView::Unknown }
    }

    /// The resolver after the answer to the query it asked. A match at the
    /// hash or at the fingerprint ends the work; a tag counts only as the
    /// answer to the last query; once the work has ended, an answer changes nothing.
    pub open spec fn step(self, answer: AnswerView) -> Trace {
        match self.stage {
            Stage::AskHash => match answer {
                AnswerView::Match => Trace {
                    stage: Stage::Done,
                    identity: IdentityView::ContentAddressed { hash: self.hash },
                    ..self
                },
                _ => Trace { stage: Stage::AskFingerprint, ..self },
            },
            Stage::AskFingerprint => match answer {
                AnswerView::Match => Trace {
                    stage: Stage::Done,
                    identity: IdentityView::Fingerprinted { fingerprint: self.fingerprint },
                    ..self
                },
                _ => Trace { stage: Stage::ReadTag, ..self },
            },
            Stage::ReadTag => match answer {
                AnswerView::Tag { provider, repo_ref } => Trace {
                    stage: Stage::Done,
                    identity: IdentityView::ProvenanceTagged { provider, repo_ref },
                    ..self
                },
                _ => Trace { stage: Stage::Done, identity: IdentityView::Unknown, ..self },
            },
            Stage::Done => self,
        }
    }
}

/// The answer that a lookup gives.
pub open spec fn lookup_answer(known: bool) -> AnswerView {
    if known {
        AnswerView::Match
    } else {
        AnswerView::NoMatch
    }
}

/// The answer that reading the provenance entry gives.
pub open spec fn tag_answer(tag: Option<(Source, Seq<char>)>) -> AnswerView {
    match tag {
        Some((provider, repo_ref)) => AnswerView::Tag { provider, repo_ref },
        None => AnswerView::NoMatch,
    }
}

/// Asked in order and answered truthfully, the resolver ends with the
/// identity that the first match in the fixed order gives, and a match ends
/// the work at once: no later query is asked.
pub proof fn lemma_resolution_order(
    hash: Seq<char>,
    fingerprint: u32,
    hash_known: bool,
    fingerprint_known: bool,
    tag: Option<(Source, Seq<char>)>,
)
    ensures
        ({
            let s0 = Trace::start(hash, fingerprint);
            let s1 = s0.step(lookup_answer(hash_known));
            let s2 = s1.step(lookup_answer(fingerprint_known));
            let s3 = s2.step(tag_answer(tag));
            &&& s0.stage == Stage::AskHash
            &&& hash_known ==> s1.stage == Stage::Done
            &&& !hash_known ==> s1.stage == Stage::AskFingerprint
            &&& !hash_known && fingerprint_known ==> s2.stage == Stage::Done
            &&& !hash_known && !fingerprint_known ==> s2.stage == Stage::ReadTag
            &&& s3.stage == Stage::Done
            &&& s3.identity == classified(hash, fingerprint, hash_known, fingerprint_known, tag)
        }),
{
}

/// The resolver for one file.
pub struct Resolver {
    pub hash: String,
    pub fingerprint: u32,
    pub stage: Stage,
    pub identity: Identity,
}

impl View for Resolver {
    type V = Trace;

    open spec fn view(&self) -> Trace {
        Trace {
            hash: self.hash@,
            fingerprint: self.fingerprint,
            stage: self.stage,
            identity: self.identity@,
        }
    }
}

impl Resolver {
    /// A resolver for the file with this content hash and this fingerprint.
    pub fn new(hash: String, fingerprint: u32) -> (r: Resolver)
        ensures
            r@ == Trace::start(hash@, fingerprint),
    {
        Resolver { hash, fingerprint, stage: Stage::AskHash, identity: Identity::Unknown }
    }

    /// A resolver for a file with these bytes.
    pub fn for_bytes(contents: &[u8]) -> (r: Resolver)
        requires
            contents@.len() * 8 <= usize::MAX,
        ensures
            r@ == Trace::start(
                crate::digest::hex_lower(crate::digest::sha512(contents@)),
                crate::curseforge_wrapper::hash::fingerprint(contents@),
            ),
    {
        let hash = crate::digest::calc_sha512(contents);
        let fingerprint = crate::curseforge_wrapper::MurmurHash2::hash(contents);
        Resolver::new(hash, fingerprint)
    }

    /// What is to be asked now; `None` once the identity is settled.
    pub fn next_query(&self) -> (q: Option<Query>)
        ensures
            match q {
                Some(Query::ContentHash { hash }) => self@.stage == Stage::AskHash && hash@ == self@.hash,
                Some(Query::Fingerprint { fingerprint }) => self@.stage == Stage::AskFingerprint
                    && fingerprint == self@.fingerprint,
                Some(Query::ProvenanceTag) => self@.stage == Stage::ReadTag,
                None => self@.stage == Stage::Done,
            },
    {
        match self.stage {
            Stage::AskHash => Some(Query::ContentHash { hash: self.hash.clone() }),
            Stage::AskFingerprint => Some(Query::Fingerprint { fingerprint: self.fingerprint }),
            Stage::ReadTag => Some(Query::ProvenanceTag),
            Stage::Done => None,
        }
    }

    /// Takes in the answer to the query that `next_query` asked.
    pub fn answer(&mut self, answer: Answer)
        ensures
            final(self)@ == old(self)@.step(answer@),
    {
        match self.stage {
            Stage::AskHash => match answer {
                Answer::Match => {
                    self.identity = Identity::ContentAddressed { hash: self.hash.clone() };
                    self.stage = Stage::Done;
                },
                _ => {
                    self.stage = Stage::AskFingerprint;
                },
            },
            Stage::AskFingerprint => match answer {
                Answer::Match => {
                    self.identity = Identity::Fingerprinted { fingerprint: self.fingerprint };
                    self.stage = Stage::Done;
                },
                _ => {
                    self.stage = Stage::ReadTag;
                },
            },
            Stage::ReadTag => match answer {
                Answer::Tag { provider, repo_ref } => {
                    self.identity = Identity::ProvenanceTagged { provider, repo_ref };
                    self.stage = Stage::Done;
                },
                _ => {
                    self.identity = Identity::Unknown;
                    self.stage = Stage::Done;
                },
            },
            Stage::Done => {},
        }
    }

    /// The identity, once it is settled.
    pub fn identity(self) -> (r: Option<Identity>)
        ensures
            match r {
                Some(identity) => self@.stage == Stage::Done && identity@ == self@.identity,
                None => self@.stage != Stage::Done,
            },
    {
        match self.stage {
            Stage::Done => Some(self.identity),
            _ => None,
        }
    }

    /// The identity of a file, given what each of the three lookups found.
    pub fn classify(
        hash: String,
        fingerprint: u32,
        hash_known: bool,
        fingerprint_known: bool,
        tag: Option<(Source, String)>,
    ) -> (r: Identity)
        ensures
            r@ == classified(
                hash@,
                fingerprint,
                hash_known,
                fingerprint_known,
                match tag {
                    Some((provider, repo_ref)) => Some((provider, repo_ref@)),
                    None => None,
                },
            ),
    {
        if hash_known {
            Identity::ContentAddressed { hash }
        } else if fingerprint_known {
            Identity::Fingerprinted { fingerprint }
        } else {
            match tag {
                Some((provider, repo_ref)) => Identity::ProvenanceTagged { provider, repo_ref },
                None => Identity::Unknown,
            }
        }
    }
}

/// A local mod: where it lies and, once it is settled, where it came
/// from. Whether it is enabled is read from its name alone.
#[derive(Debug, Clone)]
pub struct Artifact {
    pub path: String,
    /// `None` until the identity is settled.
    pub identity: Option<Identity>,
}

impl Artifact {
    /// The mod at `path`, of which nothing is settled yet.
    pub fn new(path: &str) -> (a: Artifact)
        ensures
            a.path@ == path@,
            a.identity is None,
    {
        Artifact { path: String::from_str(path), identity: None }
    }

    /// Whether the mod is enabled.
    pub fn is_enabled(&self) -> (r: bool)
        ensures
            r == !crate::toggle::is_disabled(self.path@),
    {
        !crate::toggle::path_is_disabled(self.path.as_str())
    }

    /// Settles the identity of the mod. An identity that is settled stays:
    /// whether this one was taken.
    pub fn settle(&mut self, identity: Identity) -> (taken: bool)
        ensures
            taken == (old(self).identity is None),
            final(self).path == old(self).path,
            final(self).identity == if old(self).identity is None {
                Some(identity)
            } else {
                old(self).identity
            },
    {
        if self.identity.is_none() {
            self.identity = Some(identity);
            true
        } else {
            false
        }
    }
}

} // verus!
