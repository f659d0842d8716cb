//! The commands of the tool and the providers it can draw from.

use crate::text::{folded, is_word, occurs, str_contains, to_chars, trim, trimmed};
use crate::ModLoader;
use vstd::prelude::*;

verus! {

/// A content provider. The order of the variants is the order in which
/// providers are tried.
#[derive(Debug, Clone, Copy, PartialEq, Eq, Hash, Structural)]
pub enum Source {
    Modrinth,
    Github,
    CurseForge,
}

/// How a provider finds the mod that a local file is.
#[derive(Debug, Clone, Copy, PartialEq, Eq, Structural)]
pub enum Lookup {
    /// By the cryptographic hash of the file.
    ContentHash,
    /// By the fingerprint of the file.
    Fingerprint,
    /// By the repository that the file itself names.
    RepoReference,
}

/// How a provider tells which of its files is for a loader and a game version.
#[derive(Debug, Clone, Copy, PartialEq, Eq, Structural)]
pub enum Matching {
    /// The provider lists the loaders and game versions of each file.
    Listed,
    /// Only the name of a file tells.
    AssetName,
}

impl Default for Source {
    fn default() -> (r: Self)
        ensures
            r == Source::Modrinth,
    {
        Source::Modrinth
    }
}

impl Source {
    /// The name under which a provider is written down.
    pub open spec fn name(self) -> Seq<char> {
        match self {
            Source::Modrinth => "modrinth"@,
            Source::Github => "github"@,
            Source::CurseForge => "curseforge"@,
        }
    }

    /// Every provider, in the order of the enumeration.
    pub open spec fn enumeration() -> Seq<Source> {
        seq![Source::Modrinth, Source::Github, Source::CurseForge]
    }

    /// The provider that `t` names: whitespace around the name and the case of
    /// its ASCII letters do not count.
    pub open spec fn named(t: Seq<char>) -> Option<Source> {
        let word = folded(trimmed(t));
        if word == folded("modrinth"@) {
            Some(Source::Modrinth)
        } else if word == folded("github"@) {
            Some(Source::Github)
        } else if word == folded("curseforge"@) {
            Some(Source::CurseForge)
        } else {
            None
        }
    }

    /// The provider a request is served from: the one asked for, else the
    /// release host for a name of the form owner/repository, else the
    /// content-addressed registry.
    pub open spec fn chosen(name: Seq<char>, asked: Option<Source>) -> Source {
        match asked {
            Some(source) => source,
            None => if occurs(name, seq!['/']) {
                Source::Github
            } else {
                Source::Modrinth
            },
        }
    }

    /// How each provider finds the mod that a local file is.
    pub open spec fn lookup_of(self) -> Lookup {
        match self {
            Source::Modrinth => Lookup::ContentHash,
            Source::Github => Lookup::RepoReference,
            Source::CurseForge => Lookup::Fingerprint,
        }
    }

    /// How each provider tells which of its files is for a loader and a game version.
    pub open spec fn matching_of(self) -> Matching {
        match self {
            Source::Github => Matching::AssetName,
            _ => Matching::Listed,
        }
    }

    pub fn lookup(&self) -> (r: Lookup)
        ensures
            r == self.lookup_of(),
    {
        match self {
            Source::Modrinth => Lookup::ContentHash,
            Source::Github => Lookup::RepoReference,
            Source::CurseForge => Lookup::Fingerprint,
        }
    }

    pub fn matching(&self) -> (r: Matching)
        ensures
            r == self.matching_of(),
    {
        match self {
            Source::Github => Matching::AssetName,
            _ => Matching::Listed,
        }
    }

    pub fn to_string(&self) -> (r: String)
        ensures
            r@ == self.name(),
    {
        match self {
            Source::Modrinth => String::from_str("modrinth"),
            Source::Github => String::from_str("github"),
            Source::CurseForge => String::from_str("curseforge"),
        }
    }

    pub fn all() -> (v: Vec<Source>)
        ensures
            v@ == Source::enumeration(),
    {
        let mut v: Vec<Source> = Vec::new();
        v.push(Source::Modrinth);
        v.push(Source::Github);
        v.push(Source::CurseForge);
        assert(v@ =~= Source::enumeration());
        v
    }

    /// Reads a provider's name.
    pub fn from_name(s: &str) -> (r: Result<Source, String>)
        ensures
            match r {
                Ok(source) => Source::named(s@) == Some(source),
                Err(e) => Source::named(s@) is None && e@ == "Invalid source"@,
            },
    {
        let chars = to_chars(s);
        let word = trim(chars.as_slice());
        let modrinth = to_chars("modrinth");
        let github = to_chars("github");
        let curseforge = to_chars("curseforge");
        if is_word(word.as_slice(), modrinth.as_slice()) {
            Ok(Source::Modrinth)
        } else if is_word(word.as_slice(), github.as_slice()) {
            Ok(Source::Github)
        } else if is_word(word.as_slice(), curseforge.as_slice()) {
            Ok(Source::CurseForge)
        } else {
            Err(String::from_str("Invalid source"))
        }
    }

    /// The provider a request for `name` is served from.
    pub fn for_request(name: &str, asked: Option<Source>) -> (r: Source)
        ensures
            r == Source::chosen(name@, asked),
    {
        match asked {
            Some(source) => source,
            None => {
                proof {
                    reveal_strlit("/");
                    assert("/"@ =~= seq!['/']);
                }
                if str_contains(name, "/") {
                    Source::Github
                } else {
                    Source::Modrinth
                }
            },
        }
    }
}

/// What the tool is asked to do.
#[allow(inconsistent_fields)]
#[derive(Debug, Clone)]
pub enum Commands {
    /// Add a mod to a directory.
    Add {
        mod_: String,
        version: Option<String>,
        source: Option<Source>,
        token: Option<String>,
        loader: ModLoader,
        dir: String,
    },
    /// Bring every mod of a directory to one game version.
    Update {
        dir: String,
        version: Option<String>,
        delete_previous: bool,
        token: Option<String>,
        source: Option<Source>,
        other_sources: bool,
        loader: Option<ModLoader>,
    },
    /// Add mods picked from the most downloaded ones.
    QuickAdd { version: Option<String>, limit: u16, loader: ModLoader },
    /// Enable or disable the mods of a directory.
    Toggle { version: Option<String>, dir: String },
    /// List the mods of a directory.
    List { dir: String, verbose: bool },
}

impl Commands {
    /// The title of a command.
    pub open spec fn title(self) -> Seq<char> {
        match self {
            Commands::QuickAdd { .. } => "Quick Add"@,
            Commands::Update { .. } => "Update"@,
            Commands::Add { .. } => "Add"@,
            Commands::Toggle { .. } => "Toggle"@,
            Commands::List { .. } => "List"@,
        }
    }

    pub fn to_string(&self) -> (r: String)
        ensures
            r@ == self.title(),
    {
        match self {
            Commands::QuickAdd { .. } => String::from_str("Quick Add"),
            Commands::Update { .. } => String::from_str("Update"),
            Commands::Add { .. } => String::from_str("Add"),
            Commands::Toggle { .. } => String::from_str("Toggle"),
            Commands::List { .. } => String::from_str("List"),
        }
    }
}

/// One invocation of the tool.
#[derive(Debug, Clone)]
pub struct Cli {
    pub command: Commands,
    /// Whether only errors are reported.
    pub silent: bool,
}

} // verus!
