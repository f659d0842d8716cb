//! Resolution, fetching and synchronisation of versioned mod archives across
//! several content providers: the decisions are made here, on plain values,
//! and every function states what it returns.

pub mod address;
pub mod archive;
pub mod cli;
pub mod closure;
pub mod curseforge_wrapper;
pub mod digest;
pub mod fallback;
pub mod gh_releases;
pub mod identity;
pub mod listing;
pub mod metadata;
pub mod model;
pub mod modrinth_wrapper;
pub mod paint;
pub mod scheduler;
pub mod text;
pub mod toggle;
pub mod tui;
pub mod update;

pub use digest::calc_sha512;
pub use update::{update_dir, update_file_curseforge, update_file_github};
use vstd::prelude::*;

verus! {

/// The runtime variant a mod is built for.
#[derive(Debug, Clone, Copy, PartialEq, Eq, Hash, Structural)]
pub enum ModLoader {
    Forge,
    Fabric,
    Quilt,
    NeoForge,
    Cauldron,
    LiteLoader,
    Any,
}

impl Default for ModLoader {
    fn default() -> (r: Self)
        ensures
            r == ModLoader::Fabric,
    {
        ModLoader::Fabric
    }
}

impl ModLoader {
    /// The name of a loader.
    pub open spec fn name(self) -> Seq<char> {
        match self {
            ModLoader::Forge => "Forge"@,
            ModLoader::Fabric => "Fabric"@,
            ModLoader::Quilt => "Quilt"@,
            ModLoader::NeoForge => "NeoForge"@,
            ModLoader::Cauldron => "Cauldron"@,
            ModLoader::LiteLoader => "LiteLoader"@,
            ModLoader::Any => "Any"@,
        }
    }

    /// Every loader, in the order of the enumeration.
    pub open spec fn enumeration() -> Seq<ModLoader> {
        seq![
            ModLoader::Forge,
            ModLoader::Fabric,
            ModLoader::Quilt,
            ModLoader::NeoForge,
            ModLoader::Cauldron,
            ModLoader::LiteLoader,
            ModLoader::Any,
        ]
    }

    /// The loader that a provider's lower-case name stands for; `Any` for a
    /// name that is none of them.
    pub open spec fn known_as(name: Seq<char>) -> ModLoader {
        if name == "fabric"@ {
            ModLoader::Fabric
        } else if name == "forge"@ {
            ModLoader::Forge
        } else if name == "quilt"@ {
            ModLoader::Quilt
        } else if name == "neoforge"@ {
            ModLoader::NeoForge
        } else if name == "cauldron"@ {
            ModLoader::Cauldron
        } else if name == "liteloader"@ {
            ModLoader::LiteLoader
        } else {
            ModLoader::Any
        }
    }

    pub fn to_string(&self) -> (r: String)
        ensures
            r@ == self.name(),
    {
        match self {
            ModLoader::Forge => String::from_str("Forge"),
            ModLoader::Fabric => String::from_str("Fabric"),
            ModLoader::Quilt => String::from_str("Quilt"),
            ModLoader::NeoForge => String::from_str("NeoForge"),
            ModLoader::Cauldron => String::from_str("Cauldron"),
            ModLoader::LiteLoader => String::from_str("LiteLoader"),
            ModLoader::Any => String::from_str("Any"),
        }
    }

    pub fn all() -> (v: Vec<ModLoader>)
        ensures
            v@ == ModLoader::enumeration(),
    {
        let mut v: Vec<ModLoader> = Vec::new();
        v.push(ModLoader::Forge);
        v.push(ModLoader::Fabric);
        v.push(ModLoader::Quilt);
        v.push(ModLoader::NeoForge);
        v.push(ModLoader::Cauldron);
        v.push(ModLoader::LiteLoader);
        v.push(ModLoader::Any);
        assert(v@ =~= ModLoader::enumeration());
        v
    }

    /// The loader that a provider's lower-case name stands for.
    pub fn from_provider_name(name: &str) -> (r: ModLoader)
        ensures
            r == ModLoader::known_as(name@),
    {
        if crate::text::str_eq(name, "fabric") {
            ModLoader::Fabric
        } else if crate::text::str_eq(name, "forge") {
            ModLoader::Forge
        } else if crate::text::str_eq(name, "quilt") {
            ModLoader::Quilt
        } else if crate::text::str_eq(name, "neoforge") {
            ModLoader::NeoForge
        } else if crate::text::str_eq(name, "cauldron") {
            ModLoader::Cauldron
        } else if crate::text::str_eq(name, "liteloader") {
            ModLoader::LiteLoader
        } else {
            ModLoader::Any
        }
    }
}

/// The mods of the curated list.
#[derive(Debug, Clone, Copy, PartialEq, Eq, Structural)]
pub enum Mods {
    AntiXray,
    AppleSkin,
    CarpetExtra,
    EasyAuth,
    EssentialCommands,
    FabricApi,
    FabricCarpet,
    Geyser,
    Lithium,
    Origins,
    SkinRestorer,
    Status,
    WorldEdit,
}

impl Mods {
    /// The slug of a mod of the curated list.
    pub open spec fn slug(self) -> Seq<char> {
        match self {
            Mods::FabricApi => "fabric-api"@,
            Mods::AntiXray => "anti-xray"@,
            Mods::AppleSkin => "appleskin"@,
            Mods::EasyAuth => "easy-auth"@,
            Mods::EssentialCommands => "essential-commands"@,
            Mods::Lithium => "lithium"@,
            Mods::Origins => "origins"@,
            Mods::SkinRestorer => "skin-restorer"@,
            Mods::Status => "status"@,
            Mods::CarpetExtra => "carpet-extra"@,
            Mods::FabricCarpet => "fabric-carpet"@,
            Mods::Geyser => "geyser"@,
            Mods::WorldEdit => "worldedit"@,
        }
    }

    pub fn to_string(&self) -> (r: String)
        ensures
            r@ == self.slug(),
    {
        match self {
            Mods::FabricApi => String::from_str("fabric-api"),
            Mods::AntiXray => String::from_str("anti-xray"),
            Mods::AppleSkin => String::from_str("appleskin"),
            Mods::EasyAuth => String::from_str("easy-auth"),
            Mods::EssentialCommands => String::from_str("essential-commands"),
            Mods::Lithium => String::from_str("lithium"),
            Mods::Origins => String::from_str("origins"),
            Mods::SkinRestorer => String::from_str("skin-restorer"),
            Mods::Status => String::from_str("status"),
            Mods::CarpetExtra => String::from_str("carpet-extra"),
            Mods::FabricCarpet => String::from_str("fabric-carpet"),
            Mods::Geyser => String::from_str("geyser"),
            Mods::WorldEdit => String::from_str("worldedit"),
        }
    }
}

/// A text that a terminal shows as a link.
#[derive(Debug, Clone, PartialEq, Eq, Hash)]
pub struct Link {
    pub text: String,
    pub url: String,
}

impl Default for Link {
    fn default() -> (r: Self)
        ensures
            r.text@ == Seq::<char>::empty(),
            r.url@ == Seq::<char>::empty(),
    {
        Link { text: String::new(), url: String::new() }
    }
}

impl Link {
    /// The link as a terminal takes it: the address between the two marks
    /// that open a link, then the text, then the marks that close it.
    pub open spec fn shown(text: Seq<char>, url: Seq<char>) -> Seq<char> {
        "\u{1b}]8;;"@ + url + "\u{1b}\\"@ + text + "\u{1b}]8;;\u{1b}\\"@
    }

    pub fn new(text: String, url: String) -> (r: Self)
        ensures
            r.text == text,
            r.url == url,
    {
        Self { text, url }
    }

    pub fn to_string(&self) -> (r: String)
        ensures
            r@ == Link::shown(self.text@, self.url@),
    {
        let mut r = String::from_str("\u{1b}]8;;");
        r.append(self.url.as_str());
        r.append("\u{1b}\\");
        r.append(self.text.as_str());
        r.append("\u{1b}]8;;\u{1b}\\");
        r
    }
}

/// An address in the making: a base, a path and the parameters of the query.
#[derive(Debug, Clone)]
pub struct UrlBuilder {
    pub base: String,
    pub path: String,
    pub params: Vec<(String, String)>,
}

impl UrlBuilder {
    /// The query of the first `n` parameters: `?` before the first, `&` before
    /// each other, `=` between a key and its value.
    pub open spec fn query(params: Seq<(String, String)>, n: nat) -> Seq<char>
        decreases n,
    {
        if n == 0 {
            Seq::empty()
        } else {
            UrlBuilder::query(params, (n - 1) as nat) + (if n == 1 {
                seq!['?']
            } else {
                seq!['&']
            }) + params[n - 1].0@ + seq!['='] + params[n - 1].1@
        }
    }

    /// The address as text.
    pub open spec fn text(self) -> Seq<char> {
        self.base@ + self.path@ + UrlBuilder::query(self.params@, self.params@.len())
    }

    pub fn new(base: &str, path: &str) -> (r: Self)
        ensures
            r.base@ == base@,
            r.path@ == path@,
            r.params@ == Seq::<(String, String)>::empty(),
    {
        Self { base: String::from_str(base), path: String::from_str(path), params: Vec::new() }
    }

    /// Adds one parameter after those that are there.
    pub fn add_param(&mut self, key: &str, value: &str)
        ensures
            final(self).base == old(self).base,
            final(self).path == old(self).path,
            final(self).params@.len() == old(self).params@.len() + 1,
            final(self).params@.take(old(self).params@.len() as int) == old(self).params@,
            final(self).params@.last().0@ == key@,
            final(self).params@.last().1@ == value@,
    {
        let ghost before = self.params@;
        self.params.push((String::from_str(key), String::from_str(value)));
        assert(self.params@.take(before.len() as int) =~= before);
    }

    pub fn to_string(&self) -> (r: String)
        ensures
            r@ == self.text(),
    {
        let mut url = self.base.clone();
        url.append(self.path.as_str());
        let mut i: usize = 0;
        assert(url@ =~= self.base@ + self.path@ + UrlBuilder::query(self.params@, 0));
        while i < self.params.len()
            invariant
                i <= self.params.len(),
                url@ == self.base@ + self.path@ + UrlBuilder::query(self.params@, i as nat),
            decreases self.params.len() - i,
        {
            if i == 0 {
                url.push('?');
            } else {
                url.push('&');
            }
            url.append(self.params[i].0.as_str());
            url.push('=');
            url.append(self.params[i].1.as_str());
            i = i + 1;
            assert(url@ =~= self.base@ + self.path@ + UrlBuilder::query(self.params@, i as nat));
        }
        url
    }
}

} // verus!
