//! Fabric: which loader to use for a Minecraft version, where its metadata
//! lives on meta.fabricmc.net, and where its libraries are fetched and stored.
//!
//! 1. List of supported Fabric loader versions for a given MC version:
//!    `<meta>/versions/loader/<mc_version>`
//! 2. Profile JSON for a specific loader version (libraries, mainClass, args):
//!    `<meta>/versions/loader/<mc>/<loader>/profile/json`

use vstd::prelude::*;

use crate::minecraft::manifest::spec_maven_path;
use crate::minecraft::{custom_error_with, spec_custom_error, McError};
use crate::text::{
    chars_of, extend_chars, extend_str, replace_char, spec_replace, spec_split, spec_trim_end_matches,
    split_chars, string_of, trim_end_matches,
};

verus! {

// =====================================================================
// LOADER VERSIONS LIST
// =====================================================================

#[derive(Debug, Clone)]
pub struct FabricLoaderEntry {
    pub loader: FabricVersionInfo,
    pub intermediary: FabricVersionInfo,
}

#[derive(Debug, Clone)]
pub struct FabricVersionInfo {
    pub version: String,
    pub stable: bool,
}

/// The address of the list of loader versions for a Minecraft version.
pub fn loader_versions_url(mc_version: &str) -> (r: String)
    ensures
        r@ == "https://meta.fabricmc.net/v2/versions/loader/"@ + mc_version@,
{
    let mut out = chars_of("https://meta.fabricmc.net/v2/versions/loader/");
    extend_str(&mut out, mc_version);
    string_of(&out)
}

/// Whether `i` is the first entry whose loader is marked stable.
pub open spec fn spec_first_stable(versions: Seq<FabricLoaderEntry>, i: int) -> bool {
    &&& 0 <= i < versions.len()
    &&& versions[i].loader.stable
    &&& forall|j: int| 0 <= j < i ==> !(#[trigger] versions[j]).loader.stable
}

/// Returns the latest stable Fabric loader version among `versions` (the list
/// that Fabric's metadata gives for `mc_version`, newest first): the first
/// stable one, else the first one, else an error.
pub fn latest_loader(mc_version: &str, versions: &Vec<FabricLoaderEntry>) -> (r: Result<
    String,
    McError,
>)
    ensures
        match r {
            Ok(v) => {
                ||| exists|i: int| spec_first_stable(versions@, i) && v@ == versions@[i].loader.version@
                ||| (forall|j: int| 0 <= j < versions@.len() ==> !(#[trigger] versions@[j]).loader.stable)
                    && versions@.len() > 0 && v@ == versions@[0].loader.version@
            },
            Err(e) => versions@.len() == 0 && spec_custom_error(
                e,
                "Aucune version Fabric pour "@ + mc_version@,
            ),
        },
{
    let mut i: usize = 0;
    while i < versions.len()
        invariant
            i <= versions@.len(),
            forall|j: int| 0 <= j < i ==> !(#[trigger] versions@[j]).loader.stable,
        decreases versions@.len() - i,
    {
        if versions[i].loader.stable {
            assert(spec_first_stable(versions@, i as int));
            return Ok(versions[i].loader.version.clone());
        }
        i = i + 1;
    }
    if versions.len() > 0 {
        Ok(versions[0].loader.version.clone())
    } else {
        Err(custom_error_with("Aucune version Fabric pour ", mc_version))
    }
}

// =====================================================================
// FABRIC PROFILE JSON (mainClass + libs + args)
// =====================================================================

#[derive(Debug, Clone)]
pub struct FabricProfile {
    pub id: String,
    pub inherits_from: String,
    pub main_class: String,
    pub libraries: Vec<FabricLibrary>,
    pub arguments: Option<FabricArguments>,
}

#[derive(Debug, Clone)]
pub struct FabricLibrary {
    pub name: String,
    pub url: String,
    /// SHA-1 isn't always present in Fabric meta; verification is best-effort
    pub sha1: Option<String>,
}

#[derive(Debug, Clone)]
pub struct FabricArguments {
    pub game: Vec<String>,
    pub jvm: Vec<String>,
}

/// The address of the profile of one loader version for a Minecraft version.
pub fn profile_url(mc_version: &str, loader_version: &str) -> (r: String)
    ensures
        r@ == "https://meta.fabricmc.net/v2/versions/loader/"@ + mc_version@ + "/"@
            + loader_version@ + "/profile/json"@,
{
    let mut out = chars_of("https://meta.fabricmc.net/v2/versions/loader/");
    extend_str(&mut out, mc_version);
    extend_str(&mut out, "/");
    extend_str(&mut out, loader_version);
    extend_str(&mut out, "/profile/json");
    string_of(&out)
}

// =====================================================================
// MAVEN PATH BUILDER
// =====================================================================

/// The relative path of a Maven coordinate `group:artifact:version`: `group`
/// with dots turned into slashes, then `artifact/version/artifact-version.jar`.
/// Parts after the version are ignored; a name of fewer than three parts only
/// has its colons turned into slashes.
pub open spec fn spec_fabric_maven_path(name: Seq<char>) -> Seq<char> {
    let parts = spec_split(name, ':');
    if parts.len() < 3 {
        spec_replace(name, ':', '/')
    } else {
        spec_replace(parts[0], '.', '/') + seq!['/'] + parts[1] + seq!['/'] + parts[2] + seq!['/']
            + parts[1] + seq!['-'] + parts[2] + ".jar"@
    }
}

/// "net.fabricmc:fabric-loader:0.16.10"
///   -> "net/fabricmc/fabric-loader/0.16.10/fabric-loader-0.16.10.jar"
pub fn maven_path(name: &str) -> (r: String)
    ensures
        r@ == spec_fabric_maven_path(name@),
{
    let chars = chars_of(name);
    let parts = split_chars(&chars, ':');
    if parts.len() < 3 {
        let replaced = replace_char(&chars, ':', '/');
        return string_of(&replaced);
    }
    let mut out = replace_char(&parts[0], '.', '/');
    out.push('/');
    extend_chars(&mut out, &parts[1]);
    out.push('/');
    extend_chars(&mut out, &parts[2]);
    out.push('/');
    extend_chars(&mut out, &parts[1]);
    out.push('-');
    extend_chars(&mut out, &parts[2]);
    extend_str(&mut out, ".jar");
    let ghost p = spec_split(name@, ':');
    assert(parts@[0]@ == p[0] && parts@[1]@ == p[1] && parts@[2]@ == p[2]);
    assert(out@ =~= spec_fabric_maven_path(name@));
    string_of(&out)
}

/// Fabric's and Mojang's layouts of a Maven name agree on every name with no
/// classifier part (fewer than four colon-separated parts).
pub proof fn lemma_maven_layouts_agree(name: Seq<char>)
    requires
        spec_split(name, ':').len() < 4,
    ensures
        spec_fabric_maven_path(name) == spec_maven_path(name),
{
    let parts = spec_split(name, ':');
    if parts.len() >= 3 {
        assert(spec_fabric_maven_path(name) =~= spec_maven_path(name));
    }
}

/// The full download address of a Fabric library: its repository address
/// without trailing slashes, a slash, then its Maven path.
pub open spec fn spec_library_url(lib: FabricLibrary) -> Seq<char> {
    spec_trim_end_matches(lib.url@, seq!['/']) + seq!['/'] + spec_fabric_maven_path(lib.name@)
}

/// Build the full download URL for a Fabric library.
pub fn library_url(lib: &FabricLibrary) -> (r: String)
    ensures
        r@ == spec_library_url(*lib),
{
    let path = maven_path(lib.name.as_str());
    let url = chars_of(lib.url.as_str());
    let slash = chars_of("/");
    proof {
        reveal_strlit("/");
    }
    assert(slash@ =~= seq!['/']);
    let mut out = trim_end_matches(&url, &slash);
    out.push('/');
    let p = chars_of(path.as_str());
    extend_chars(&mut out, &p);
    assert(out@ =~= spec_library_url(*lib));
    string_of(&out)
}

} // verus!
