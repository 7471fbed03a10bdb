//! What Mojang's manifests say, and the rules read from them.
//!
//! Two tiers: the global manifest lists every version; the per-version
//! manifest lists the libraries, the asset index, the main class and the client
//! download of one version.

use vstd::prelude::*;

use crate::keyed::KeyedList;
use crate::minecraft::{McError, Platform};
use crate::text::{
    chars_of, extend_chars, extend_str, replace_char, spec_replace, spec_split, split_chars,
    str_eq, string_of, lemma_split_nonempty,
};

verus! {

// =====================================================================
// GLOBAL MANIFEST (list of all versions)
// =====================================================================

#[derive(Debug)]
pub struct GlobalManifest {
    pub latest: LatestVersions,
    pub versions: Vec<VersionEntry>,
}

#[derive(Debug)]
pub struct LatestVersions {
    pub release: String,
    pub snapshot: String,
}

#[derive(Debug)]
pub struct VersionEntry {
    pub id: String,
    pub version_type: String,
    pub url: String,
    pub time: String,
    pub release_time: String,
    pub sha1: String,
    pub compliance_level: u32,
}

/// Returns the entry for a specific version id (e.g. "1.21.4"): the first
/// entry with that id.
pub fn find_version<'a>(manifest: &'a GlobalManifest, version_id: &str) -> (r: Result<
    &'a VersionEntry,
    McError,
>)
    ensures
        match r {
            Ok(e) => exists|i: int|
                0 <= i < manifest.versions@.len() && manifest.versions@[i] == *e && e.id@
                    == version_id@ && forall|j: int|
                    0 <= j < i ==> (#[trigger] manifest.versions@[j]).id@ != version_id@,
            Err(err) => {
                &&& forall|i: int|
                    0 <= i < manifest.versions@.len() ==> (#[trigger] manifest.versions@[i]).id@
                        != version_id@
                &&& err matches McError::VersionNotFound(s) && s@ == version_id@
            },
        },
{
    let mut i: usize = 0;
    while i < manifest.versions.len()
        invariant
            i <= manifest.versions@.len(),
            forall|j: int|
                0 <= j < i ==> (#[trigger] manifest.versions@[j]).id@ != version_id@,
        decreases manifest.versions@.len() - i,
    {
        if str_eq(manifest.versions[i].id.as_str(), version_id) {
            return Ok(&manifest.versions[i]);
        }
        i = i + 1;
    }
    let v = chars_of(version_id);
    Err(McError::VersionNotFound(string_of(&v)))
}

// =====================================================================
// PER-VERSION MANIFEST
// =====================================================================

/// Per-version manifest: the fields that the launcher reads.
#[derive(Debug)]
pub struct VersionManifest {
    pub id: String,
    pub version_type: String,
    /// Required Java major version (e.g. 21 for 1.21+, 17 for 1.17-1.20)
    pub java_version: JavaVersion,
    /// The class containing main()
    pub main_class: String,
    pub asset_index: AssetIndexRef,
    pub assets: String,
    /// All the JARs to download (libraries)
    pub libraries: Vec<Library>,
    /// Where to fetch the client jar
    pub downloads: ClientDownloads,
    /// Modern format: game and JVM arguments
    pub arguments: Option<Arguments>,
    /// Older versions (pre-1.13) give one argument line instead
    pub minecraft_arguments: Option<String>,
}

#[derive(Debug)]
pub struct JavaVersion {
    pub component: String,
    pub major_version: u32,
}

#[derive(Debug)]
pub struct AssetIndexRef {
    pub id: String,
    pub sha1: String,
    pub size: u64,
    pub total_size: u64,
    pub url: String,
}

#[derive(Debug)]
pub struct Library {
    pub name: String,
    pub downloads: Option<LibraryDownloads>,
    /// OS-conditional include rules
    pub rules: Option<Vec<Rule>>,
    /// Native libraries (per-OS classifier mapping)
    pub natives: Option<KeyedList<String>>,
}

#[derive(Debug)]
pub struct LibraryDownloads {
    pub artifact: Option<Artifact>,
    /// Maps classifier name (e.g. "natives-windows") to its artifact
    pub classifiers: Option<KeyedList<Artifact>>,
}

#[derive(Debug)]
pub struct Artifact {
    pub path: Option<String>,
    pub sha1: String,
    pub size: u64,
    pub url: String,
}

#[derive(Debug)]
pub struct Rule {
    /// "allow" or "disallow"
    pub action: String,
    pub os: Option<OsRule>,
}

#[derive(Debug)]
pub struct OsRule {
    pub name: Option<String>,
    pub arch: Option<String>,
    pub version: Option<String>,
}

#[derive(Debug)]
pub struct ClientDownloads {
    pub client: Artifact,
    pub server: Option<Artifact>,
}

/// Game and JVM arguments, each entry kept as the JSON text it was given as
/// (a plain string or a conditional object).
#[derive(Debug)]
pub struct Arguments {
    pub game: Vec<String>,
    pub jvm: Vec<String>,
}

// =====================================================================
// PLATFORM RULES
// =====================================================================

/// Whether an OS name used in library rules designates `platform`.
pub open spec fn spec_os_matches(platform: Platform, name: Seq<char>) -> bool {
    ||| name == "windows"@ && platform == Platform::Windows
    ||| (name == "osx"@ || name == "macos"@) && platform == Platform::MacOs
    ||| name == "linux"@ && platform == Platform::Linux
}

/// Whether an OS name used in library rules designates `platform`.
pub fn os_matches(platform: Platform, name: &str) -> (r: bool)
    ensures
        r == spec_os_matches(platform, name@),
{
    proof {
        reveal_strlit("windows");
        reveal_strlit("osx");
        reveal_strlit("macos");
        reveal_strlit("linux");
        assert("windows"@.len() == 7 && "osx"@.len() == 3 && "macos"@.len() == 5);
        assert("linux"@.len() == 5 && "macos"@[0] != "linux"@[0]);
        assert("macos"@ != "linux"@);
    }
    if str_eq(name, "windows") {
        platform == Platform::Windows
    } else if str_eq(name, "osx") || str_eq(name, "macos") {
        platform == Platform::MacOs
    } else if str_eq(name, "linux") {
        platform == Platform::Linux
    } else {
        false
    }
}

/// Whether a rule applies on `platform`: it names no OS, or an OS name that
/// designates the platform.
pub open spec fn spec_rule_applies(platform: Platform, rule: Rule) -> bool {
    match rule.os {
        Some(os) => match os.name {
            Some(n) => spec_os_matches(platform, n@),
            None => true,
        },
        None => true,
    }
}

/// The verdict of a list of rules: the action of the last rule that applies,
/// `allow` meaning allowed; when no rule applies, the library is left out.
pub open spec fn spec_rules_allow(platform: Platform, rules: Seq<Rule>) -> bool
    decreases rules.len(),
{
    if rules.len() == 0 {
        false
    } else if spec_rule_applies(platform, rules.last()) {
        rules.last().action@ == "allow"@
    } else {
        spec_rules_allow(platform, rules.drop_last())
    }
}

/// Later rules override earlier ones: when rule `i` applies and no later rule
/// does, rule `i`'s action is the verdict; when no rule applies, the library
/// is left out.
pub proof fn lemma_last_applicable_rule_decides(platform: Platform, rules: Seq<Rule>, i: int)
    requires
        -1 <= i < rules.len(),
        forall|j: int| i < j < rules.len() ==> !spec_rule_applies(platform, #[trigger] rules[j]),
        0 <= i ==> spec_rule_applies(platform, rules[i]),
    ensures
        spec_rules_allow(platform, rules) == (0 <= i && rules[i].action@ == "allow"@),
    decreases rules.len(),
{
    if rules.len() > 0 && i < rules.len() - 1 {
        let front = rules.drop_last();
        assert(!spec_rule_applies(platform, rules[rules.len() - 1]));
        assert forall|j: int| i < j < front.len() implies !spec_rule_applies(
            platform,
            #[trigger] front[j],
        ) by {
            assert(front[j] == rules[j]);
        }
        if 0 <= i {
            assert(front[i] == rules[i]);
        }
        lemma_last_applicable_rule_decides(platform, front, i);
    }
}

/// Whether a library applies on `platform`: a library without rules always
/// does, otherwise its rules decide.
pub open spec fn spec_library_allowed(platform: Platform, lib: Library) -> bool {
    match lib.rules {
        Some(rules) => spec_rules_allow(platform, rules@),
        None => true,
    }
}

/// Tells whether a library applies to the current OS.
pub fn is_library_allowed(platform: Platform, lib: &Library) -> (r: bool)
    ensures
        r == spec_library_allowed(platform, *lib),
{
    let rules = match &lib.rules {
        Some(rules) => rules,
        None => {
            return true;
        },
    };
    let mut allowed = false;
    let mut i: usize = 0;
    while i < rules.len()
        invariant
            i <= rules@.len(),
            allowed == spec_rules_allow(platform, rules@.take(i as int)),
        decreases rules@.len() - i,
    {
        let rule = &rules[i];
        let matches = match &rule.os {
            Some(os) => match &os.name {
                Some(name) => os_matches(platform, name.as_str()),
                None => true,
            },
            None => true,
        };
        if matches {
            allowed = str_eq(rule.action.as_str(), "allow");
        }
        assert(rules@.take(i + 1).drop_last() =~= rules@.take(i as int));
        i = i + 1;
    }
    assert(rules@.take(rules@.len() as int) =~= rules@);
    allowed
}

/// The natives classifier key of a platform.
pub open spec fn spec_native_classifier(platform: Platform) -> Option<Seq<char>> {
    match platform {
        Platform::Windows => Some("natives-windows"@),
        Platform::MacOs => Some("natives-macos"@),
        Platform::Linux => Some("natives-linux"@),
        Platform::Other => None,
    }
}

/// Returns the natives classifier key for the current OS (e.g. "natives-windows").
pub fn current_native_classifier(platform: Platform) -> (r: Option<&'static str>)
    ensures
        match r {
            Some(s) => spec_native_classifier(platform) == Some(s@),
            None => spec_native_classifier(platform) is None,
        },
{
    match platform {
        Platform::Windows => Some("natives-windows"),
        Platform::MacOs => Some("natives-macos"),
        Platform::Linux => Some("natives-linux"),
        Platform::Other => None,
    }
}

// =====================================================================
// MAVEN NAMES
// =====================================================================

/// The relative path of a Maven coordinate `group:artifact:version[:classifier]`:
/// `group` with dots turned into slashes, then `artifact/version/`, then the file
/// `artifact-version[-classifier].jar`. Any part after the classifier is
/// ignored. A name of fewer than three parts only has its colons turned into
/// slashes.
pub open spec fn spec_maven_path(name: Seq<char>) -> Seq<char> {
    let parts = spec_split(name, ':');
    if parts.len() < 3 {
        spec_replace(name, ':', '/')
    } else {
        let classifier = if parts.len() >= 4 {
            seq!['-'] + parts[3]
        } else {
            Seq::<char>::empty()
        };
        spec_replace(parts[0], '.', '/') + seq!['/'] + parts[1] + seq!['/'] + parts[2] + seq!['/']
            + parts[1] + seq!['-'] + parts[2] + classifier + ".jar"@
    }
}

/// Convert a Maven name like "com.mojang:authlib:5.0.51" to its relative path
/// "com/mojang/authlib/5.0.51/authlib-5.0.51.jar"
pub fn maven_path(name: &str) -> (r: String)
    ensures
        r@ == spec_maven_path(name@),
{
    let chars = chars_of(name);
    let parts = split_chars(&chars, ':');
    if parts.len() < 3 {
        let replaced = replace_char(&chars, ':', '/');
        return string_of(&replaced);
    }
    let mut out = replace_char(&parts[0], '.', '/');
    out.push('/');
    extend_chars(&mut out, &parts[1]);
    out.push('/');
    extend_chars(&mut out, &parts[2]);
    out.push('/');
    extend_chars(&mut out, &parts[1]);
    out.push('-');
    extend_chars(&mut out, &parts[2]);
    if parts.len() >= 4 {
        out.push('-');
        extend_chars(&mut out, &parts[3]);
    }
    extend_str(&mut out, ".jar");
    let ghost p = spec_split(name@, ':');
    assert(parts@[0]@ == p[0] && parts@[1]@ == p[1] && parts@[2]@ == p[2]);
    proof {
        if parts.len() >= 4 {
            assert(parts@[3]@ == p[3]);
        }
    }
    assert(out@ =~= spec_maven_path(name@));
    string_of(&out)
}

// =====================================================================
// DOWNLOAD SIZE
// =====================================================================

/// The bytes a library contributes to the first download: its main artifact
/// and the native artifact for the platform, when it applies on the platform.
pub open spec fn spec_library_bytes(platform: Platform, lib: Library) -> int {
    if !spec_library_allowed(platform, lib) {
        0
    } else {
        match lib.downloads {
            Some(d) => {
                let main = match d.artifact {
                    Some(a) => a.size as int,
                    None => 0,
                };
                let native = match d.classifiers {
                    Some(c) => match spec_native_classifier(platform) {
                        Some(k) => if c@.contains_key(k) {
                            c@[k].size as int
                        } else {
                            0
                        },
                        None => 0,
                    },
                    None => 0,
                };
                main + native
            },
            None => 0,
        }
    }
}

/// The bytes all `libs` contribute to the first download.
pub open spec fn spec_libraries_bytes(platform: Platform, libs: Seq<Library>) -> int
    decreases libs.len(),
{
    if libs.len() == 0 {
        0
    } else {
        spec_libraries_bytes(platform, libs.drop_last()) + spec_library_bytes(platform, libs.last())
    }
}

/// The size of the client jar, the asset index and the libraries that apply.
pub open spec fn spec_initial_download_size(platform: Platform, manifest: VersionManifest) -> int {
    manifest.downloads.client.size + manifest.asset_index.size + spec_libraries_bytes(
        platform,
        manifest.libraries@,
    )
}

proof fn lemma_libraries_bytes_nonneg(platform: Platform, libs: Seq<Library>)
    ensures
        0 <= spec_libraries_bytes(platform, libs),
    decreases libs.len(),
{
    if libs.len() > 0 {
        lemma_libraries_bytes_nonneg(platform, libs.drop_last());
    }
}

proof fn lemma_libraries_bytes_grow(platform: Platform, libs: Seq<Library>, i: int)
    requires
        0 <= i <= libs.len(),
    ensures
        0 <= spec_libraries_bytes(platform, libs.take(i)) <= spec_libraries_bytes(platform, libs),
    decreases libs.len() - i,
{
    lemma_libraries_bytes_nonneg(platform, libs.take(i));
    if i < libs.len() {
        lemma_libraries_bytes_grow(platform, libs, i + 1);
        assert(libs.take(i + 1).drop_last() =~= libs.take(i));
        assert(libs.take(i + 1).last() == libs[i]);
    } else {
        assert(libs.take(i) =~= libs);
    }
}

fn library_bytes(platform: Platform, lib: &Library) -> (r: u128)
    ensures
        r == spec_library_bytes(platform, *lib),
{
    if !is_library_allowed(platform, lib) {
        return 0;
    }
    let mut total: u128 = 0;
    if let Some(downloads) = &lib.downloads {
        if let Some(art) = &downloads.artifact {
            total = total + art.size as u128;
        }
        if let Some(classifiers) = &downloads.classifiers {
            if let Some(native_classifier) = current_native_classifier(platform) {
                if let Some(art) = classifiers.get(native_classifier) {
                    total = total + art.size as u128;
                }
            }
        }
    }
    total
}

/// The total byte size of the first downloads (client jar, asset index and
/// libraries that apply), or nothing when it does not fit in 64 bits.
pub fn try_estimate_initial_download_size(platform: Platform, manifest: &VersionManifest) -> (r:
    Option<u64>)
    ensures
        match r {
            Some(n) => n == spec_initial_download_size(platform, *manifest),
            None => spec_initial_download_size(platform, *manifest) > u64::MAX,
        },
{
    let mut total: u64 = 0;
    let fixed: u128 = manifest.downloads.client.size as u128 + manifest.asset_index.size as u128;
    if fixed > u64::MAX as u128 {
        proof {
            lemma_libraries_bytes_grow(platform, manifest.libraries@, 0);
        }
        return None;
    }
    total = fixed as u64;
    let mut i: usize = 0;
    while i < manifest.libraries.len()
        invariant
            i <= manifest.libraries@.len(),
            total == manifest.downloads.client.size + manifest.asset_index.size
                + spec_libraries_bytes(platform, manifest.libraries@.take(i as int)),
        decreases manifest.libraries@.len() - i,
    {
        let add = library_bytes(platform, &manifest.libraries[i]);
        assert(manifest.libraries@.take(i + 1).drop_last() =~= manifest.libraries@.take(i as int));
        if total as u128 + add > u64::MAX as u128 {
            proof {
                lemma_libraries_bytes_grow(platform, manifest.libraries@, i + 1);
            }
            return None;
        }
        total = (total as u128 + add) as u64;
        i = i + 1;
    }
    assert(manifest.libraries@.take(manifest.libraries@.len() as int) =~= manifest.libraries@);
    Some(total)
}

/// Returns the total byte size of all downloads (libs + client + asset index).
/// Note: doesn't include individual asset objects (those are counted later).
pub fn estimate_initial_download_size(platform: Platform, manifest: &VersionManifest) -> (r: u64)
    requires
        spec_initial_download_size(platform, *manifest) <= u64::MAX,
    ensures
        r == spec_initial_download_size(platform, *manifest),
{
    match try_estimate_initial_download_size(platform, manifest) {
        Some(n) => n,
        None => 0,
    }
}

} // verus!
