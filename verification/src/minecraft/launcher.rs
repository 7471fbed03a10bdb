//! Launcher: the Java command line, the natives to extract, the classpath,
//! and the launch options taken from the signed-in session.
//! Spawning the game and streaming its output run outside this library.

use vstd::prelude::*;

use crate::auth::UserProfile;
use crate::minecraft::fabric::{self, spec_fabric_maven_path, FabricProfile};
use crate::minecraft::manifest::{
    self, current_native_classifier, is_library_allowed, spec_library_allowed, spec_maven_path,
    spec_native_classifier, Library, VersionManifest,
};
use crate::minecraft::paths::LauncherPath;
use crate::minecraft::{custom_error, custom_error_with, spec_custom_error, McError, Platform};
use crate::text::{
    chars_of, concat_text, contains, ends_with_ignore_ascii_case, extend_chars, extend_str, last_segment,
    owned, push_decimal, spec_contains, spec_decimal, spec_ends_with_ignore_ascii_case,
    spec_last_segment, spec_starts_with, spec_trim, spec_trim_end_matches, starts_with, string_of,
    string_views, trim, trim_end_matches,
};

verus! {

#[derive(Debug, Clone)]
pub struct LaunchOptions {
    pub username: String,
    pub uuid: String,
    pub access_token: String,
    pub server_address: Option<String>,
    pub max_ram_mb: u32,
    pub min_ram_mb: u32,
    /// If set, launch with Fabric Loader instead of vanilla.
    pub fabric_profile: Option<FabricProfile>,
}

/// What the running game reports.
#[derive(Debug, Clone)]
pub enum GameEvent {
    Started,
    Log { line: String },
    Error { line: String },
    Closed { code: i32 },
}

// =====================================================================
// SESSION RETRIEVAL
// =====================================================================

impl LaunchOptions {
    /// The options for a signed-in account: its name, id and token, 4096 MB at
    /// most and 1024 MB at least of memory, no server, vanilla.
    pub fn from_profile(profile: UserProfile) -> (r: LaunchOptions)
        ensures
            r.username == profile.username,
            r.uuid == profile.uuid,
            r.access_token == profile.mc_access_token,
            r.server_address is None,
            r.max_ram_mb == 4096,
            r.min_ram_mb == 1024,
            r.fabric_profile is None,
    {
        LaunchOptions {
            username: profile.username,
            uuid: profile.uuid,
            access_token: profile.mc_access_token,
            server_address: None,
            max_ram_mb: 4096,
            min_ram_mb: 1024,
            fabric_profile: None,
        }
    }
}

/// The launch options from what loading the stored session gave: the
/// session's options, or an error when loading failed or nobody is signed in.
pub fn load_options_from_session(loaded: Result<Option<UserProfile>, String>) -> (r: Result<
    LaunchOptions,
    McError,
>)
    ensures
        match loaded {
            Ok(Some(p)) => r matches Ok(o) && o.username == p.username && o.uuid == p.uuid
                && o.access_token == p.mc_access_token && o.server_address is None && o.max_ram_mb
                == 4096 && o.min_ram_mb == 1024 && o.fabric_profile is None,
            Ok(None) => r matches Err(e) && spec_custom_error(e, "Pas connecté à Microsoft"@),
            Err(msg) => r matches Err(e) && spec_custom_error(e, "Auth: "@ + msg@),
        },
{
    match loaded {
        Ok(Some(profile)) => Ok(LaunchOptions::from_profile(profile)),
        Ok(None) => Err(custom_error("Pas connecté à Microsoft")),
        Err(msg) => Err(custom_error_with("Auth: ", msg.as_str())),
    }
}

// =====================================================================
// NATIVES EXTRACTION
// =====================================================================

/// Where the native jar of a library's classifier artifact lies under the
/// libraries folder when the artifact gives no path: the library's Maven path
/// without its `.jar` endings, `-`, the classifier and `.jar`.
pub open spec fn spec_default_native_path(name: Seq<char>, classifier: Seq<char>) -> Seq<char> {
    spec_trim_end_matches(spec_maven_path(name), ".jar"@) + seq!['-'] + classifier + ".jar"@
}

/// The jars of one library from which natives are extracted, for a platform
/// with natives classifier `k`: its classifier artifact for `k`, then its main
/// artifact when its name carries `:k`.
pub open spec fn spec_library_native_jars(k: Seq<char>, lib: Library) -> Seq<Seq<char>> {
    spec_classifier_jars(k, lib) + spec_artifact_jars(k, lib)
}

/// The classifier artifact for `k` of a library, when it has one.
pub open spec fn spec_classifier_jars(k: Seq<char>, lib: Library) -> Seq<Seq<char>> {
    match lib.downloads {
        Some(d) => match d.classifiers {
            Some(c) => if c@.contains_key(k) {
                match c@[k].path {
                    Some(p) => seq![p@],
                    None => seq![spec_default_native_path(lib.name@, k)],
                }
            } else {
                Seq::empty()
            },
            None => Seq::empty(),
        },
        None => Seq::empty(),
    }
}

/// The main artifact of a library whose name carries `:k`, when it has one.
pub open spec fn spec_artifact_jars(k: Seq<char>, lib: Library) -> Seq<Seq<char>> {
    if spec_contains(lib.name@, seq![':'] + k) {
        match lib.downloads {
            Some(d) => match d.artifact {
                Some(a) => match a.path {
                    Some(p) => seq![p@],
                    None => seq![spec_maven_path(lib.name@)],
                },
                None => Seq::empty(),
            },
            None => Seq::empty(),
        }
    } else {
        Seq::empty()
    }
}

/// The jars, relative to the libraries folder, from which natives are
/// extracted: those of every library that applies on the platform, in order.
pub open spec fn spec_native_jars(platform: Platform, k: Seq<char>, libs: Seq<Library>) -> Seq<
    Seq<char>,
>
    decreases libs.len(),
{
    if libs.len() == 0 {
        Seq::empty()
    } else if spec_library_allowed(platform, libs.last()) {
        spec_native_jars(platform, k, libs.drop_last()) + spec_library_native_jars(k, libs.last())
    } else {
        spec_native_jars(platform, k, libs.drop_last())
    }
}

fn library_native_jars(k: &str, lib: &Library, out: &mut Vec<String>)
    ensures
        string_views(final(out)@) == string_views(old(out)@) + spec_library_native_jars(k@, *lib),
{
    let ghost before = string_views(out@);
    if let Some(downloads) = &lib.downloads {
        if let Some(classifiers) = &downloads.classifiers {
            if let Some(artifact) = classifiers.get(k) {
                let rel = match &artifact.path {
                    Some(p) => p.clone(),
                    None => {
                        let mp = manifest::maven_path(lib.name.as_str());
                        let mpc = chars_of(mp.as_str());
                        let jar = chars_of(".jar");
                        let mut v = trim_end_matches(&mpc, &jar);
                        v.push('-');
                        extend_str(&mut v, k);
                        extend_str(&mut v, ".jar");
                        assert(v@ =~= spec_default_native_path(lib.name@, k@));
                        string_of(&v)
                    },
                };
                out.push(rel);
            }
        }
    }
    let ghost mid = string_views(out@);
    assert(mid =~= before + spec_classifier_jars(k@, *lib));
    let name = chars_of(lib.name.as_str());
    let mut needle: Vec<char> = Vec::new();
    needle.push(':');
    extend_str(&mut needle, k);
    assert(needle@ =~= seq![':'] + k@);
    if contains(&name, &needle) {
        if let Some(downloads) = &lib.downloads {
            if let Some(artifact) = &downloads.artifact {
                let rel = match &artifact.path {
                    Some(p) => p.clone(),
                    None => manifest::maven_path(lib.name.as_str()),
                };
                out.push(rel);
            }
        }
    }
    assert(string_views(out@) =~= before + spec_library_native_jars(k@, *lib));
}

/// The jars, relative to the libraries folder, from which natives are
/// extracted for a version; an error on a platform without natives.
pub fn native_jars(platform: Platform, manifest: &VersionManifest) -> (r: Result<
    Vec<String>,
    McError,
>)
    ensures
        match spec_native_classifier(platform) {
            Some(k) => r matches Ok(v) && string_views(v@) == spec_native_jars(
                platform,
                k,
                manifest.libraries@,
            ),
            None => r matches Err(e) && spec_custom_error(e, "Plateforme non supportée"@),
        },
{
    let classifier = match current_native_classifier(platform) {
        Some(c) => c,
        None => {
            return Err(custom_error("Plateforme non supportée"));
        },
    };
    let ghost k = classifier@;
    let mut out: Vec<String> = Vec::new();
    let mut i: usize = 0;
    while i < manifest.libraries.len()
        invariant
            i <= manifest.libraries@.len(),
            k == classifier@,
            string_views(out@) == spec_native_jars(platform, k, manifest.libraries@.take(i as int)),
        decreases manifest.libraries@.len() - i,
    {
        let lib = &manifest.libraries[i];
        assert(manifest.libraries@.take(i + 1).drop_last() =~= manifest.libraries@.take(i as int));
        if is_library_allowed(platform, lib) {
            library_native_jars(classifier, lib, &mut out);
        }
        i = i + 1;
    }
    assert(manifest.libraries@.take(manifest.libraries@.len() as int) =~= manifest.libraries@);
    Ok(out)
}

/// Whether a jar entry name designates a native library: not under
/// `META-INF/`, not a folder, and ending in `.dll`, `.so`, `.dylib` or
/// `.jnilib` in any ASCII case.
pub open spec fn spec_is_native_entry(name: Seq<char>) -> bool {
    &&& !spec_starts_with(name, "META-INF/"@)
    &&& !(name.len() > 0 && name.last() == '/')
    &&& {
        ||| spec_ends_with_ignore_ascii_case(name, ".dll"@)
        ||| spec_ends_with_ignore_ascii_case(name, ".so"@)
        ||| spec_ends_with_ignore_ascii_case(name, ".dylib"@)
        ||| spec_ends_with_ignore_ascii_case(name, ".jnilib"@)
    }
}

/// The file name under which a jar entry is extracted into the natives
/// folder: the part after its last `/`, for native library entries only.
/// (The suffixes are compared after ASCII lower-casing; no other character
/// lower-cases to one of their letters, so Unicode lower-casing decides the
/// same.)
pub fn native_entry_target(name: &str) -> (r: Option<String>)
    ensures
        match r {
            Some(t) => spec_is_native_entry(name@) && t@ == spec_last_segment(name@),
            None => !spec_is_native_entry(name@),
        },
{
    let n = chars_of(name);
    let meta = chars_of("META-INF/");
    if starts_with(&n, &meta) || (n.len() > 0 && n[n.len() - 1] == '/') {
        return None;
    }
    let dll = chars_of(".dll");
    let so = chars_of(".so");
    let dylib = chars_of(".dylib");
    let jnilib = chars_of(".jnilib");
    let is_native = ends_with_ignore_ascii_case(&n, &dll) || ends_with_ignore_ascii_case(&n, &so)
        || ends_with_ignore_ascii_case(&n, &dylib) || ends_with_ignore_ascii_case(&n, &jnilib);
    if !is_native {
        return None;
    }
    let flat = last_segment(&n);
    Some(string_of(&flat))
}

// =====================================================================
// CLASSPATH BUILDER (vanilla + optional Fabric libs)
// =====================================================================

/// The separator between classpath entries on a platform.
pub fn classpath_separator(platform: Platform) -> (r: &'static str)
    ensures
        r@ == (if platform == Platform::Windows {
            ";"@
        } else {
            ":"@
        }),
{
    if platform == Platform::Windows {
        ";"
    } else {
        ":"
    }
}

/// The jar of a vanilla library on the classpath, relative to the libraries
/// folder: its artifact's path, or its Maven path; none without an artifact.
pub open spec fn spec_vanilla_jars(platform: Platform, libs: Seq<Library>) -> Seq<Seq<char>>
    decreases libs.len(),
{
    if libs.len() == 0 {
        Seq::empty()
    } else {
        let front = spec_vanilla_jars(platform, libs.drop_last());
        let lib = libs.last();
        if spec_library_allowed(platform, lib) && lib.downloads is Some
            && lib.downloads->0.artifact is Some {
            front.push(
                match lib.downloads->0.artifact->0.path {
                    Some(p) => p@,
                    None => spec_maven_path(lib.name@),
                },
            )
        } else {
            front
        }
    }
}

/// The Fabric libraries' jars relative to the libraries folder.
pub open spec fn spec_fabric_jars(profile: Option<FabricProfile>) -> Seq<Seq<char>> {
    match profile {
        Some(p) => p.libraries@.map_values(|l: fabric::FabricLibrary| spec_fabric_maven_path(l.name@)),
        None => Seq::empty(),
    }
}

/// Whether `entries` are the classpath for a launcher root: the Fabric
/// libraries first so they take precedence, then the vanilla libraries, each
/// under `<root>/libraries`, then the client jar `<root>/versions/<id>/<id>.jar`.
pub open spec fn spec_is_classpath(
    root: LauncherPath,
    platform: Platform,
    manifest: VersionManifest,
    profile: Option<FabricProfile>,
    entries: Seq<LauncherPath>,
) -> bool {
    let libs = spec_fabric_jars(profile) + spec_vanilla_jars(platform, manifest.libraries@);
    &&& entries.len() == libs.len() + 1
    &&& forall|i: int| 0 <= i < entries.len() ==> (#[trigger] entries[i]).base == root.base
    &&& forall|i: int|
        0 <= i < libs.len() ==> (#[trigger] entries[i]).parts() == root.parts() + seq![
            "libraries"@,
            libs[i],
        ]
    &&& entries.last().parts() == root.parts() + seq![
        "versions"@,
        manifest.id@,
        manifest.id@ + ".jar"@,
    ]
}

fn push_library_jar(out: &mut Vec<LauncherPath>, root: &LauncherPath, rel: &str)
    ensures
        final(out)@.len() == old(out)@.len() + 1,
        forall|i: int| 0 <= i < old(out)@.len() ==> final(out)@[i] == old(out)@[i],
        final(out)@.last().base == root.base,
        final(out)@.last().parts() == root.parts() + seq!["libraries"@, rel@],
{
    let p = root.duplicate().join("libraries").join(rel);
    assert(p.parts() =~= root.parts() + seq!["libraries"@, rel@]);
    out.push(p);
}

/// The classpath entries of a version, under the launcher root `root`.
pub fn build_classpath(
    platform: Platform,
    root: &LauncherPath,
    manifest: &VersionManifest,
    fabric_profile: Option<&FabricProfile>,
) -> (r: Vec<LauncherPath>)
    ensures
        spec_is_classpath(
            *root,
            platform,
            *manifest,
            match fabric_profile {
                Some(p) => Some(*p),
                None => None,
            },
            r@,
        ),
{
    let ghost profile = match fabric_profile {
        Some(p) => Some(*p),
        None => None,
    };
    let ghost fj = spec_fabric_jars(profile);
    let mut entries: Vec<LauncherPath> = Vec::new();
    if let Some(p) = fabric_profile {
        let mut i: usize = 0;
        while i < p.libraries.len()
            invariant
                i <= p.libraries@.len(),
                fj == spec_fabric_jars(Some(*p)),
                entries@.len() == i,
                forall|j: int| 0 <= j < i ==> (#[trigger] entries@[j]).base == root.base,
                forall|j: int|
                    0 <= j < i ==> (#[trigger] entries@[j]).parts() == root.parts() + seq![
                        "libraries"@,
                        fj[j],
                    ],
            decreases p.libraries@.len() - i,
        {
            let rel = fabric::maven_path(p.libraries[i].name.as_str());
            push_library_jar(&mut entries, root, rel.as_str());
            i = i + 1;
        }
    }
    let nf: usize = entries.len();
    assert(nf == fj.len());
    let mut i: usize = 0;
    while i < manifest.libraries.len()
        invariant
            i <= manifest.libraries@.len(),
            nf == fj.len(),
            entries@.len() == nf + spec_vanilla_jars(platform, manifest.libraries@.take(i as int)).len(),
            forall|j: int| 0 <= j < entries@.len() ==> (#[trigger] entries@[j]).base == root.base,
            forall|j: int|
                0 <= j < nf ==> (#[trigger] entries@[j]).parts() == root.parts() + seq![
                    "libraries"@,
                    fj[j],
                ],
            forall|j: int|
                nf <= j < entries@.len() ==> (#[trigger] entries@[j]).parts() == root.parts() + seq![
                    "libraries"@,
                    spec_vanilla_jars(platform, manifest.libraries@.take(i as int))[j - nf],
                ],
        decreases manifest.libraries@.len() - i,
    {
        let lib = &manifest.libraries[i];
        assert(manifest.libraries@.take(i + 1).drop_last() =~= manifest.libraries@.take(i as int));
        if is_library_allowed(platform, lib) {
            if let Some(downloads) = &lib.downloads {
                if let Some(artifact) = &downloads.artifact {
                    let rel = match &artifact.path {
                        Some(path) => path.clone(),
                        None => manifest::maven_path(lib.name.as_str()),
                    };
                    push_library_jar(&mut entries, root, rel.as_str());
                }
            }
        }
        i = i + 1;
    }
    assert(manifest.libraries@.take(manifest.libraries@.len() as int) =~= manifest.libraries@);
    let jar_name = concat_text(manifest.id.as_str(), ".jar");
    let client = root.duplicate().join("versions").join(manifest.id.as_str()).join(
        jar_name.as_str(),
    );
    assert(client.parts() =~= root.parts() + seq!["versions"@, manifest.id@, manifest.id@ + ".jar"@]);
    entries.push(client);
    entries
}

// =====================================================================
// COMMAND LINE
// =====================================================================

/// The Fabric JVM arguments, trimmed, empty ones left out.
pub open spec fn spec_trimmed_args(args: Seq<String>) -> Seq<Seq<char>>
    decreases args.len(),
{
    if args.len() == 0 {
        Seq::empty()
    } else {
        let front = spec_trimmed_args(args.drop_last());
        let t = spec_trim(args.last()@);
        if t.len() > 0 {
            front.push(t)
        } else {
            front
        }
    }
}

/// The JVM arguments that a Fabric profile adds.
pub open spec fn spec_fabric_jvm_args(profile: Option<FabricProfile>) -> Seq<Seq<char>> {
    match profile {
        Some(p) => match p.arguments {
            Some(a) => spec_trimmed_args(a.jvm@),
            None => Seq::empty(),
        },
        None => Seq::empty(),
    }
}

/// The JVM arguments before the classpath.
pub open spec fn spec_jvm_args(options: LaunchOptions, natives_dir: Seq<char>) -> Seq<Seq<char>> {
    seq![
        "-Xmx"@ + spec_decimal(options.max_ram_mb as nat) + "M"@,
        "-Xms"@ + spec_decimal(options.min_ram_mb as nat) + "M"@,
        "-Djava.library.path="@ + natives_dir,
        "-Djna.tmpdir="@ + natives_dir,
        "-Dorg.lwjgl.system.SharedLibraryExtractPath="@ + natives_dir,
        "-Dio.netty.native.workdir="@ + natives_dir,
        "-Dminecraft.launcher.brand=Lynara"@,
        "-Dminecraft.launcher.version=2.0"@,
        "--add-opens=java.base/java.util=ALL-UNNAMED"@,
        "--add-opens=java.base/java.util.jar=ALL-UNNAMED"@,
        "--add-opens=java.base/java.lang=ALL-UNNAMED"@,
        "--add-opens=java.base/java.lang.reflect=ALL-UNNAMED"@,
        "--add-opens=java.base/java.io=ALL-UNNAMED"@,
        "--add-opens=java.base/sun.nio.ch=ALL-UNNAMED"@,
    ]
}

/// The class whose `main` starts the game: Fabric's when a Fabric profile is
/// set, the version's otherwise.
pub open spec fn spec_main_class(options: LaunchOptions, manifest: VersionManifest) -> Seq<char> {
    match options.fabric_profile {
        Some(p) => p.main_class@,
        None => manifest.main_class@,
    }
}

/// The game arguments after the main class.
pub open spec fn spec_game_args(
    options: LaunchOptions,
    manifest: VersionManifest,
    game_dir: Seq<char>,
    assets_dir: Seq<char>,
) -> Seq<Seq<char>> {
    seq![
        "--username"@,
        options.username@,
        "--version"@,
        manifest.id@,
        "--gameDir"@,
        game_dir,
        "--assetsDir"@,
        assets_dir,
        "--assetIndex"@,
        manifest.asset_index.id@,
        "--uuid"@,
        options.uuid@,
        "--accessToken"@,
        options.access_token@,
        "--clientId"@,
        ""@,
        "--xuid"@,
        ""@,
        "--userType"@,
        "msa"@,
        "--versionType"@,
        "release"@,
    ] + match options.server_address {
        Some(s) => seq!["--quickPlayMultiplayer"@, s@],
        None => Seq::empty(),
    }
}

/// The arguments given to Java to start the game: JVM arguments, Fabric's JVM
/// arguments, the classpath, the main class, then the game arguments.
pub open spec fn spec_launch_arguments(
    options: LaunchOptions,
    manifest: VersionManifest,
    classpath: Seq<char>,
    natives_dir: Seq<char>,
    game_dir: Seq<char>,
    assets_dir: Seq<char>,
) -> Seq<Seq<char>> {
    spec_jvm_args(options, natives_dir) + spec_fabric_jvm_args(options.fabric_profile) + seq![
        "-cp"@,
        classpath,
        spec_main_class(options, manifest),
    ] + spec_game_args(options, manifest, game_dir, assets_dir)
}

fn push_owned(out: &mut Vec<String>, s: &str)
    ensures
        string_views(final(out)@) == string_views(old(out)@).push(s@),
{
    out.push(owned(s));
    assert(string_views(out@) =~= string_views(old(out)@).push(s@));
}

fn push_prefixed(out: &mut Vec<String>, prefix: &str, s: &str)
    ensures
        string_views(final(out)@) == string_views(old(out)@).push(prefix@ + s@),
{
    out.push(concat_text(prefix, s));
    assert(string_views(out@) =~= string_views(old(out)@).push(prefix@ + s@));
}

fn push_memory(out: &mut Vec<String>, flag: &str, mb: u32)
    ensures
        string_views(final(out)@) == string_views(old(out)@).push(
            flag@ + spec_decimal(mb as nat) + "M"@,
        ),
{
    let mut v = chars_of(flag);
    push_decimal(&mut v, mb as u64);
    extend_str(&mut v, "M");
    out.push(string_of(&v));
    assert(string_views(out@) =~= string_views(old(out)@).push(
        flag@ + spec_decimal(mb as nat) + "M"@,
    ));
}

fn jvm_args(options: &LaunchOptions, natives_dir: &str) -> (r: Vec<String>)
    ensures
        string_views(r@) == spec_jvm_args(*options, natives_dir@),
{
    let mut out: Vec<String> = Vec::new();
    push_memory(&mut out, "-Xmx", options.max_ram_mb);
    push_memory(&mut out, "-Xms", options.min_ram_mb);
    push_prefixed(&mut out, "-Djava.library.path=", natives_dir);
    push_prefixed(&mut out, "-Djna.tmpdir=", natives_dir);
    push_prefixed(&mut out, "-Dorg.lwjgl.system.SharedLibraryExtractPath=", natives_dir);
    push_prefixed(&mut out, "-Dio.netty.native.workdir=", natives_dir);
    push_owned(&mut out, "-Dminecraft.launcher.brand=Lynara");
    push_owned(&mut out, "-Dminecraft.launcher.version=2.0");
    push_owned(&mut out, "--add-opens=java.base/java.util=ALL-UNNAMED");
    push_owned(&mut out, "--add-opens=java.base/java.util.jar=ALL-UNNAMED");
    push_owned(&mut out, "--add-opens=java.base/java.lang=ALL-UNNAMED");
    push_owned(&mut out, "--add-opens=java.base/java.lang.reflect=ALL-UNNAMED");
    push_owned(&mut out, "--add-opens=java.base/java.io=ALL-UNNAMED");
    push_owned(&mut out, "--add-opens=java.base/sun.nio.ch=ALL-UNNAMED");
    assert(string_views(out@) =~= spec_jvm_args(*options, natives_dir@));
    out
}

fn fabric_jvm_args(profile: &Option<FabricProfile>, out: &mut Vec<String>)
    ensures
        string_views(final(out)@) == string_views(old(out)@) + spec_fabric_jvm_args(*profile),
{
    if let Some(p) = profile {
        if let Some(args) = &p.arguments {
            let mut i: usize = 0;
            while i < args.jvm.len()
                invariant
                    i <= args.jvm@.len(),
                    string_views(out@) == string_views(old(out)@) + spec_trimmed_args(
                        args.jvm@.take(i as int),
                    ),
                decreases args.jvm@.len() - i,
            {
                let raw = chars_of(args.jvm[i].as_str());
                let t = trim(&raw);
                assert(args.jvm@.take(i + 1).drop_last() =~= args.jvm@.take(i as int));
                assert(args.jvm@.take(i + 1).last() == args.jvm@[i as int]);
                let ghost prev = spec_trimmed_args(args.jvm@.take(i as int));
                assert(t@ == spec_trim(args.jvm@.take(i + 1).last()@));
                assert(spec_trimmed_args(args.jvm@.take(i + 1)) == (if t@.len() > 0 {
                    prev.push(t@)
                } else {
                    prev
                }));
                let ghost seen = string_views(out@);
                if t.len() > 0 {
                    out.push(string_of(&t));
                    assert(string_views(out@) =~= seen.push(t@));
                }
                i = i + 1;
                assert(string_views(out@) =~= string_views(old(out)@) + spec_trimmed_args(
                    args.jvm@.take(i as int),
                ));
            }
            assert(args.jvm@.take(args.jvm@.len() as int) =~= args.jvm@);
            return ;
        }
    }
    assert(string_views(out@) =~= string_views(old(out)@) + spec_fabric_jvm_args(*profile));
}

fn game_args(
    options: &LaunchOptions,
    manifest: &VersionManifest,
    game_dir: &str,
    assets_dir: &str,
    out: &mut Vec<String>,
)
    ensures
        string_views(final(out)@) == string_views(old(out)@) + spec_game_args(
            *options,
            *manifest,
            game_dir@,
            assets_dir@,
        ),
{
    let ghost before = string_views(out@);
    push_owned(out, "--username");
    push_owned(out, options.username.as_str());
    push_owned(out, "--version");
    push_owned(out, manifest.id.as_str());
    push_owned(out, "--gameDir");
    push_owned(out, game_dir);
    push_owned(out, "--assetsDir");
    push_owned(out, assets_dir);
    push_owned(out, "--assetIndex");
    push_owned(out, manifest.asset_index.id.as_str());
    push_owned(out, "--uuid");
    push_owned(out, options.uuid.as_str());
    push_owned(out, "--accessToken");
    push_owned(out, options.access_token.as_str());
    push_owned(out, "--clientId");
    push_owned(out, "");
    push_owned(out, "--xuid");
    push_owned(out, "");
    push_owned(out, "--userType");
    push_owned(out, "msa");
    push_owned(out, "--versionType");
    push_owned(out, "release");
    if let Some(server) = &options.server_address {
        push_owned(out, "--quickPlayMultiplayer");
        push_owned(out, server.as_str());
    }
    assert(string_views(out@) =~= before + spec_game_args(
        *options,
        *manifest,
        game_dir@,
        assets_dir@,
    ));
}

/// The arguments given to Java to start `manifest`'s version with `options`;
/// `classpath`, `natives_dir`, `game_dir` and `assets_dir` are the rendered
/// classpath and folders.
pub fn launch_arguments(
    options: &LaunchOptions,
    manifest: &VersionManifest,
    classpath: &str,
    natives_dir: &str,
    game_dir: &str,
    assets_dir: &str,
) -> (r: Vec<String>)
    ensures
        string_views(r@) == spec_launch_arguments(
            *options,
            *manifest,
            classpath@,
            natives_dir@,
            game_dir@,
            assets_dir@,
        ),
{
    let mut out = jvm_args(options, natives_dir);
    fabric_jvm_args(&options.fabric_profile, &mut out);
    push_owned(&mut out, "-cp");
    push_owned(&mut out, classpath);
    match &options.fabric_profile {
        Some(p) => push_owned(&mut out, p.main_class.as_str()),
        None => push_owned(&mut out, manifest.main_class.as_str()),
    }
    game_args(options, manifest, game_dir, assets_dir, &mut out);
    assert(string_views(out@) =~= spec_launch_arguments(
        *options,
        *manifest,
        classpath@,
        natives_dir@,
        game_dir@,
        assets_dir@,
    ));
    out
}


/// Whether `jar` is the artifact jar (its given path, or its Maven path) of a
/// library whose OS rules allow the platform.
pub open spec fn spec_allowed_artifact_jar(platform: Platform, lib: Library, jar: Seq<char>) -> bool {
    spec_library_allowed(platform, lib) && match lib.downloads {
        Some(d) => match d.artifact {
            Some(a) => jar == match a.path {
                Some(p) => p@,
                None => spec_maven_path(lib.name@),
            },
            None => false,
        },
        None => false,
    }
}

/// The vanilla part of the classpath holds only libraries that apply on the
/// platform: each of its jars is the artifact jar of a library whose OS rules
/// allow the platform; when no library is allowed, it is empty.
pub proof fn lemma_classpath_only_allowed_libraries(platform: Platform, libs: Seq<Library>)
    ensures
        forall|k: int|
            0 <= k < spec_vanilla_jars(platform, libs).len() ==> exists|i: int|
                0 <= i < libs.len() && spec_allowed_artifact_jar(
                    platform,
                    #[trigger] libs[i],
                    #[trigger] spec_vanilla_jars(platform, libs)[k],
                ),
        (forall|i: int| 0 <= i < libs.len() ==> !spec_library_allowed(platform, #[trigger] libs[i]))
            ==> spec_vanilla_jars(platform, libs).len() == 0,
    decreases libs.len(),
{
    if libs.len() > 0 {
        let front = libs.drop_last();
        lemma_classpath_only_allowed_libraries(platform, front);
        let fj = spec_vanilla_jars(platform, front);
        let all = spec_vanilla_jars(platform, libs);
        assert forall|k: int| 0 <= k < all.len() implies exists|i: int|
            0 <= i < libs.len() && spec_allowed_artifact_jar(platform, #[trigger] libs[i], #[trigger] all[k]) by {
            if k < fj.len() {
                assert(all[k] == fj[k]);
                let i = choose|i: int|
                    0 <= i < front.len() && spec_allowed_artifact_jar(platform, #[trigger] front[i], #[trigger] fj[k]);
                assert(libs[i] == front[i]);
            } else {
                assert(libs[libs.len() - 1] == libs.last());
                assert(spec_allowed_artifact_jar(platform, libs[libs.len() - 1], all[k]));
            }
        }
        if forall|i: int| 0 <= i < libs.len() ==> !spec_library_allowed(platform, #[trigger] libs[i]) {
            assert forall|i: int| 0 <= i < front.len() implies !spec_library_allowed(
                platform,
                #[trigger] front[i],
            ) by {
                assert(front[i] == libs[i]);
            }
            assert(!spec_library_allowed(platform, libs[libs.len() - 1]));
        }
    }
}

} // verus!
