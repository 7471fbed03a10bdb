//! Lynara's bundled content, installed from Modrinth: which projects, where
//! each kind goes, which release and file to take, and which files already in
//! place belong to a project. The requests and file operations run outside
//! this library.
//!
//!   - Mods            (mods/ folder, fabric loader)         : Sodium, Iris
//!   - Shader packs    (shaderpacks/ folder, iris loader)    : Complementary Reimagined
//!   - Resource packs  (resourcepacks/ folder, no loader)    : Excalibur

use vstd::prelude::*;

use crate::minecraft::paths::{same_in_folder, spec_same_in_folder};
use crate::minecraft::Platform;

use crate::text::{
    chars_of, ends_with_ignore_ascii_case, extend_str, owned, spec_ends_with_ignore_ascii_case,
    spec_starts_with, starts_with, str_eq, string_of,
};

verus! {

#[derive(Debug, Clone, Copy, PartialEq, Eq, Structural)]
pub enum AssetKind {
    /// Fabric mod, goes in mods/ folder, filtered by loaders=["fabric"]
    Mod,
    /// Shader pack, goes in shaderpacks/ folder, filtered by loaders=["iris"]
    Shader,
    /// Resource pack, goes in resourcepacks/ folder, filtered by loaders=["minecraft"]
    ResourcePack,
}

/// The Modrinth loader that content of a kind is filtered by.
pub open spec fn spec_loader_filter(kind: AssetKind) -> Seq<char> {
    match kind {
        AssetKind::Mod => "fabric"@,
        AssetKind::Shader => "iris"@,
        AssetKind::ResourcePack => "minecraft"@,
    }
}

impl AssetKind {
    /// The game folder that holds content of this kind.
    pub fn folder(&self) -> (r: &'static str)
        ensures
            r@ == match *self {
                AssetKind::Mod => "mods"@,
                AssetKind::Shader => "shaderpacks"@,
                AssetKind::ResourcePack => "resourcepacks"@,
            },
    {
        match self {
            AssetKind::Mod => "mods",
            AssetKind::Shader => "shaderpacks",
            AssetKind::ResourcePack => "resourcepacks",
        }
    }

    /// The Modrinth loader that content of this kind is filtered by.
    pub fn loader_filter(&self) -> (r: &'static str)
        ensures
            r@ == spec_loader_filter(*self),
    {
        match self {
            AssetKind::Mod => "fabric",
            AssetKind::Shader => "iris",
            AssetKind::ResourcePack => "minecraft",
        }
    }
}

/// Definition of an asset to install.
#[derive(Debug, Clone)]
pub struct AssetDef {
    pub kind: AssetKind,
    pub slug: String,
    pub display_name: String,
    /// Filename prefix used to detect an already-installed version
    /// and to clean up old versions when updating.
    pub filename_prefix: String,
}

/// Whether `d` is the definition with the given kind and texts.
pub open spec fn spec_asset_def(
    d: AssetDef,
    kind: AssetKind,
    slug: Seq<char>,
    display_name: Seq<char>,
    prefix: Seq<char>,
) -> bool {
    d.kind == kind && d.slug@ == slug && d.display_name@ == display_name && d.filename_prefix@ == prefix
}

fn asset_def(kind: AssetKind, slug: &str, display_name: &str, prefix: &str) -> (r: AssetDef)
    ensures
        spec_asset_def(r, kind, slug@, display_name@, prefix@),
{
    AssetDef {
        kind,
        slug: owned(slug),
        display_name: owned(display_name),
        filename_prefix: owned(prefix),
    }
}

/// Master list of everything Lynara installs automatically: the Sodium and
/// Iris mods, the Complementary Reimagined shader pack and the Excalibur
/// resource pack.
pub fn lynara_assets() -> (r: Vec<AssetDef>)
    ensures
        r@.len() == 4,
        spec_asset_def(r@[0], AssetKind::Mod, "sodium"@, "Sodium"@, "sodium-fabric"@),
        spec_asset_def(r@[1], AssetKind::Mod, "iris"@, "Iris Shaders"@, "iris-fabric"@),
        spec_asset_def(
            r@[2],
            AssetKind::Shader,
            "complementary-reimagined"@,
            "Complementary Reimagined"@,
            "ComplementaryReimagined"@,
        ),
        spec_asset_def(r@[3], AssetKind::ResourcePack, "excal"@, "Excalibur"@, "Excalibur"@),
{
    let mut v: Vec<AssetDef> = Vec::new();
    v.push(asset_def(AssetKind::Mod, "sodium", "Sodium", "sodium-fabric"));
    v.push(asset_def(AssetKind::Mod, "iris", "Iris Shaders", "iris-fabric"));
    v.push(
        asset_def(
            AssetKind::Shader,
            "complementary-reimagined",
            "Complementary Reimagined",
            "ComplementaryReimagined",
        ),
    );
    v.push(asset_def(AssetKind::ResourcePack, "excal", "Excalibur", "Excalibur"));
    v
}

/// The release type assumed for a Modrinth version that states none.
pub fn default_release() -> (r: String)
    ensures
        r@ == "release"@,
{
    owned("release")
}

/// A version of a Modrinth project.
#[derive(Debug, Clone)]
pub struct ModrinthVersion {
    pub id: String,
    pub name: String,
    pub version_number: String,
    pub files: Vec<ModrinthFile>,
    pub game_versions: Vec<String>,
    pub loaders: Vec<String>,
    pub version_type: String,
    pub date_published: String,
}

/// A file of a Modrinth version.
#[derive(Debug, Clone)]
pub struct ModrinthFile {
    pub hashes: ModrinthHashes,
    pub url: String,
    pub filename: String,
    pub primary: bool,
    pub size: u64,
}

#[derive(Debug, Clone)]
pub struct ModrinthHashes {
    pub sha1: String,
}

/// The Modrinth query for the versions of a project for one loader and one
/// Minecraft version (the lists written as URL-encoded JSON arrays).
pub fn modrinth_versions_url(slug: &str, loader: &str, minecraft_version: &str) -> (r: String)
    ensures
        r@ == "https://api.modrinth.com/v2/project/"@ + slug@ + "/version?loaders=%5B%22"@
            + loader@ + "%22%5D&game_versions=%5B%22"@ + minecraft_version@ + "%22%5D"@,
{
    let mut out = chars_of("https://api.modrinth.com/v2/project/");
    extend_str(&mut out, slug);
    extend_str(&mut out, "/version?loaders=%5B%22");
    extend_str(&mut out, loader);
    extend_str(&mut out, "%22%5D&game_versions=%5B%22");
    extend_str(&mut out, minecraft_version);
    extend_str(&mut out, "%22%5D");
    string_of(&out)
}

/// Whether `i` is the version to install: the first `release`, or the first
/// version when none is a release.
pub open spec fn spec_chosen_version(versions: Seq<ModrinthVersion>, i: int) -> bool {
    &&& 0 <= i < versions.len()
    &&& forall|j: int| 0 <= j < i ==> (#[trigger] versions[j]).version_type@ != "release"@
    &&& (versions[i].version_type@ == "release"@ || (i == 0 && forall|j: int|
        0 <= j < versions.len() ==> (#[trigger] versions[j]).version_type@ != "release"@))
}

/// Whether `j` is the file to download: the first primary file, or the
/// first file when none is primary.
pub open spec fn spec_chosen_file(files: Seq<ModrinthFile>, j: int) -> bool {
    &&& 0 <= j < files.len()
    &&& forall|k: int| 0 <= k < j ==> !(#[trigger] files[k]).primary
    &&& (files[j].primary || (j == 0 && forall|k: int| 0 <= k < files.len() ==> !(#[trigger] files[k]).primary))
}

/// The version installed is the newest release: Modrinth lists versions
/// newest first, and the chosen one is a release whenever any is, with no
/// release listed before it; when none is a release, it is the first listed.
/// In particular a release listed first is always the one chosen.
pub proof fn lemma_newest_release_chosen(versions: Seq<ModrinthVersion>, i: int)
    requires
        spec_chosen_version(versions, i),
    ensures
        0 <= i < versions.len(),
        forall|r: int|
            0 <= r < versions.len() && (#[trigger] versions[r]).version_type@ == "release"@ ==> i <= r
                && versions[i].version_type@ == "release"@,
        versions[0].version_type@ == "release"@ ==> i == 0,
        (forall|r: int| 0 <= r < versions.len() ==> (#[trigger] versions[r]).version_type@ != "release"@)
            ==> i == 0,
{
    if versions[0].version_type@ == "release"@ && i > 0 {
        assert(versions[0].version_type@ != "release"@);
    }
}

/// The file installed is the primary file of the chosen version, or its
/// first file when none is primary: a primary file listed first is always
/// the one chosen.
pub proof fn lemma_primary_file_chosen(files: Seq<ModrinthFile>, j: int)
    requires
        spec_chosen_file(files, j),
    ensures
        0 <= j < files.len(),
        forall|r: int| 0 <= r < files.len() && (#[trigger] files[r]).primary ==> j <= r && files[j].primary,
        files[0].primary ==> j == 0,
        (forall|r: int| 0 <= r < files.len() ==> !(#[trigger] files[r]).primary) ==> j == 0,
{
    if files[0].primary && j > 0 {
        assert(!files[0].primary);
    }
}

/// The file to install among the versions Modrinth listed: none when it
/// listed no version, an error when the chosen version has no file.
pub fn choose_download<'a>(versions: &'a Vec<ModrinthVersion>) -> (r: Result<
    Option<&'a ModrinthFile>,
    String,
>)
    ensures
        match r {
            Ok(None) => versions@.len() == 0,
            Ok(Some(f)) => exists|i: int, j: int|
                spec_chosen_version(versions@, i) && spec_chosen_file(versions@[i].files@, j)
                    && versions@[i].files@[j] == *f,
            Err(m) => m@ == "No file in chosen version"@ && exists|i: int|
                spec_chosen_version(versions@, i) && versions@[i].files@.len() == 0,
        },
{
    if versions.len() == 0 {
        return Ok(None);
    }
    let mut i: usize = 0;
    while i < versions.len() && !str_eq(versions[i].version_type.as_str(), "release")
        invariant
            i <= versions@.len(),
            versions@.len() > 0,
            forall|j: int| 0 <= j < i ==> (#[trigger] versions@[j]).version_type@ != "release"@,
        decreases versions@.len() - i,
    {
        i = i + 1;
    }
    let chosen: usize = if i < versions.len() {
        i
    } else {
        0
    };
    assert(spec_chosen_version(versions@, chosen as int));
    let files = &versions[chosen].files;
    if files.len() == 0 {
        return Err(owned("No file in chosen version"));
    }
    let mut k: usize = 0;
    while k < files.len() && !files[k].primary
        invariant
            k <= files@.len(),
            files@.len() > 0,
            forall|j: int| 0 <= j < k ==> !(#[trigger] files@[j]).primary,
        decreases files@.len() - k,
    {
        k = k + 1;
    }
    let pick: usize = if k < files.len() {
        k
    } else {
        0
    };
    assert(spec_chosen_file(files@, pick as int));
    Ok(Some(&files[pick]))
}

/// Whether a file in a content folder belongs to an asset: its name starts
/// with the asset's prefix (case-sensitively) and ends in `.jar` or `.zip` in
/// any ASCII case. (Unicode lower-casing decides the same for these
/// suffixes: no other character lower-cases to one of their letters.)
pub open spec fn spec_is_asset_file(name: Seq<char>, prefix: Seq<char>) -> bool {
    spec_starts_with(name, prefix) && (spec_ends_with_ignore_ascii_case(name, ".jar"@)
        || spec_ends_with_ignore_ascii_case(name, ".zip"@))
}

/// Whether a file name designates an installed version of an asset.
pub fn is_asset_file(name: &str, prefix: &str) -> (r: bool)
    ensures
        r == spec_is_asset_file(name@, prefix@),
{
    let n = chars_of(name);
    let p = chars_of(prefix);
    if !starts_with(&n, &p) {
        return false;
    }
    let jar = chars_of(".jar");
    let zip = chars_of(".zip");
    ends_with_ignore_ascii_case(&n, &jar) || ends_with_ignore_ascii_case(&n, &zip)
}


/// Whether `r` is the first name of `names` that designates an installed
/// version of the asset with `prefix`, or none when no name does.
pub open spec fn spec_first_asset_file(names: Seq<String>, prefix: Seq<char>, r: Option<String>) -> bool {
    match r {
        Some(n) => exists|i: int|
            0 <= i < names.len() && names[i]@ == n@ && spec_is_asset_file(names[i]@, prefix)
                && forall|j: int| 0 <= j < i ==> !spec_is_asset_file(#[trigger] names[j]@, prefix),
        None => forall|j: int| 0 <= j < names.len() ==> !spec_is_asset_file(#[trigger] names[j]@, prefix),
    }
}

/// The file of an asset already in its folder: the first name, in listing
/// order, that designates an installed version of the asset (see
/// `is_asset_file`); none when no name does.
pub fn first_asset_file(names: &Vec<String>, prefix: &str) -> (r: Option<String>)
    ensures
        spec_first_asset_file(names@, prefix@, r),
{
    let mut i: usize = 0;
    while i < names.len()
        invariant
            i <= names@.len(),
            forall|j: int| 0 <= j < i ==> !spec_is_asset_file(#[trigger] names@[j]@, prefix@),
        decreases names@.len() - i,
    {
        if is_asset_file(names[i].as_str(), prefix) {
            return Some(names[i].clone());
        }
        i = i + 1;
    }
    None
}

// =====================================================================
// INSTALLING ONE ASSET, STEP BY STEP
// =====================================================================

/// How the installation of one asset ended.
#[derive(Debug)]
pub enum AssetStatus {
    /// The chosen file was already in place with the right SHA-1.
    AlreadyPresent(String),
    /// The chosen file was downloaded.
    Downloaded(String),
    /// Modrinth lists no version for this Minecraft version and loader.
    NoVersionAvailable,
}

/// The file chosen for download: where it is served, its name, its SHA-1.
#[derive(Debug)]
pub struct ChosenFile {
    pub url: String,
    pub filename: String,
    pub sha1: String,
}

/// Whether `c` is the file `f`.
pub open spec fn spec_file_is(c: ChosenFile, f: ModrinthFile) -> bool {
    c.url@ == f.url@ && c.filename@ == f.filename@ && c.sha1@ == f.hashes.sha1@
}

/// Whether `c` is the file to install among `versions`.
pub open spec fn spec_chosen_download(versions: Seq<ModrinthVersion>, c: ChosenFile) -> bool {
    exists|i: int, j: int|
        #![trigger spec_chosen_version(versions, i), spec_chosen_file(versions[i].files@, j)]
        spec_chosen_version(versions, i) && spec_chosen_file(versions[i].files@, j) && spec_file_is(
            c,
            versions[i].files@[j],
        )
}

/// Whether the version to install has no file.
pub open spec fn spec_chosen_version_empty(versions: Seq<ModrinthVersion>) -> bool {
    exists|i: int| #[trigger] spec_chosen_version(versions, i) && versions[i].files@.len() == 0
}

/// Where the installation of one asset stands: before starting, waiting for
/// Modrinth's list of versions, for the file of the asset already in its
/// folder, for the check of that file's SHA-1, for the download, or done.
#[derive(Debug)]
pub enum AssetStep {
    Start,
    Listing,
    Inspecting { file: ChosenFile },
    Verifying { file: ChosenFile },
    Fetching { file: ChosenFile },
    Finished,
}

/// What the installation learns from the outside: that it may begin, the
/// versions Modrinth lists (or why it could not be asked), the name of the
/// first file of the asset in its folder (or why the folder could not be
/// read), whether that file's SHA-1 is the expected one, how the download went.
#[derive(Debug)]
pub enum AssetEvent {
    Begin,
    Listed { versions: Result<Vec<ModrinthVersion>, String> },
    Found { existing: Result<Option<String>, String> },
    Checked { matches: bool },
    Fetched { result: Result<(), String> },
}

/// What the installation asks of the outside: to list the versions at an
/// address, to look for a file of the asset by its name prefix, to check a
/// file's SHA-1, to download the chosen file (after removing another version),
/// or to stop with a result.
#[derive(Debug)]
pub enum AssetAction {
    List { url: String },
    FindExisting { prefix: String },
    CheckExisting { name: String, sha1: String },
    Fetch { remove: Option<String>, url: String, name: String, sha1: String },
    Finish { status: Result<AssetStatus, String> },
}

/// How far along the installation of an asset is.
pub open spec fn spec_asset_rank(step: AssetStep) -> int {
    match step {
        AssetStep::Start => 0,
        AssetStep::Listing => 1,
        AssetStep::Inspecting { .. } => 2,
        AssetStep::Verifying { .. } => 3,
        AssetStep::Fetching { .. } => 4,
        AssetStep::Finished => 5,
    }
}

/// Which event each step waits for.
pub open spec fn spec_asset_expects(step: AssetStep, event: AssetEvent) -> bool {
    match step {
        AssetStep::Start => event is Begin,
        AssetStep::Listing => event is Listed,
        AssetStep::Inspecting { .. } => event is Found,
        AssetStep::Verifying { .. } => event is Checked,
        AssetStep::Fetching { .. } => event is Fetched,
        AssetStep::Finished => false,
    }
}

/// Whether `a` downloads `file` after removing `remove`, when given.
pub open spec fn spec_fetches(a: AssetAction, file: ChosenFile, remove: Option<Seq<char>>) -> bool {
    a matches AssetAction::Fetch { remove: rm, url, name, sha1 } && url@ == file.url@ && name@
        == file.filename@ && sha1@ == file.sha1@ && match (rm, remove) {
        (None, None) => true,
        (Some(x), Some(y)) => x@ == y,
        _ => false,
    }
}

/// Whether `a` stops with the error `message`.
pub open spec fn spec_asset_fails(a: AssetAction, message: Seq<char>) -> bool {
    a matches AssetAction::Finish { status: Err(m) } && m@ == message
}

fn chosen_file(f: &ModrinthFile) -> (r: ChosenFile)
    ensures
        spec_file_is(r, *f),
{
    ChosenFile { url: f.url.clone(), filename: f.filename.clone(), sha1: f.hashes.sha1.clone() }
}

fn fetch(file: &ChosenFile, remove: Option<String>) -> (r: AssetAction)
    ensures
        spec_fetches(
            r,
            *file,
            match remove {
                Some(x) => Some(x@),
                None => None,
            },
        ),
{
    AssetAction::Fetch {
        remove,
        url: file.url.clone(),
        name: file.filename.clone(),
        sha1: file.sha1.clone(),
    }
}

proof fn lemma_chosen_version_unique(versions: Seq<ModrinthVersion>, i: int, k: int)
    requires
        spec_chosen_version(versions, i),
        spec_chosen_version(versions, k),
    ensures
        i == k,
{
    if i < k {
        assert(versions[i].version_type@ != "release"@);
    } else if k < i {
        assert(versions[k].version_type@ != "release"@);
    }
}

proof fn lemma_chosen_file_unique(files: Seq<ModrinthFile>, j: int, k: int)
    requires
        spec_chosen_file(files, j),
        spec_chosen_file(files, k),
    ensures
        j == k,
{
    if j < k {
        assert(!files[j].primary);
    } else if k < j {
        assert(!files[k].primary);
    }
}

/// Installing an asset again from the same list of Modrinth versions chooses
/// the same file: any two files chosen from one list have the same address,
/// name and SHA-1. So when that file is the one found in the folder (it is,
/// after an install that downloaded or kept it) and its SHA-1 still matches,
/// the second install keeps it and downloads nothing (`asset_transition`).
pub proof fn lemma_same_choice_again(versions: Seq<ModrinthVersion>, first: ChosenFile, again: ChosenFile)
    requires
        spec_chosen_download(versions, first),
        spec_chosen_download(versions, again),
    ensures
        again.url@ == first.url@,
        again.filename@ == first.filename@,
        again.sha1@ == first.sha1@,
{
    let (i1, j1) = choose|i: int, j: int|
        #![trigger spec_chosen_version(versions, i), spec_chosen_file(versions[i].files@, j)]
        spec_chosen_version(versions, i) && spec_chosen_file(versions[i].files@, j) && spec_file_is(
            first,
            versions[i].files@[j],
        );
    let (i2, j2) = choose|i: int, j: int|
        #![trigger spec_chosen_version(versions, i), spec_chosen_file(versions[i].files@, j)]
        spec_chosen_version(versions, i) && spec_chosen_file(versions[i].files@, j) && spec_file_is(
            again,
            versions[i].files@[j],
        );
    lemma_chosen_version_unique(versions, i1, i2);
    lemma_chosen_file_unique(versions[i1].files@, j1, j2);
}

/// Installing an asset a second time keeps the file the first install left:
/// when the first install ended with the chosen file `first` in the folder
/// (downloaded or kept), as the only file of the asset there, the second
/// install, given the same Modrinth versions, chooses a file with the same
/// name and SHA-1 (`again`), and the folder's listing names that very file.
/// By `asset_transition`, the second install then checks that file's SHA-1
/// and, as it still matches, ends with `AlreadyPresent` of that name without
/// any download or removal.
pub proof fn lemma_second_install_keeps_file(
    platform: Platform,
    versions: Seq<ModrinthVersion>,
    first: ChosenFile,
    again: ChosenFile,
    prefix: Seq<char>,
    names: Seq<String>,
    found: Option<String>,
)
    requires
        spec_chosen_download(versions, first),
        spec_chosen_download(versions, again),
        spec_is_asset_file(first.filename@, prefix),
        exists|i: int|
            0 <= i < names.len() && #[trigger] names[i]@ == first.filename@ && forall|j: int|
                0 <= j < names.len() && j != i ==> !spec_is_asset_file(#[trigger] names[j]@, prefix),
        spec_first_asset_file(names, prefix, found),
    ensures
        found matches Some(n) && n@ == first.filename@ && spec_same_in_folder(platform, n@, again.filename@),
        again.sha1@ == first.sha1@,
{
    lemma_same_choice_again(versions, first, again);
    let i = choose|i: int|
        0 <= i < names.len() && #[trigger] names[i]@ == first.filename@ && forall|j: int|
            0 <= j < names.len() && j != i ==> !spec_is_asset_file(#[trigger] names[j]@, prefix);
    assert(spec_is_asset_file(names[i]@, prefix));
    match found {
        Some(n) => {
            let k = choose|k: int|
                0 <= k < names.len() && names[k]@ == n@ && spec_is_asset_file(names[k]@, prefix)
                    && forall|j: int| 0 <= j < k ==> !spec_is_asset_file(#[trigger] names[j]@, prefix);
            assert(k == i);
        },
        None => {
            assert(!spec_is_asset_file(names[i]@, prefix));
        },
    }
}

/// One step of installing `asset` for `minecraft_version` into its folder:
/// from where it stands and what it just learned, the step it moves to and
/// what it asks for next. The chosen file (see `choose_download`) already in
/// place with the expected SHA-1 is kept and not downloaded again; another
/// version of the asset in the folder is removed before the download; an
/// empty list of versions ends with `NoVersionAvailable`. The file found
/// counts as the chosen one when the two names, joined onto the folder, are
/// the same path (`spec_same_in_folder`).
pub fn asset_transition(
    platform: Platform,
    asset: &AssetDef,
    minecraft_version: &str,
    step: AssetStep,
    event: AssetEvent,
) -> (r: (
    AssetStep,
    AssetAction,
))
    requires
        spec_asset_expects(step, event),
    ensures
        spec_asset_rank(r.0) > spec_asset_rank(step),
        (r.0 is Finished) == (r.1 is Finish),
        match event {
            AssetEvent::Begin => r.1 matches AssetAction::List { url } && url@
                == "https://api.modrinth.com/v2/project/"@ + asset.slug@ + "/version?loaders=%5B%22"@
                + spec_loader_filter(asset.kind) + "%22%5D&game_versions=%5B%22"@
                + minecraft_version@ + "%22%5D"@,
            AssetEvent::Listed { versions: Err(m) } => spec_asset_fails(r.1, m@),
            AssetEvent::Listed { versions: Ok(vs) } => if vs@.len() == 0 {
                r.1 matches AssetAction::Finish { status: Ok(AssetStatus::NoVersionAvailable) }
            } else if spec_chosen_version_empty(vs@) {
                spec_asset_fails(r.1, "No file in chosen version"@)
            } else {
                &&& r.0 matches AssetStep::Inspecting { file } && spec_chosen_download(vs@, file)
                &&& r.1 matches AssetAction::FindExisting { prefix } && prefix@
                    == asset.filename_prefix@
            },
            AssetEvent::Found { existing: Err(m) } => spec_asset_fails(r.1, m@),
            AssetEvent::Found { existing: Ok(found) } => step matches AssetStep::Inspecting { file }
                && match found {
                None => {
                    &&& r.0 == (AssetStep::Fetching { file })
                    &&& spec_fetches(r.1, file, None)
                },
                Some(n) => if spec_same_in_folder(platform, n@, file.filename@) {
                    &&& r.0 == (AssetStep::Verifying { file })
                    &&& r.1 matches AssetAction::CheckExisting { name, sha1 } && name@ == n@ && sha1@
                        == file.sha1@
                } else {
                    &&& r.0 == (AssetStep::Fetching { file })
                    &&& spec_fetches(r.1, file, Some(n@))
                },
            },
            AssetEvent::Checked { matches } => step matches AssetStep::Verifying { file } && if matches {
                r.1 matches AssetAction::Finish { status: Ok(AssetStatus::AlreadyPresent(name)) }
                    && name@ == file.filename@
            } else {
                &&& r.0 == (AssetStep::Fetching { file })
                &&& spec_fetches(r.1, file, None)
            },
            AssetEvent::Fetched { result: Err(m) } => spec_asset_fails(r.1, m@),
            AssetEvent::Fetched { result: Ok(()) } => step matches AssetStep::Fetching { file }
                && r.1 matches AssetAction::Finish { status: Ok(AssetStatus::Downloaded(name)) }
                && name@ == file.filename@,
        },
{
    match (step, event) {
        (AssetStep::Start, AssetEvent::Begin) => {
            let url = modrinth_versions_url(
                asset.slug.as_str(),
                asset.kind.loader_filter(),
                minecraft_version,
            );
            (AssetStep::Listing, AssetAction::List { url })
        },
        (AssetStep::Listing, AssetEvent::Listed { versions }) => match versions {
            Err(m) => (AssetStep::Finished, AssetAction::Finish { status: Err(m) }),
            Ok(vs) => match choose_download(&vs) {
                Ok(None) => (
                    AssetStep::Finished,
                    AssetAction::Finish { status: Ok(AssetStatus::NoVersionAvailable) },
                ),
                Err(m) => (AssetStep::Finished, AssetAction::Finish { status: Err(m) }),
                Ok(Some(f)) => {
                    let file = chosen_file(f);
                    proof {
                        if spec_chosen_version_empty(vs@) {
                            let k = choose|k: int| #[trigger]
                                spec_chosen_version(vs@, k) && vs@[k].files@.len() == 0;
                            let (i, j) = choose|i: int, j: int|
                                #![trigger spec_chosen_version(vs@, i), spec_chosen_file(vs@[i].files@, j)]
                                spec_chosen_version(vs@, i) && spec_chosen_file(vs@[i].files@, j)
                                    && vs@[i].files@[j] == *f;
                            lemma_chosen_version_unique(vs@, i, k);
                        }
                    }
                    (
                        AssetStep::Inspecting { file },
                        AssetAction::FindExisting { prefix: asset.filename_prefix.clone() },
                    )
                },
            },
        },
        (AssetStep::Inspecting { file }, AssetEvent::Found { existing }) => match existing {
            Err(m) => (AssetStep::Finished, AssetAction::Finish { status: Err(m) }),
            Ok(None) => {
                let a = fetch(&file, None);
                (AssetStep::Fetching { file }, a)
            },
            Ok(Some(n)) => {
                if same_in_folder(platform, n.as_str(), file.filename.as_str()) {
                    let sha1 = file.sha1.clone();
                    (AssetStep::Verifying { file }, AssetAction::CheckExisting { name: n, sha1 })
                } else {
                    let a = fetch(&file, Some(n));
                    (AssetStep::Fetching { file }, a)
                }
            },
        },
        (AssetStep::Verifying { file }, AssetEvent::Checked { matches }) => {
            if matches {
                (
                    AssetStep::Finished,
                    AssetAction::Finish { status: Ok(AssetStatus::AlreadyPresent(file.filename)) },
                )
            } else {
                let a = fetch(&file, None);
                (AssetStep::Fetching { file }, a)
            }
        },
        (AssetStep::Fetching { file }, AssetEvent::Fetched { result }) => match result {
            Err(m) => (AssetStep::Finished, AssetAction::Finish { status: Err(m) }),
            Ok(()) => (
                AssetStep::Finished,
                AssetAction::Finish { status: Ok(AssetStatus::Downloaded(file.filename)) },
            ),
        },
        (_, _) => {
            proof {
                assert(false);
            }
            (AssetStep::Finished, AssetAction::Finish { status: Ok(AssetStatus::NoVersionAvailable) })
        },
    }
}

} // verus!
