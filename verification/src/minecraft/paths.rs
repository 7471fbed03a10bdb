//! Every filesystem location the launcher uses, under one root folder:
//!
//!   .lynara/
//!     versions/<id>/<id>.json and <id>.jar
//!     libraries/            (Maven layout)
//!     assets/indexes/ and assets/objects/
//!     natives/<id>/
//!     java/
//!     logs/
//!
//! The root is the user's configuration folder on Windows and macOS and the
//! home folder elsewhere, followed by `.lynara`.

use std::path::PathBuf;
use vstd::prelude::*;

use crate::minecraft::{custom_error, spec_custom_error, McError, Platform};
use crate::text::{
    chars_eq, chars_of, extend_chars, extend_str, replace_char, spec_replace, spec_split, split_chars, string_of,
};

verus! {

#[verifier::external_type_specification]
#[verifier::external_body]
pub struct ExPathBuf(PathBuf);

/// Calls `Clone::clone` on a `PathBuf`. Claimed: the copy is the same path.
#[verifier::external_body]
fn clone_path_buf(p: &PathBuf) -> (r: PathBuf)
    ensures
        r == *p,
{
    p.clone()
}

/// The user folder the launcher's root lies in.
#[derive(Debug, Clone, Copy, PartialEq, Eq, Structural)]
pub enum UserFolder {
    /// The user's configuration folder (`dirs::config_dir`).
    Config,
    /// The user's home folder (`dirs::home_dir`).
    Home,
}

/// The user folder the root lies in on a platform: the configuration folder
/// on Windows and macOS, the home folder elsewhere.
pub open spec fn spec_user_folder(platform: Platform) -> UserFolder {
    if platform == Platform::Windows || platform == Platform::MacOs {
        UserFolder::Config
    } else {
        UserFolder::Home
    }
}

/// The user folder the root lies in on a platform.
pub fn user_folder(platform: Platform) -> (k: UserFolder)
    ensures
        k == spec_user_folder(platform),
{
    if platform == Platform::Windows || platform == Platform::MacOs {
        UserFolder::Config
    } else {
        UserFolder::Home
    }
}

/// A user folder as the machine reports it: which one was asked for, and its
/// path when the machine has one.
pub struct UserBase {
    pub folder: UserFolder,
    pub path: Option<PathBuf>,
}

/// Calls `dirs::config_dir`. Claimed: the answer is tagged as the
/// configuration folder. Its path depends on the machine and its environment,
/// so nothing is claimed of it.
#[verifier::external_body]
fn config_dir() -> (r: UserBase)
    ensures
        r.folder == UserFolder::Config,
{
    UserBase { folder: UserFolder::Config, path: dirs::config_dir() }
}

/// Calls `dirs::home_dir`. Claimed: the answer is tagged as the home folder.
/// Its path depends on the machine and its environment, so nothing is
/// claimed of it.
#[verifier::external_body]
fn home_dir() -> (r: UserBase)
    ensures
        r.folder == UserFolder::Home,
{
    UserBase { folder: UserFolder::Home, path: dirs::home_dir() }
}

/// A location: a base folder of the machine followed by relative components,
/// each joined onto the previous one as `Path::join` does.
#[derive(Debug)]
pub struct LauncherPath {
    pub base: PathBuf,
    /// The user folder the base is, when it is one.
    pub origin: Option<UserFolder>,
    pub segments: Vec<String>,
}

impl LauncherPath {
    /// The components after the base, as text.
    pub open spec fn parts(&self) -> Seq<Seq<char>> {
        self.segments@.map_values(|s: String| s@)
    }

    /// This location followed by one more component.
    pub fn join(self, segment: &str) -> (r: LauncherPath)
        ensures
            r.base == self.base,
            r.origin == self.origin,
            r.parts() == self.parts().push(segment@),
    {
        let mut segments = self.segments;
        let v = chars_of(segment);
        segments.push(string_of(&v));
        let r = LauncherPath { base: self.base, origin: self.origin, segments };
        assert(r.parts() =~= self.parts().push(segment@));
        r
    }

    /// A copy of this location.
    pub fn duplicate(&self) -> (r: LauncherPath)
        ensures
            r.base == self.base,
            r.origin == self.origin,
            r.parts() == self.parts(),
    {
        let mut segments: Vec<String> = Vec::new();
        let mut i: usize = 0;
        while i < self.segments.len()
            invariant
                i <= self.segments@.len(),
                segments@.len() == i,
                forall|k: int| 0 <= k < i ==> (#[trigger] segments@[k])@ == self.segments@[k]@,
            decreases self.segments@.len() - i,
        {
            segments.push(self.segments[i].clone());
            i = i + 1;
        }
        let r = LauncherPath { base: clone_path_buf(&self.base), origin: self.origin, segments };
        assert(r.parts() =~= self.parts());
        r
    }
}

/// The error given when no user folder can be found.
pub open spec fn spec_root_missing(e: McError) -> bool {
    spec_custom_error(e, "Impossible de localiser le dossier utilisateur"@)
}

/// Whether `r` is a location made of the platform's user folder (see
/// `spec_user_folder`), `.lynara` and then `rest`, or the error for a missing
/// user folder.
pub open spec fn spec_rooted(r: Result<LauncherPath, McError>, platform: Platform, rest: Seq<Seq<char>>) -> bool {
    match r {
        Ok(p) => p.origin == Some(spec_user_folder(platform)) && p.parts() == seq![".lynara"@] + rest,
        Err(e) => spec_root_missing(e),
    }
}

/// The launcher's root folder below the user folder `folder`, found at
/// `base`, or the error for a missing one.
pub fn root_dir_from(folder: UserFolder, base: Option<PathBuf>) -> (r: Result<LauncherPath, McError>)
    ensures
        match base {
            Some(b) => r matches Ok(p) && p.base == b && p.origin == Some(folder) && p.parts()
                == seq![".lynara"@],
            None => r matches Err(e) && spec_root_missing(e),
        },
{
    match base {
        Some(b) => {
            let p = LauncherPath { base: b, origin: Some(folder), segments: Vec::new() };
            Ok(p.join(".lynara"))
        },
        None => Err(custom_error("Impossible de localiser le dossier utilisateur")),
    }
}

/// Root directory: Windows = %APPDATA%\.lynara, Linux = ~/.lynara, macOS =
/// ~/Library/Application Support/.lynara: the user's configuration folder on
/// Windows and macOS, the home folder elsewhere, followed by `.lynara`.
pub fn root_dir(platform: Platform) -> (r: Result<LauncherPath, McError>)
    ensures
        spec_rooted(r, platform, Seq::empty()),
{
    let base = match user_folder(platform) {
        UserFolder::Config => config_dir(),
        UserFolder::Home => home_dir(),
    };
    let r = root_dir_from(base.folder, base.path);
    assert(seq![".lynara"@] + Seq::<Seq<char>>::empty() =~= seq![".lynara"@]);
    r
}

/// A version's manifest and client jar lie in that version's folder: whenever
/// the three locations are found under the same base, each file is the
/// version folder followed by its own name.
pub proof fn lemma_version_files_in_version_dir(
    platform: Platform,
    version_id: Seq<char>,
    dir: Result<LauncherPath, McError>,
    jar: Result<LauncherPath, McError>,
    json: Result<LauncherPath, McError>,
)
    requires
        spec_rooted(dir, platform, seq!["versions"@, version_id]),
        spec_rooted(jar, platform, seq!["versions"@, version_id, version_id + ".jar"@]),
        spec_rooted(json, platform, seq!["versions"@, version_id, version_id + ".json"@]),
    ensures
        dir matches Ok(d) ==> (jar matches Ok(j) ==> j.parts() == d.parts().push(version_id + ".jar"@)),
        dir matches Ok(d) ==> (json matches Ok(j) ==> j.parts() == d.parts().push(
            version_id + ".json"@,
        )),
{
    if let Ok(d) = dir {
        if let Ok(j) = jar {
            assert(j.parts() =~= d.parts().push(version_id + ".jar"@));
        }
        if let Ok(j) = json {
            assert(j.parts() =~= d.parts().push(version_id + ".json"@));
        }
    }
}

/// The text `id` followed by `suffix`.
pub fn with_suffix(id: &str, suffix: &str) -> (r: String)
    ensures
        r@ == id@ + suffix@,
{
    let mut v = chars_of(id);
    extend_str(&mut v, suffix);
    string_of(&v)
}

/// Whether `r` is the location `root` followed by `rest`.
pub open spec fn spec_under(root: LauncherPath, r: LauncherPath, rest: Seq<Seq<char>>) -> bool {
    r.base == root.base && r.origin == root.origin && r.parts() == root.parts() + rest
}

/// `root` followed by one component.
fn below1(root: &LauncherPath, a: &str) -> (r: LauncherPath)
    ensures
        spec_under(*root, r, seq![a@]),
{
    let r = root.duplicate().join(a);
    assert(r.parts() =~= root.parts() + seq![a@]);
    r
}

/// `root` followed by two components.
fn below2(root: &LauncherPath, a: &str, b: &str) -> (r: LauncherPath)
    ensures
        spec_under(*root, r, seq![a@, b@]),
{
    let r = root.duplicate().join(a).join(b);
    assert(r.parts() =~= root.parts() + seq![a@, b@]);
    r
}

/// `root` followed by three components.
fn below3(root: &LauncherPath, a: &str, b: &str, c: &str) -> (r: LauncherPath)
    ensures
        spec_under(*root, r, seq![a@, b@, c@]),
{
    let r = root.duplicate().join(a).join(b).join(c);
    assert(r.parts() =~= root.parts() + seq![a@, b@, c@]);
    r
}

/// The versions folder below a launcher root.
pub fn versions_dir_in(root: &LauncherPath) -> (r: LauncherPath)
    ensures
        spec_under(*root, r, seq!["versions"@]),
{
    below1(root, "versions")
}

/// A version's folder below a launcher root.
pub fn version_dir_in(root: &LauncherPath, version_id: &str) -> (r: LauncherPath)
    ensures
        spec_under(*root, r, seq!["versions"@, version_id@]),
{
    below2(root, "versions", version_id)
}

/// A version's client jar below a launcher root.
pub fn version_jar_in(root: &LauncherPath, version_id: &str) -> (r: LauncherPath)
    ensures
        spec_under(*root, r, seq!["versions"@, version_id@, version_id@ + ".jar"@]),
{
    let name = with_suffix(version_id, ".jar");
    below3(root, "versions", version_id, name.as_str())
}

/// A version's manifest below a launcher root.
pub fn version_json_in(root: &LauncherPath, version_id: &str) -> (r: LauncherPath)
    ensures
        spec_under(*root, r, seq!["versions"@, version_id@, version_id@ + ".json"@]),
{
    let name = with_suffix(version_id, ".json");
    below3(root, "versions", version_id, name.as_str())
}

/// The libraries folder below a launcher root.
pub fn libraries_dir_in(root: &LauncherPath) -> (r: LauncherPath)
    ensures
        spec_under(*root, r, seq!["libraries"@]),
{
    below1(root, "libraries")
}

/// The assets folder below a launcher root.
pub fn assets_dir_in(root: &LauncherPath) -> (r: LauncherPath)
    ensures
        spec_under(*root, r, seq!["assets"@]),
{
    below1(root, "assets")
}

/// The asset indexes folder below a launcher root.
pub fn assets_indexes_dir_in(root: &LauncherPath) -> (r: LauncherPath)
    ensures
        spec_under(*root, r, seq!["assets"@, "indexes"@]),
{
    below2(root, "assets", "indexes")
}

/// The asset objects folder below a launcher root.
pub fn assets_objects_dir_in(root: &LauncherPath) -> (r: LauncherPath)
    ensures
        spec_under(*root, r, seq!["assets"@, "objects"@]),
{
    below2(root, "assets", "objects")
}

/// A version's natives folder below a launcher root.
pub fn natives_dir_in(root: &LauncherPath, version_id: &str) -> (r: LauncherPath)
    ensures
        spec_under(*root, r, seq!["natives"@, version_id@]),
{
    below2(root, "natives", version_id)
}

/// The Java runtime folder below a launcher root.
pub fn java_runtime_dir_in(root: &LauncherPath) -> (r: LauncherPath)
    ensures
        spec_under(*root, r, seq!["java"@]),
{
    below1(root, "java")
}

/// The logs folder below a launcher root.
pub fn logs_dir_in(root: &LauncherPath) -> (r: LauncherPath)
    ensures
        spec_under(*root, r, seq!["logs"@]),
{
    below1(root, "logs")
}

/// The launcher root (see `root_dir`) followed by `versions_dir_in`'s components.
pub fn versions_dir(platform: Platform) -> (r: Result<LauncherPath, McError>)
    ensures
        spec_rooted(r, platform, seq!["versions"@]),
{
    let root = root_dir(platform)?;
    let r = versions_dir_in(&root);
    assert(r.parts() =~= seq![".lynara"@] + seq!["versions"@]);
    Ok(r)
}

/// The launcher root (see `root_dir`) followed by `version_dir_in`'s components.
pub fn version_dir(platform: Platform, version_id: &str) -> (r: Result<LauncherPath, McError>)
    ensures
        spec_rooted(r, platform, seq!["versions"@, version_id@]),
{
    let root = root_dir(platform)?;
    let r = version_dir_in(&root, version_id);
    assert(r.parts() =~= seq![".lynara"@] + seq!["versions"@, version_id@]);
    Ok(r)
}

/// The launcher root (see `root_dir`) followed by `version_jar_in`'s components.
pub fn version_jar(platform: Platform, version_id: &str) -> (r: Result<LauncherPath, McError>)
    ensures
        spec_rooted(r, platform, seq!["versions"@, version_id@, version_id@ + ".jar"@]),
{
    let root = root_dir(platform)?;
    let r = version_jar_in(&root, version_id);
    assert(r.parts() =~= seq![".lynara"@] + seq!["versions"@, version_id@, version_id@ + ".jar"@]);
    Ok(r)
}

/// The launcher root (see `root_dir`) followed by `version_json_in`'s components.
pub fn version_json(platform: Platform, version_id: &str) -> (r: Result<LauncherPath, McError>)
    ensures
        spec_rooted(r, platform, seq!["versions"@, version_id@, version_id@ + ".json"@]),
{
    let root = root_dir(platform)?;
    let r = version_json_in(&root, version_id);
    assert(r.parts() =~= seq![".lynara"@] + seq!["versions"@, version_id@, version_id@ + ".json"@]);
    Ok(r)
}

/// The launcher root (see `root_dir`) followed by `libraries_dir_in`'s components.
pub fn libraries_dir(platform: Platform) -> (r: Result<LauncherPath, McError>)
    ensures
        spec_rooted(r, platform, seq!["libraries"@]),
{
    let root = root_dir(platform)?;
    let r = libraries_dir_in(&root);
    assert(r.parts() =~= seq![".lynara"@] + seq!["libraries"@]);
    Ok(r)
}

/// The launcher root (see `root_dir`) followed by `assets_dir_in`'s components.
pub fn assets_dir(platform: Platform) -> (r: Result<LauncherPath, McError>)
    ensures
        spec_rooted(r, platform, seq!["assets"@]),
{
    let root = root_dir(platform)?;
    let r = assets_dir_in(&root);
    assert(r.parts() =~= seq![".lynara"@] + seq!["assets"@]);
    Ok(r)
}

/// The launcher root (see `root_dir`) followed by `assets_indexes_dir_in`'s components.
pub fn assets_indexes_dir(platform: Platform) -> (r: Result<LauncherPath, McError>)
    ensures
        spec_rooted(r, platform, seq!["assets"@, "indexes"@]),
{
    let root = root_dir(platform)?;
    let r = assets_indexes_dir_in(&root);
    assert(r.parts() =~= seq![".lynara"@] + seq!["assets"@, "indexes"@]);
    Ok(r)
}

/// The launcher root (see `root_dir`) followed by `assets_objects_dir_in`'s components.
pub fn assets_objects_dir(platform: Platform) -> (r: Result<LauncherPath, McError>)
    ensures
        spec_rooted(r, platform, seq!["assets"@, "objects"@]),
{
    let root = root_dir(platform)?;
    let r = assets_objects_dir_in(&root);
    assert(r.parts() =~= seq![".lynara"@] + seq!["assets"@, "objects"@]);
    Ok(r)
}

/// The launcher root (see `root_dir`) followed by `natives_dir_in`'s components.
pub fn natives_dir(platform: Platform, version_id: &str) -> (r: Result<LauncherPath, McError>)
    ensures
        spec_rooted(r, platform, seq!["natives"@, version_id@]),
{
    let root = root_dir(platform)?;
    let r = natives_dir_in(&root, version_id);
    assert(r.parts() =~= seq![".lynara"@] + seq!["natives"@, version_id@]);
    Ok(r)
}

/// The launcher root (see `root_dir`) followed by `java_runtime_dir_in`'s components.
pub fn java_runtime_dir(platform: Platform) -> (r: Result<LauncherPath, McError>)
    ensures
        spec_rooted(r, platform, seq!["java"@]),
{
    let root = root_dir(platform)?;
    let r = java_runtime_dir_in(&root);
    assert(r.parts() =~= seq![".lynara"@] + seq!["java"@]);
    Ok(r)
}

/// The launcher root (see `root_dir`) followed by `logs_dir_in`'s components.
pub fn logs_dir(platform: Platform) -> (r: Result<LauncherPath, McError>)
    ensures
        spec_rooted(r, platform, seq!["logs"@]),
{
    let root = root_dir(platform)?;
    let r = logs_dir_in(&root);
    assert(r.parts() =~= seq![".lynara"@] + seq!["logs"@]);
    Ok(r)
}


// =====================================================================
// COMPARING NAMES INSIDE ONE FOLDER
// =====================================================================

/// A name with the platform's separators written as `/`: on Windows `\\`
/// separates components too.
pub open spec fn spec_slashed(platform: Platform, name: Seq<char>) -> Seq<char> {
    if platform == Platform::Windows {
        spec_replace(name, '\\', '/')
    } else {
        name
    }
}

/// The pieces that count as components, as `Path::components` keeps them
/// after the start: empty pieces (repeated or trailing separators) and `.`
/// are left out.
pub open spec fn spec_kept_parts(pieces: Seq<Seq<char>>) -> Seq<Seq<char>>
    decreases pieces.len(),
{
    if pieces.len() == 0 {
        Seq::empty()
    } else {
        let front = spec_kept_parts(pieces.drop_last());
        let last = pieces.last();
        if last.len() == 0 || last == seq!['.'] {
            front
        } else {
            front.push(last)
        }
    }
}

/// The components of a name joined onto a folder.
pub open spec fn spec_name_parts(platform: Platform, name: Seq<char>) -> Seq<Seq<char>> {
    spec_kept_parts(spec_split(spec_slashed(platform, name), '/'))
}

/// Whether a name starts at the root rather than in the folder it is joined
/// onto.
pub open spec fn spec_is_rooted_name(platform: Platform, name: Seq<char>) -> bool {
    name.len() > 0 && spec_slashed(platform, name)[0] == '/'
}

/// Whether `folder.join(a)` and `folder.join(b)` are the same path, as
/// `Path` compares them: both in the folder or both from the root, with the
/// same components. (A name from the root equal to the folder's own path
/// followed by the other name, and Windows drive prefixes, are not taken
/// into account.)
pub open spec fn spec_same_in_folder(platform: Platform, a: Seq<char>, b: Seq<char>) -> bool {
    spec_is_rooted_name(platform, a) == spec_is_rooted_name(platform, b) && spec_name_parts(platform, a)
        == spec_name_parts(platform, b)
}

fn name_parts(platform: Platform, name: &str) -> (r: Vec<Vec<char>>)
    ensures
        r@.map_values(|v: Vec<char>| v@) == spec_name_parts(platform, name@),
        r@.len() == spec_name_parts(platform, name@).len(),
{
    let chars = chars_of(name);
    let slashed = if platform == Platform::Windows {
        replace_char(&chars, '\\', '/')
    } else {
        chars
    };
    assert(slashed@ == spec_slashed(platform, name@));
    let pieces = split_chars(&slashed, '/');
    let ghost all = spec_split(slashed@, '/');
    let mut out: Vec<Vec<char>> = Vec::new();
    let mut i: usize = 0;
    while i < pieces.len()
        invariant
            i <= pieces@.len(),
            pieces@.len() == all.len(),
            forall|k: int| 0 <= k < pieces@.len() ==> #[trigger] pieces@[k]@ == all[k],
            out@.map_values(|v: Vec<char>| v@) == spec_kept_parts(all.take(i as int)),
        decreases pieces@.len() - i,
    {
        assert(all.take(i + 1).drop_last() =~= all.take(i as int));
        let piece = &pieces[i];
        let dot = chars_of(".");
        proof {
            reveal_strlit(".");
        }
        assert(piece@ == all[i as int]);
        assert(all.take(i + 1).last() == all[i as int]);
        assert(dot@ == seq!['.']);
        let ghost before = out@.map_values(|v: Vec<char>| v@);
        if piece.len() > 0 && !chars_eq(piece, &dot) {
            let mut copy: Vec<char> = Vec::new();
            extend_chars(&mut copy, piece);
            assert(copy@ =~= piece@);
            out.push(copy);
            assert(out@.map_values(|v: Vec<char>| v@) =~= before.push(all[i as int]));
        }
        i = i + 1;
        assert(out@.map_values(|v: Vec<char>| v@) =~= spec_kept_parts(all.take(i as int)));
    }
    assert(all.take(pieces@.len() as int) =~= all);
    out
}

/// Whether two names designate the same entry of one folder (see
/// `spec_same_in_folder`).
pub fn same_in_folder(platform: Platform, a: &str, b: &str) -> (r: bool)
    ensures
        r == spec_same_in_folder(platform, a@, b@),
{
    let ca = chars_of(a);
    let cb = chars_of(b);
    let ra = ca.len() > 0 && (ca[0] == '/' || (platform == Platform::Windows && ca[0] == '\\'));
    let rb = cb.len() > 0 && (cb[0] == '/' || (platform == Platform::Windows && cb[0] == '\\'));
    proof {
        if platform == Platform::Windows {
            if ca@.len() > 0 {
                assert(spec_slashed(platform, a@)[0] == (if a@[0] == '\\' { '/' } else { a@[0] }));
            }
            if cb@.len() > 0 {
                assert(spec_slashed(platform, b@)[0] == (if b@[0] == '\\' { '/' } else { b@[0] }));
            }
        }
    }
    if ra != rb {
        return false;
    }
    let pa = name_parts(platform, a);
    let pb = name_parts(platform, b);
    if pa.len() != pb.len() {
        return false;
    }
    let mut i: usize = 0;
    while i < pa.len()
        invariant
            i <= pa@.len(),
            pa@.len() == pb@.len(),
            pa@.map_values(|v: Vec<char>| v@) == spec_name_parts(platform, a@),
            pb@.map_values(|v: Vec<char>| v@) == spec_name_parts(platform, b@),
            forall|k: int| 0 <= k < i ==> pa@[k]@ == pb@[k]@,
        decreases pa@.len() - i,
    {
        if !chars_eq(&pa[i], &pb[i]) {
            assert(spec_name_parts(platform, a@)[i as int] != spec_name_parts(platform, b@)[i as int]);
            return false;
        }
        i = i + 1;
    }
    assert(spec_name_parts(platform, a@) =~= spec_name_parts(platform, b@));
    true
}

} // verus!
