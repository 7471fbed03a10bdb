//! Installer: what to download for a version (client jar, libraries, asset
//! index, asset objects, Fabric libraries), where each file goes, the
//! progress counters shown during the installation, and when failed asset
//! downloads make the installation fail. The downloads run outside this
//! library.

use vstd::prelude::*;

use crate::minecraft::fabric::{
    self, spec_fabric_maven_path, spec_library_url, FabricLibrary, FabricProfile,
};
use crate::minecraft::launcher::spec_default_native_path;
use crate::minecraft::manifest::{
    self, current_native_classifier, is_library_allowed, spec_initial_download_size,
    spec_libraries_bytes, spec_library_allowed, spec_library_bytes, spec_native_classifier, Library,
    VersionManifest,
};
use crate::minecraft::paths::LauncherPath;
use crate::minecraft::{custom_error, custom_error_with, spec_custom_error, McError};
use crate::minecraft::Platform;
use crate::text::{chars_of, concat_text, extend_chars, extend_str, owned, string_of, trim_end_matches};

verus! {

#[derive(Clone, Copy, Debug, PartialEq, Eq, Structural)]
pub enum InstallPhase {
    Initializing,
    DownloadingClient,
    DownloadingLibraries,
    ExtractingNatives,
    DownloadingAssetIndex,
    DownloadingAssets,
    DownloadingFabric,
    Done,
}

/// One report of the installation's progress.
#[derive(Clone, Debug)]
pub struct InstallProgress {
    pub phase: InstallPhase,
    pub message: String,
    pub bytes_done: u64,
    pub bytes_total: u64,
    pub speed_bps: u64,
    pub files_done: u32,
    pub files_total: u32,
}

/// The counters of a running installation. Counters that the downloads
/// advance wrap around on overflow, as atomic additions do.
#[derive(Debug)]
pub struct InstallState {
    pub bytes_done: u64,
    pub bytes_total: u64,
    pub files_done: u32,
    pub files_total: u32,
    pub phase: InstallPhase,
    pub message: String,
}

impl InstallState {
    /// A fresh installation: nothing counted, initializing.
    pub fn new() -> (r: InstallState)
        ensures
            r.bytes_done == 0 && r.bytes_total == 0 && r.files_done == 0 && r.files_total == 0,
            r.phase == InstallPhase::Initializing,
            r.message@ == "Initialisation..."@,
    {
        InstallState {
            bytes_done: 0,
            bytes_total: 0,
            files_done: 0,
            files_total: 0,
            phase: InstallPhase::Initializing,
            message: owned("Initialisation..."),
        }
    }

    /// A report of the current state, with the download speed measured by the caller.
    pub fn snapshot(&self, speed_bps: u64) -> (r: InstallProgress)
        ensures
            r.phase == self.phase,
            r.message@ == self.message@,
            r.bytes_done == self.bytes_done,
            r.bytes_total == self.bytes_total,
            r.speed_bps == speed_bps,
            r.files_done == self.files_done,
            r.files_total == self.files_total,
    {
        InstallProgress {
            phase: self.phase,
            message: self.message.clone(),
            bytes_done: self.bytes_done,
            bytes_total: self.bytes_total,
            speed_bps,
            files_done: self.files_done,
            files_total: self.files_total,
        }
    }

    /// Enters a phase with its message; the counters are left as they are.
    pub fn set_phase(&mut self, phase: InstallPhase, message: String)
        ensures
            final(self).phase == phase,
            final(self).message == message,
            final(self).bytes_done == old(self).bytes_done,
            final(self).bytes_total == old(self).bytes_total,
            final(self).files_done == old(self).files_done,
            final(self).files_total == old(self).files_total,
    {
        self.phase = phase;
        self.message = message;
    }

    /// Marks the installation as over, whatever its result: phase `Done` with
    /// the message "Installation terminée"; the counters are left as they are.
    pub fn finish(&mut self)
        ensures
            final(self).phase == InstallPhase::Done,
            final(self).message@ == "Installation terminée"@,
            final(self).bytes_done == old(self).bytes_done,
            final(self).bytes_total == old(self).bytes_total,
            final(self).files_done == old(self).files_done,
            final(self).files_total == old(self).files_total,
    {
        self.set_phase(InstallPhase::Done, owned("Installation terminée"));
    }

    /// Counts `bytes` more downloaded bytes.
    pub fn add_bytes_done(&mut self, bytes: u64)
        ensures
            final(self).bytes_done == (old(self).bytes_done + bytes) % 0x1_0000_0000_0000_0000,
            final(self).bytes_total == old(self).bytes_total,
            final(self).files_done == old(self).files_done,
            final(self).files_total == old(self).files_total,
            final(self).phase == old(self).phase,
            final(self).message == old(self).message,
    {
        self.bytes_done = self.bytes_done.wrapping_add(bytes);
    }

    /// Counts one more finished download.
    pub fn add_file_done(&mut self)
        ensures
            final(self).files_done == (old(self).files_done + 1) % 0x1_0000_0000,
            final(self).bytes_done == old(self).bytes_done,
            final(self).bytes_total == old(self).bytes_total,
            final(self).files_total == old(self).files_total,
            final(self).phase == old(self).phase,
            final(self).message == old(self).message,
    {
        self.files_done = self.files_done.wrapping_add(1);
    }

    /// Counts one finished download of a phase: a successful one always, a
    /// failed one only in the phases that count failures as done (see
    /// `InstallAction::Download`).
    pub fn record_download(&mut self, succeeded: bool, count_failures: bool)
        ensures
            final(self).files_done == (if succeeded || count_failures {
                (old(self).files_done + 1) % 0x1_0000_0000
            } else {
                old(self).files_done as int
            }),
            final(self).bytes_done == old(self).bytes_done,
            final(self).bytes_total == old(self).bytes_total,
            final(self).files_total == old(self).files_total,
            final(self).phase == old(self).phase,
            final(self).message == old(self).message,
    {
        if succeeded || count_failures {
            self.add_file_done();
        }
    }

    /// Sets the expected totals.
    pub fn set_totals(&mut self, bytes_total: u64, files_total: u32)
        ensures
            final(self).bytes_total == bytes_total,
            final(self).files_total == files_total,
            final(self).bytes_done == old(self).bytes_done,
            final(self).files_done == old(self).files_done,
            final(self).phase == old(self).phase,
            final(self).message == old(self).message,
    {
        self.bytes_total = bytes_total;
        self.files_total = files_total;
    }

    /// Adds to the expected totals.
    pub fn add_totals(&mut self, bytes: u64, files: u32)
        ensures
            final(self).bytes_total == (old(self).bytes_total + bytes) % 0x1_0000_0000_0000_0000,
            final(self).files_total == (old(self).files_total + files) % 0x1_0000_0000,
            final(self).bytes_done == old(self).bytes_done,
            final(self).files_done == old(self).files_done,
            final(self).phase == old(self).phase,
            final(self).message == old(self).message,
    {
        self.bytes_total = self.bytes_total.wrapping_add(bytes);
        self.files_total = self.files_total.wrapping_add(files);
    }
}

// =====================================================================
// DOWNLOAD TASKS
// =====================================================================

/// One file to download: from where, to where, the SHA-1 it must have when
/// one is known, and its size when the manifest gives one.
#[derive(Debug)]
pub struct DownloadTask {
    pub url: String,
    pub dest: LauncherPath,
    pub sha1: Option<String>,
    pub size: Option<u64>,
}

/// A download task as text: address, destination components after the base,
/// expected SHA-1 and size.
pub type TaskView = (Seq<char>, Seq<Seq<char>>, Option<Seq<char>>, Option<u64>);

impl DownloadTask {
    pub open spec fn view(&self) -> TaskView {
        (
            self.url@,
            self.dest.parts(),
            match self.sha1 {
                Some(s) => Some(s@),
                None => None,
            },
            self.size,
        )
    }
}

/// The views of a list of tasks.
pub open spec fn task_views(tasks: Seq<DownloadTask>) -> Seq<TaskView> {
    tasks.map_values(|t: DownloadTask| t.view())
}

/// Whether every task of `tasks` goes below the base of `dir`.
pub open spec fn spec_same_base(tasks: Seq<DownloadTask>, dir: LauncherPath) -> bool {
    forall|i: int| 0 <= i < tasks.len() ==> (#[trigger] tasks[i]).dest.base == dir.base
}

/// The tasks of one library under the libraries folder `dir`: its main
/// artifact, then its native artifact for the platform.
pub open spec fn spec_library_task_list(platform: Platform, dir: Seq<Seq<char>>, lib: Library) -> Seq<
    TaskView,
> {
    match lib.downloads {
        Some(d) => {
            let main = match d.artifact {
                Some(a) => seq![
                    (
                        a.url@,
                        dir.push(
                            match a.path {
                                Some(p) => p@,
                                None => manifest::spec_maven_path(lib.name@),
                            },
                        ),
                        Some(a.sha1@),
                        Some(a.size),
                    ),
                ],
                None => Seq::empty(),
            };
            let native = match d.classifiers {
                Some(c) => match spec_native_classifier(platform) {
                    Some(k) => if c@.contains_key(k) {
                        seq![
                            (
                                c@[k].url@,
                                dir.push(
                                    match c@[k].path {
                                        Some(p) => p@,
                                        None => spec_default_native_path(lib.name@, k),
                                    },
                                ),
                                Some(c@[k].sha1@),
                                Some(c@[k].size),
                            ),
                        ]
                    } else {
                        Seq::empty()
                    },
                    None => Seq::empty(),
                },
                None => Seq::empty(),
            };
            main + native
        },
        None => Seq::empty(),
    }
}

/// The tasks of the libraries that apply on the platform, in order.
pub open spec fn spec_library_tasks(platform: Platform, dir: Seq<Seq<char>>, libs: Seq<Library>) -> Seq<
    TaskView,
>
    decreases libs.len(),
{
    if libs.len() == 0 {
        Seq::empty()
    } else if spec_library_allowed(platform, libs.last()) {
        spec_library_tasks(platform, dir, libs.drop_last()) + spec_library_task_list(
            platform,
            dir,
            libs.last(),
        )
    } else {
        spec_library_tasks(platform, dir, libs.drop_last())
    }
}

fn library_file(
    libraries_dir: &LauncherPath,
    url: &String,
    rel: &str,
    sha1: &String,
    size: u64,
    out: &mut Vec<DownloadTask>,
)
    ensures
        task_views(final(out)@) == task_views(old(out)@).push(
            (url@, libraries_dir.parts().push(rel@), Some(sha1@), Some(size)),
        ),
        spec_same_base(old(out)@, *libraries_dir) ==> spec_same_base(final(out)@, *libraries_dir),
{
    let t = DownloadTask {
        url: url.clone(),
        dest: libraries_dir.duplicate().join(rel),
        sha1: Some(sha1.clone()),
        size: Some(size),
    };
    out.push(t);
    assert(task_views(out@) =~= task_views(old(out)@).push(
        (url@, libraries_dir.parts().push(rel@), Some(sha1@), Some(size)),
    ));
}

fn library_tasks_of(
    platform: Platform,
    libraries_dir: &LauncherPath,
    lib: &Library,
    out: &mut Vec<DownloadTask>,
)
    ensures
        task_views(final(out)@) == task_views(old(out)@) + spec_library_task_list(
            platform,
            libraries_dir.parts(),
            *lib,
        ),
        spec_same_base(old(out)@, *libraries_dir) ==> spec_same_base(final(out)@, *libraries_dir),
{
    let ghost before = task_views(out@);
    if let Some(downloads) = &lib.downloads {
        if let Some(artifact) = &downloads.artifact {
            let rel = match &artifact.path {
                Some(p) => p.clone(),
                None => manifest::maven_path(lib.name.as_str()),
            };
            library_file(libraries_dir, &artifact.url, rel.as_str(), &artifact.sha1, artifact.size, out);
        }
        let ghost mid = task_views(out@);
        if let Some(classifiers) = &downloads.classifiers {
            if let Some(k) = current_native_classifier(platform) {
                if let Some(artifact) = classifiers.get(k) {
                    let rel = match &artifact.path {
                        Some(p) => p.clone(),
                        None => {
                            let mp = manifest::maven_path(lib.name.as_str());
                            let mpc = chars_of(mp.as_str());
                            let jar = chars_of(".jar");
                            let mut v = trim_end_matches(&mpc, &jar);
                            v.push('-');
                            extend_str(&mut v, k);
                            extend_str(&mut v, ".jar");
                            assert(v@ =~= spec_default_native_path(lib.name@, k@));
                            string_of(&v)
                        },
                    };
                    library_file(
                        libraries_dir,
                        &artifact.url,
                        rel.as_str(),
                        &artifact.sha1,
                        artifact.size,
                        out,
                    );
                }
            }
        }
    }
    assert(task_views(out@) =~= before + spec_library_task_list(
        platform,
        libraries_dir.parts(),
        *lib,
    ));
}

/// The library downloads of a version: for each library that applies on the
/// platform, its main artifact and its native artifact for the platform, each
/// under the libraries folder `libraries_dir`.
pub fn library_download_tasks(
    platform: Platform,
    libraries_dir: &LauncherPath,
    manifest: &VersionManifest,
) -> (r: Vec<DownloadTask>)
    ensures
        task_views(r@) == spec_library_tasks(platform, libraries_dir.parts(), manifest.libraries@),
        spec_same_base(r@, *libraries_dir),
{
    let mut out: Vec<DownloadTask> = Vec::new();
    let mut i: usize = 0;
    while i < manifest.libraries.len()
        invariant
            i <= manifest.libraries@.len(),
            task_views(out@) == spec_library_tasks(
                platform,
                libraries_dir.parts(),
                manifest.libraries@.take(i as int),
            ),
            spec_same_base(out@, *libraries_dir),
        decreases manifest.libraries@.len() - i,
    {
        let lib = &manifest.libraries[i];
        assert(manifest.libraries@.take(i + 1).drop_last() =~= manifest.libraries@.take(i as int));
        if is_library_allowed(platform, lib) {
            library_tasks_of(platform, libraries_dir, lib, &mut out);
        }
        i = i + 1;
    }
    assert(manifest.libraries@.take(manifest.libraries@.len() as int) =~= manifest.libraries@);
    out
}

/// The sum of the sizes that tasks announce.
pub open spec fn spec_tasks_bytes(tasks: Seq<TaskView>) -> int
    decreases tasks.len(),
{
    if tasks.len() == 0 {
        0
    } else {
        spec_tasks_bytes(tasks.drop_last()) + match tasks.last().3 {
            Some(n) => n as int,
            None => 0,
        }
    }
}

proof fn lemma_tasks_bytes_nonneg(tasks: Seq<TaskView>)
    ensures
        0 <= spec_tasks_bytes(tasks),
    decreases tasks.len(),
{
    if tasks.len() > 0 {
        lemma_tasks_bytes_nonneg(tasks.drop_last());
    }
}

// =====================================================================
// ASSETS
// =====================================================================

/// One object of an asset index.
#[derive(Debug, Clone)]
pub struct AssetObject {
    pub hash: String,
    pub size: u64,
}

/// The number of bytes that the UTF-8 encoding of `c` takes.
pub open spec fn spec_utf8_len(c: char) -> int {
    let u = c as u32;
    if u < 0x80 {
        1
    } else if u < 0x800 {
        2
    } else if u < 0x10000 {
        3
    } else {
        4
    }
}

/// The characters that make up the first two bytes of `s` in UTF-8, when
/// byte 2 falls between two characters (what slicing `s[0..2]` gives without
/// panicking); nothing otherwise.
pub open spec fn spec_two_byte_prefix(s: Seq<char>) -> Option<Seq<char>> {
    if s.len() >= 1 && spec_utf8_len(s[0]) == 2 {
        Some(s.take(1))
    } else if s.len() >= 2 && spec_utf8_len(s[0]) == 1 && spec_utf8_len(s[1]) == 1 {
        Some(s.take(2))
    } else {
        None
    }
}

fn utf8_len(c: char) -> (r: u32)
    ensures
        r == spec_utf8_len(c),
{
    let u: u32 = c as u32;
    if u < 0x80 {
        1
    } else if u < 0x800 {
        2
    } else if u < 0x10000 {
        3
    } else {
        4
    }
}

/// The download of an asset object: from Mojang's resource server at
/// `<prefix>/<hash>`, to `objects/<prefix>/<hash>`, checked against its hash,
/// where the prefix is the hash's first two bytes.
pub open spec fn spec_asset_task(objects_dir: Seq<Seq<char>>, hash: Seq<char>) -> TaskView {
    let prefix = spec_two_byte_prefix(hash)->0;
    (
        "https://resources.download.minecraft.net/"@ + prefix + seq!['/'] + hash,
        objects_dir + seq![prefix, hash],
        Some(hash),
        None,
    )
}

/// The download of one asset object under the objects folder `objects_dir`.
pub fn asset_download_task(objects_dir: &LauncherPath, hash: &str) -> (r: DownloadTask)
    requires
        spec_two_byte_prefix(hash@) is Some,
    ensures
        r.view() == spec_asset_task(objects_dir.parts(), hash@),
        r.dest.base == objects_dir.base,
{
    let h = chars_of(hash);
    let take: usize = if utf8_len(h[0]) == 2 {
        1
    } else {
        2
    };
    let prefix_chars = crate::text::chars_between(&h, 0, take);
    assert(prefix_chars@ =~= spec_two_byte_prefix(hash@)->0);
    let prefix = string_of(&prefix_chars);
    let mut u = chars_of("https://resources.download.minecraft.net/");
    extend_chars(&mut u, &prefix_chars);
    u.push('/');
    extend_chars(&mut u, &h);
    let dest = objects_dir.duplicate().join(prefix.as_str()).join(hash);
    let r = DownloadTask { url: string_of(&u), dest, sha1: Some(owned(hash)), size: None };
    assert(r.view().0 =~= spec_asset_task(objects_dir.parts(), hash@).0);
    assert(r.view().1 =~= spec_asset_task(objects_dir.parts(), hash@).1);
    r
}

/// Whether every object of an index has a hash whose first two bytes can be
/// cut off.
pub open spec fn spec_hashes_sliceable(objects: Seq<AssetObject>) -> bool {
    forall|i: int| 0 <= i < objects.len() ==> spec_two_byte_prefix((#[trigger] objects[i]).hash@) is Some
}

/// The downloads of all objects of an asset index, in order.
pub fn asset_download_tasks(objects_dir: &LauncherPath, objects: &Vec<AssetObject>) -> (r: Vec<
    DownloadTask,
>)
    requires
        spec_hashes_sliceable(objects@),
    ensures
        r@.len() == objects@.len(),
        forall|i: int|
            0 <= i < objects@.len() ==> (#[trigger] r@[i]).view() == spec_asset_task(
                objects_dir.parts(),
                objects@[i].hash@,
            ),
        spec_same_base(r@, *objects_dir),
{
    let mut out: Vec<DownloadTask> = Vec::new();
    let mut i: usize = 0;
    while i < objects.len()
        invariant
            i <= objects@.len(),
            spec_hashes_sliceable(objects@),
            out@.len() == i,
            forall|j: int|
                0 <= j < i ==> (#[trigger] out@[j]).view() == spec_asset_task(
                    objects_dir.parts(),
                    objects@[j].hash@,
                ),
            spec_same_base(out@, *objects_dir),
        decreases objects@.len() - i,
    {
        assert(spec_two_byte_prefix(objects@[i as int].hash@) is Some);
        let t = asset_download_task(objects_dir, objects[i].hash.as_str());
        out.push(t);
        i = i + 1;
    }
    out
}

/// The total size of the objects of an asset index.
pub open spec fn spec_objects_bytes(objects: Seq<AssetObject>) -> int
    decreases objects.len(),
{
    if objects.len() == 0 {
        0
    } else {
        spec_objects_bytes(objects.drop_last()) + objects.last().size
    }
}

proof fn lemma_objects_bytes_grow(objects: Seq<AssetObject>, i: int)
    requires
        0 <= i <= objects.len(),
    ensures
        spec_objects_bytes(objects.take(i)) <= spec_objects_bytes(objects),
    decreases objects.len() - i,
{
    if i < objects.len() {
        lemma_objects_bytes_grow(objects, i + 1);
        assert(objects.take(i + 1).drop_last() =~= objects.take(i));
    } else {
        assert(objects.take(i) =~= objects);
    }
}

/// The total size of the objects of an asset index, or nothing when it does
/// not fit in 64 bits.
pub fn assets_total_bytes(objects: &Vec<AssetObject>) -> (r: Option<u64>)
    ensures
        match r {
            Some(n) => n == spec_objects_bytes(objects@),
            None => spec_objects_bytes(objects@) > u64::MAX,
        },
{
    let mut sum: u64 = 0;
    let mut i: usize = 0;
    while i < objects.len()
        invariant
            i <= objects@.len(),
            sum == spec_objects_bytes(objects@.take(i as int)),
        decreases objects@.len() - i,
    {
        assert(objects@.take(i + 1).drop_last() =~= objects@.take(i as int));
        if objects[i].size > u64::MAX - sum {
            proof {
                lemma_objects_bytes_grow(objects@, i + 1);
            }
            return None;
        }
        sum = sum + objects[i].size;
        i = i + 1;
    }
    assert(objects@.take(objects@.len() as int) =~= objects@);
    Some(sum)
}

/// How many of the downloads failed.
pub open spec fn spec_failures(results: Seq<Result<(), McError>>) -> int
    decreases results.len(),
{
    if results.len() == 0 {
        0
    } else {
        spec_failures(results.drop_last()) + if results.last() is Err {
            1int
        } else {
            0int
        }
    }
}

proof fn lemma_failures_grow(results: Seq<Result<(), McError>>, i: int)
    requires
        0 <= i <= results.len(),
    ensures
        spec_failures(results.take(i)) <= spec_failures(results),
    decreases results.len() - i,
{
    if i < results.len() {
        lemma_failures_grow(results, i + 1);
        assert(results.take(i + 1).drop_last() =~= results.take(i));
    } else {
        assert(results.take(i) =~= results);
    }
}

/// The outcome of the asset downloads: the installation goes on unless more
/// than ten failed, and then the error reports the eleventh failure.
pub fn asset_results_outcome(results: &Vec<Result<(), McError>>) -> (r: Result<(), McError>)
    ensures
        match r {
            Ok(()) => spec_failures(results@) <= 10,
            Err(e) => spec_failures(results@) > 10 && spec_custom_error(
                e,
                "Trop d'erreurs de téléchargement assets (11)"@,
            ),
        },
{
    let mut errors: u32 = 0;
    let mut i: usize = 0;
    while i < results.len()
        invariant
            i <= results@.len(),
            errors == spec_failures(results@.take(i as int)),
            errors <= 10,
        decreases results@.len() - i,
    {
        assert(results@.take(i + 1).drop_last() =~= results@.take(i as int));
        if results[i].is_err() {
            errors = errors + 1;
            if errors > 10 {
                proof {
                    lemma_failures_grow(results@, i + 1);
                }
                return Err(custom_error("Trop d'erreurs de téléchargement assets (11)"));
            }
        }
        i = i + 1;
    }
    assert(results@.take(results@.len() as int) =~= results@);
    Ok(())
}

/// Whether `i` is the first failed download among `results`.
pub open spec fn spec_first_failure(results: Seq<Result<(), McError>>, i: int) -> bool {
    &&& 0 <= i < results.len()
    &&& results[i] is Err
    &&& forall|j: int| 0 <= j < i ==> (#[trigger] results[j]) is Ok
}

/// Takes out the first failure of a batch of downloads, if any failed.
pub fn first_failure(results: Vec<Result<(), McError>>) -> (r: Option<McError>)
    ensures
        match r {
            Some(e) => exists|i: int| spec_first_failure(results@, i) && results@[i] == Err::<(), McError>(e),
            None => forall|i: int| 0 <= i < results@.len() ==> (#[trigger] results@[i]) is Ok,
        },
{
    let mut i: usize = 0;
    while i < results.len() && results[i].is_ok()
        invariant
            i <= results@.len(),
            forall|j: int| 0 <= j < i ==> (#[trigger] results@[j]) is Ok,
        decreases results@.len() - i,
    {
        i = i + 1;
    }
    if i == results.len() {
        return None;
    }
    let ghost all = results@;
    let mut results = results;
    match results.remove(i) {
        Err(e) => {
            assert(spec_first_failure(all, i as int));
            Some(e)
        },
        Ok(()) => None,
    }
}

// =====================================================================
// FABRIC LIBRARIES
// =====================================================================

/// The downloads of a Fabric profile's libraries: from each library's
/// address, to its Maven path under the libraries folder, checked against its
/// SHA-1 when Fabric gives one.
pub fn fabric_download_tasks(libraries_dir: &LauncherPath, profile: &FabricProfile) -> (r: Vec<
    DownloadTask,
>)
    ensures
        r@.len() == profile.libraries@.len(),
        forall|i: int|
            0 <= i < r@.len() ==> (#[trigger] r@[i]).view() == (
                spec_library_url(profile.libraries@[i]),
                libraries_dir.parts().push(spec_fabric_maven_path(profile.libraries@[i].name@)),
                match profile.libraries@[i].sha1 {
                    Some(s) => Some(s@),
                    None => None,
                },
                None::<u64>,
            ),
        spec_same_base(r@, *libraries_dir),
{
    let mut out: Vec<DownloadTask> = Vec::new();
    let mut i: usize = 0;
    while i < profile.libraries.len()
        invariant
            i <= profile.libraries@.len(),
            out@.len() == i,
            forall|j: int|
                0 <= j < i ==> (#[trigger] out@[j]).view() == (
                    spec_library_url(profile.libraries@[j]),
                    libraries_dir.parts().push(spec_fabric_maven_path(profile.libraries@[j].name@)),
                    match profile.libraries@[j].sha1 {
                        Some(s) => Some(s@),
                        None => None,
                    },
                    None::<u64>,
                ),
            spec_same_base(out@, *libraries_dir),
        decreases profile.libraries@.len() - i,
    {
        let lib = &profile.libraries[i];
        let url = fabric::library_url(lib);
        let rel = fabric::maven_path(lib.name.as_str());
        let sha1 = match &lib.sha1 {
            Some(s) => Some(s.clone()),
            None => None,
        };
        let t = DownloadTask {
            url,
            dest: libraries_dir.duplicate().join(rel.as_str()),
            sha1,
            size: None,
        };
        out.push(t);
        i = i + 1;
    }
    out
}


// =====================================================================
// THE INSTALLATION, STEP BY STEP
// =====================================================================

/// Where an installation stands: before starting, waiting for the downloads
/// of a phase, waiting for the asset index to be read, or finished.
#[derive(Clone, Copy, Debug, PartialEq, Eq, Structural)]
pub enum InstallStep {
    Start,
    Client,
    Libraries,
    AssetIndex,
    LoadingAssets,
    Assets,
    Fabric,
    Finished,
}

/// What the installation learns from the outside: that it may begin, how
/// the downloads of a phase went (in the order they finished), or what the
/// asset index holds.
#[derive(Debug)]
pub enum InstallEvent {
    Begin,
    Downloaded { results: Vec<Result<(), McError>> },
    AssetIndexRead { objects: Result<Vec<AssetObject>, McError> },
}

/// What the installation asks of the outside: to download files (counting a
/// failed download as done or not), to read the asset index, or to stop with
/// a result.
#[derive(Debug)]
pub enum InstallAction {
    Download { tasks: Vec<DownloadTask>, count_failures: bool },
    ReadAssetIndex { path: LauncherPath },
    Finish { result: Result<(), McError> },
}

/// How far along an installation step is.
pub open spec fn spec_step_rank(step: InstallStep) -> int {
    match step {
        InstallStep::Start => 0,
        InstallStep::Client => 1,
        InstallStep::Libraries => 2,
        InstallStep::AssetIndex => 3,
        InstallStep::LoadingAssets => 4,
        InstallStep::Assets => 5,
        InstallStep::Fabric => 6,
        InstallStep::Finished => 7,
    }
}

/// Which event each step waits for.
pub open spec fn spec_expects(step: InstallStep, event: InstallEvent) -> bool {
    match step {
        InstallStep::Start => event is Begin,
        InstallStep::LoadingAssets => event is AssetIndexRead,
        InstallStep::Finished => false,
        _ => event is Downloaded,
    }
}

/// The downloads that a phase asks for, as text, in order.
pub open spec fn spec_download_action(a: InstallAction, views: Seq<TaskView>, count_failures: bool) -> bool {
    a matches InstallAction::Download { tasks, count_failures: c } && task_views(tasks@) == views
        && c == count_failures
}

/// Whether `a` stops the installation with the error `e`.
pub open spec fn spec_fails_with(a: InstallAction, e: McError) -> bool {
    a matches InstallAction::Finish { result } && result == Err::<(), McError>(e)
}

/// Whether a phase was entered with the given message.
pub open spec fn spec_entered(p: InstallState, phase: InstallPhase, message: Seq<char>) -> bool {
    p.phase == phase && p.message@ == message
}

/// The client jar's download.
pub open spec fn spec_client_task(root: Seq<Seq<char>>, m: VersionManifest) -> TaskView {
    (
        m.downloads.client.url@,
        root + seq!["versions"@, m.id@, m.id@ + ".jar"@],
        Some(m.downloads.client.sha1@),
        Some(m.downloads.client.size),
    )
}

/// Where the asset index is stored.
pub open spec fn spec_asset_index_path(root: Seq<Seq<char>>, m: VersionManifest) -> Seq<Seq<char>> {
    root + seq!["assets"@, "indexes"@, m.asset_index.id@ + ".json"@]
}

/// The asset index's download.
pub open spec fn spec_asset_index_task(root: Seq<Seq<char>>, m: VersionManifest) -> TaskView {
    (
        m.asset_index.url@,
        spec_asset_index_path(root, m),
        Some(m.asset_index.sha1@),
        Some(m.asset_index.size),
    )
}

/// The asset objects' downloads.
pub open spec fn spec_asset_tasks(root: Seq<Seq<char>>, objects: Seq<AssetObject>) -> Seq<TaskView> {
    objects.map_values(|o: AssetObject| spec_asset_task(root + seq!["assets"@, "objects"@], o.hash@))
}

/// The Fabric libraries' downloads.
pub open spec fn spec_fabric_tasks(root: Seq<Seq<char>>, p: FabricProfile) -> Seq<TaskView> {
    p.libraries@.map_values(
        |l: FabricLibrary|
            (
                spec_library_url(l),
                (root + seq!["libraries"@]).push(spec_fabric_maven_path(l.name@)),
                match l.sha1 {
                    Some(s) => Some(s@),
                    None => None,
                },
                None::<u64>,
            ),
    )
}

fn single_task(
    base: &LauncherPath,
    names: (&str, &str, &str),
    url: &String,
    sha1: &String,
    size: u64,
) -> (r: Vec<DownloadTask>)
    ensures
        task_views(r@) == seq![
            (url@, base.parts() + seq![names.0@, names.1@, names.2@], Some(sha1@), Some(size)),
        ],
        spec_same_base(r@, *base),
{
    let dest = base.duplicate().join(names.0).join(names.1).join(names.2);
    assert(dest.parts() =~= base.parts() + seq![names.0@, names.1@, names.2@]);
    let mut v: Vec<DownloadTask> = Vec::new();
    v.push(DownloadTask { url: url.clone(), dest, sha1: Some(sha1.clone()), size: Some(size) });
    assert(task_views(v@) =~= seq![
        (url@, base.parts() + seq![names.0@, names.1@, names.2@], Some(sha1@), Some(size)),
    ]);
    v
}

/// One step of an installation of `manifest` (with the libraries of
/// `fabric`, when given) under the launcher root `root`: from where it stands
/// and what it just learned, the step it moves to and what it asks for next.
/// The phases come in this order: client jar, libraries, asset index, asset
/// objects, Fabric libraries. A failed client, library or asset index
/// download stops the installation with its error; more than ten failed
/// asset downloads stop it; a failed Fabric download stops it with its
/// error's text after `Fabric lib: `. Byte and file totals wrap around on
/// overflow, as in release builds.
pub fn install_transition(
    platform: Platform,
    root: &LauncherPath,
    manifest: &VersionManifest,
    fabric: Option<&FabricProfile>,
    progress: &mut InstallState,
    step: InstallStep,
    event: InstallEvent,
) -> (r: (InstallStep, InstallAction))
    requires
        spec_expects(step, event),
        event matches InstallEvent::AssetIndexRead { objects: Ok(o) } ==> spec_hashes_sliceable(o@),
    ensures
        spec_step_rank(r.0) > spec_step_rank(step),
        (r.0 == InstallStep::Finished) == (r.1 is Finish),
        final(progress).bytes_done == old(progress).bytes_done,
        final(progress).files_done == old(progress).files_done,
        spec_phase_step(step, old(progress).phase, r.0, final(progress).phase),
        r.1 is Download ==> (r.1 matches InstallAction::Download { tasks, .. } && spec_same_base(
            tasks@,
            *root,
        )),
        r.1 matches InstallAction::ReadAssetIndex { path } ==> path.base == root.base,
        match event {
            InstallEvent::Begin => {
                &&& r.0 == InstallStep::Client
                &&& spec_entered(
                    *final(progress),
                    InstallPhase::DownloadingClient,
                    "Téléchargement du client Minecraft..."@,
                )
                &&& final(progress).bytes_total == manifest.downloads.client.size
                &&& final(progress).files_total == 1
                &&& spec_download_action(r.1, seq![spec_client_task(root.parts(), *manifest)], false)
            },
            InstallEvent::Downloaded { results } => {
                if step == InstallStep::Assets {
                    if spec_failures(results@) > 10 {
                        &&& r.0 == InstallStep::Finished
                        &&& r.1 matches InstallAction::Finish { result: Err(e) } && spec_custom_error(
                            e,
                            "Trop d'erreurs de téléchargement assets (11)"@,
                        )
                    } else {
                        match fabric {
                            Some(p) => {
                                &&& r.0 == InstallStep::Fabric
                                &&& spec_entered(
                                    *final(progress),
                                    InstallPhase::DownloadingFabric,
                                    "Téléchargement de Fabric Loader ("@ + p.id@ + ")..."@,
                                )
                                &&& final(progress).bytes_total == old(progress).bytes_total
                                &&& final(progress).files_total == (old(progress).files_total + (
                                p.libraries@.len() as u32)) % 0x1_0000_0000
                                &&& spec_download_action(r.1, spec_fabric_tasks(root.parts(), *p), true)
                            },
                            None => r.0 == InstallStep::Finished && r.1 == InstallAction::Finish {
                                result: Ok(()),
                            },
                        }
                    }
                } else if exists|i: int| spec_first_failure(results@, i) {
                    &&& r.0 == InstallStep::Finished
                    &&& exists|i: int|
                        spec_first_failure(results@, i) && match results@[i] {
                            Err(e) => if step == InstallStep::Fabric {
                                r.1 matches InstallAction::Finish { result: Err(f) } && spec_custom_error(
                                    f,
                                    "Fabric lib: "@ + e.spec_message(),
                                )
                            } else {
                                spec_fails_with(r.1, e)
                            },
                            Ok(()) => false,
                        }
                } else {
                    match step {
                        InstallStep::Client => {
                            let lib_views = spec_library_tasks(
                                platform,
                                root.parts() + seq!["libraries"@],
                                manifest.libraries@,
                            );
                            &&& r.0 == InstallStep::Libraries
                            &&& spec_entered(
                                *final(progress),
                                InstallPhase::DownloadingLibraries,
                                "Téléchargement des bibliothèques..."@,
                            )
                            &&& final(progress).bytes_total == (manifest.downloads.client.size
                                + spec_tasks_bytes(lib_views) + manifest.asset_index.size)
                                % 0x1_0000_0000_0000_0000
                            &&& final(progress).files_total == (1 + (lib_views.len() as u32) + 1)
                                % 0x1_0000_0000
                            &&& spec_download_action(r.1, lib_views, true)
                        },
                        InstallStep::Libraries => {
                            &&& r.0 == InstallStep::AssetIndex
                            &&& spec_entered(
                                *final(progress),
                                InstallPhase::DownloadingAssetIndex,
                                "Téléchargement de l'index des ressources..."@,
                            )
                            &&& final(progress).bytes_total == old(progress).bytes_total
                            &&& final(progress).files_total == old(progress).files_total
                            &&& spec_download_action(
                                r.1,
                                seq![spec_asset_index_task(root.parts(), *manifest)],
                                false,
                            )
                        },
                        InstallStep::AssetIndex => {
                            &&& r.0 == InstallStep::LoadingAssets
                            &&& spec_entered(
                                *final(progress),
                                InstallPhase::DownloadingAssets,
                                "Téléchargement des ressources (3000+ fichiers)..."@,
                            )
                            &&& final(progress).bytes_total == old(progress).bytes_total
                            &&& final(progress).files_total == old(progress).files_total
                            &&& r.1 matches InstallAction::ReadAssetIndex { path } && path.parts()
                                == spec_asset_index_path(root.parts(), *manifest)
                        },
                        _ => r.0 == InstallStep::Finished && r.1 == InstallAction::Finish {
                            result: Ok(()),
                        },
                    }
                }
            },
            InstallEvent::AssetIndexRead { objects } => match objects {
                Err(e) => r.0 == InstallStep::Finished && spec_fails_with(r.1, e),
                Ok(o) => {
                    &&& r.0 == InstallStep::Assets
                    &&& spec_entered(*final(progress), old(progress).phase, old(progress).message@)
                    &&& final(progress).bytes_total == (old(progress).bytes_total + (
                    spec_objects_bytes(o@) % 0x1_0000_0000_0000_0000)) % 0x1_0000_0000_0000_0000
                    &&& final(progress).files_total == (old(progress).files_total + (o@.len() as u32))
                        % 0x1_0000_0000
                    &&& spec_download_action(r.1, spec_asset_tasks(root.parts(), o@), true)
                },
            },
        },
{
    match event {
        InstallEvent::Begin => {
            progress.set_phase(
                InstallPhase::DownloadingClient,
                owned("Téléchargement du client Minecraft..."),
            );
            progress.set_totals(manifest.downloads.client.size, 1);
            let jar = concat_text(manifest.id.as_str(), ".jar");
            let tasks = single_task(
                root,
                ("versions", manifest.id.as_str(), jar.as_str()),
                &manifest.downloads.client.url,
                &manifest.downloads.client.sha1,
                manifest.downloads.client.size,
            );
            (InstallStep::Client, InstallAction::Download { tasks, count_failures: false })
        },
        InstallEvent::AssetIndexRead { objects } => match objects {
            Err(e) => (InstallStep::Finished, InstallAction::Finish { result: Err(e) }),
            Ok(objects) => {
                let total = wrapping_objects_bytes(&objects);
                progress.add_totals(total, objects.len() as u32);
                let objects_dir = root.duplicate().join("assets").join("objects");
                assert(objects_dir.parts() =~= root.parts() + seq!["assets"@, "objects"@]);
                let tasks = asset_download_tasks(&objects_dir, &objects);
                assert(task_views(tasks@) =~= spec_asset_tasks(root.parts(), objects@));
                (InstallStep::Assets, InstallAction::Download { tasks, count_failures: true })
            },
        },
        InstallEvent::Downloaded { results } => {
            if step == InstallStep::Assets {
                match asset_results_outcome(&results) {
                    Err(e) => {
                        return (InstallStep::Finished, InstallAction::Finish { result: Err(e) });
                    },
                    Ok(()) => {},
                }
                return match fabric {
                    Some(p) => {
                        let mut m = chars_of("Téléchargement de Fabric Loader (");
                        extend_str(&mut m, p.id.as_str());
                        extend_str(&mut m, ")...");
                        progress.set_phase(InstallPhase::DownloadingFabric, string_of(&m));
                        let libraries = root.duplicate().join("libraries");
                        assert(libraries.parts() =~= root.parts() + seq!["libraries"@]);
                        let tasks = fabric_download_tasks(&libraries, p);
                        progress.add_totals(0, p.libraries.len() as u32);
                        assert(task_views(tasks@) =~= spec_fabric_tasks(root.parts(), *p));
                        (InstallStep::Fabric, InstallAction::Download { tasks, count_failures: true })
                    },
                    None => (InstallStep::Finished, InstallAction::Finish { result: Ok(()) }),
                };
            }
            let ghost all = results@;
            match first_failure(results) {
                Some(e) => {
                    if step == InstallStep::Fabric {
                        let msg = e.message();
                        let f = custom_error_with("Fabric lib: ", msg.as_str());
                        return (InstallStep::Finished, InstallAction::Finish { result: Err(f) });
                    }
                    return (InstallStep::Finished, InstallAction::Finish { result: Err(e) });
                },
                None => {
                    assert(!exists|i: int| spec_first_failure(all, i));
                },
            }
            match step {
                InstallStep::Client => {
                    progress.set_phase(
                        InstallPhase::DownloadingLibraries,
                        owned("Téléchargement des bibliothèques..."),
                    );
                    let libraries = root.duplicate().join("libraries");
                    let tasks = library_download_tasks(platform, &libraries, manifest);
                    let lib_bytes = wrapping_tasks_bytes(&tasks);
                    let bytes = manifest.downloads.client.size.wrapping_add(lib_bytes).wrapping_add(
                        manifest.asset_index.size,
                    );
                    let files = (1u32).wrapping_add(tasks.len() as u32).wrapping_add(1);
                    progress.set_totals(bytes, files);
                    proof {
                        assert(root.parts() + seq!["libraries"@] =~= libraries.parts());
                        lemma_tasks_bytes_nonneg(task_views(tasks@));
                        lemma_wrapping_sum(
                            manifest.downloads.client.size as int,
                            spec_tasks_bytes(task_views(tasks@)),
                            manifest.asset_index.size as int,
                        );
                    }
                    (InstallStep::Libraries, InstallAction::Download { tasks, count_failures: true })
                },
                InstallStep::Libraries => {
                    progress.set_phase(
                        InstallPhase::DownloadingAssetIndex,
                        owned("Téléchargement de l'index des ressources..."),
                    );
                    let name = concat_text(manifest.asset_index.id.as_str(), ".json");
                    let tasks = single_task(
                        root,
                        ("assets", "indexes", name.as_str()),
                        &manifest.asset_index.url,
                        &manifest.asset_index.sha1,
                        manifest.asset_index.size,
                    );
                    (InstallStep::AssetIndex, InstallAction::Download { tasks, count_failures: false })
                },
                InstallStep::AssetIndex => {
                    progress.set_phase(
                        InstallPhase::DownloadingAssets,
                        owned("Téléchargement des ressources (3000+ fichiers)..."),
                    );
                    let name = concat_text(manifest.asset_index.id.as_str(), ".json");
                    let path = root.duplicate().join("assets").join("indexes").join(name.as_str());
                    assert(path.parts() =~= spec_asset_index_path(root.parts(), *manifest));
                    (InstallStep::LoadingAssets, InstallAction::ReadAssetIndex { path })
                },
                _ => (InstallStep::Finished, InstallAction::Finish { result: Ok(()) }),
            }
        },
    }
}

proof fn lemma_wrapping_sum(a: int, b: int, c: int)
    requires
        0 <= a,
        0 <= b,
        0 <= c,
    ensures
        (((a + (b % 0x1_0000_0000_0000_0000)) % 0x1_0000_0000_0000_0000) + c) % 0x1_0000_0000_0000_0000
            == (a + b + c) % 0x1_0000_0000_0000_0000,
{
    vstd::arithmetic::div_mod::lemma_add_mod_noop(a, b, 0x1_0000_0000_0000_0000);
    vstd::arithmetic::div_mod::lemma_add_mod_noop(a + b, c, 0x1_0000_0000_0000_0000);
    vstd::arithmetic::div_mod::lemma_mod_twice(a, 0x1_0000_0000_0000_0000);
    vstd::arithmetic::div_mod::lemma_mod_twice(c, 0x1_0000_0000_0000_0000);
    vstd::arithmetic::div_mod::lemma_add_mod_noop(a, b % 0x1_0000_0000_0000_0000, 0x1_0000_0000_0000_0000);
    vstd::arithmetic::div_mod::lemma_mod_twice(b, 0x1_0000_0000_0000_0000);
    vstd::arithmetic::div_mod::lemma_add_mod_noop(
        (a + (b % 0x1_0000_0000_0000_0000)) % 0x1_0000_0000_0000_0000,
        c,
        0x1_0000_0000_0000_0000,
    );
    vstd::arithmetic::div_mod::lemma_mod_twice(a + (b % 0x1_0000_0000_0000_0000), 0x1_0000_0000_0000_0000);
    vstd::arithmetic::div_mod::lemma_add_mod_noop(a + b, c, 0x1_0000_0000_0000_0000);
}

/// The sum of the sizes that tasks announce, modulo 2^64.
fn wrapping_tasks_bytes(tasks: &Vec<DownloadTask>) -> (r: u64)
    ensures
        r == spec_tasks_bytes(task_views(tasks@)) % 0x1_0000_0000_0000_0000,
{
    let ghost views = task_views(tasks@);
    let mut sum: u64 = 0;
    let mut i: usize = 0;
    while i < tasks.len()
        invariant
            i <= tasks@.len(),
            views == task_views(tasks@),
            sum == spec_tasks_bytes(views.take(i as int)) % 0x1_0000_0000_0000_0000,
        decreases tasks@.len() - i,
    {
        assert(views.take(i + 1).drop_last() =~= views.take(i as int));
        assert(views[i as int].3 == tasks@[i as int].size);
        let add: u64 = match tasks[i].size {
            Some(n) => n,
            None => 0,
        };
        proof {
            lemma_tasks_bytes_nonneg(views.take(i as int));
            vstd::arithmetic::div_mod::lemma_add_mod_noop(
                spec_tasks_bytes(views.take(i as int)),
                add as int,
                0x1_0000_0000_0000_0000,
            );
            vstd::arithmetic::div_mod::lemma_small_mod(add as nat, 0x1_0000_0000_0000_0000);
        }
        sum = sum.wrapping_add(add);
        i = i + 1;
    }
    assert(views.take(tasks@.len() as int) =~= views);
    sum
}

/// The total size of the objects of an asset index, modulo 2^64.
fn wrapping_objects_bytes(objects: &Vec<AssetObject>) -> (r: u64)
    ensures
        r == spec_objects_bytes(objects@) % 0x1_0000_0000_0000_0000,
{
    let mut sum: u64 = 0;
    let mut i: usize = 0;
    while i < objects.len()
        invariant
            i <= objects@.len(),
            sum == spec_objects_bytes(objects@.take(i as int)) % 0x1_0000_0000_0000_0000,
        decreases objects@.len() - i,
    {
        assert(objects@.take(i + 1).drop_last() =~= objects@.take(i as int));
        proof {
            lemma_objects_bytes_nonneg(objects@.take(i as int));
            vstd::arithmetic::div_mod::lemma_add_mod_noop(
                spec_objects_bytes(objects@.take(i as int)),
                objects@[i as int].size as int,
                0x1_0000_0000_0000_0000,
            );
            vstd::arithmetic::div_mod::lemma_small_mod(objects@[i as int].size as nat, 0x1_0000_0000_0000_0000);
        }
        sum = sum.wrapping_add(objects[i].size);
        i = i + 1;
    }
    assert(objects@.take(objects@.len() as int) =~= objects@);
    sum
}

proof fn lemma_objects_bytes_nonneg(objects: Seq<AssetObject>)
    ensures
        0 <= spec_objects_bytes(objects),
    decreases objects.len(),
{
    if objects.len() > 0 {
        lemma_objects_bytes_nonneg(objects.drop_last());
    }
}


// =====================================================================
// LAWS OF A WHOLE INSTALLATION
// =====================================================================

proof fn lemma_tasks_bytes_append(a: Seq<TaskView>, b: Seq<TaskView>)
    ensures
        spec_tasks_bytes(a + b) == spec_tasks_bytes(a) + spec_tasks_bytes(b),
    decreases b.len(),
{
    if b.len() == 0 {
        assert(a + b =~= a);
    } else {
        lemma_tasks_bytes_append(a, b.drop_last());
        assert((a + b).drop_last() =~= a + b.drop_last());
        assert((a + b).last() == b.last());
    }
}

proof fn lemma_one_task_bytes(t: TaskView)
    ensures
        spec_tasks_bytes(seq![t]) == match t.3 {
            Some(n) => n as int,
            None => 0,
        },
{
    let one = seq![t];
    assert(one.drop_last() =~= Seq::<TaskView>::empty());
    assert(one.last() == t);
    assert(spec_tasks_bytes(Seq::<TaskView>::empty()) == 0);
    assert(spec_tasks_bytes(one) == spec_tasks_bytes(one.drop_last()) + match one.last().3 {
        Some(n) => n as int,
        None => 0,
    });
}

proof fn lemma_library_task_bytes(platform: Platform, dir: Seq<Seq<char>>, lib: Library)
    requires
        spec_library_allowed(platform, lib),
    ensures
        spec_tasks_bytes(spec_library_task_list(platform, dir, lib)) == spec_library_bytes(platform, lib),
{
    if let Some(d) = lib.downloads {
        let main: Seq<TaskView> = match d.artifact {
            Some(a) => seq![
                (
                    a.url@,
                    dir.push(
                        match a.path {
                            Some(p) => p@,
                            None => manifest::spec_maven_path(lib.name@),
                        },
                    ),
                    Some(a.sha1@),
                    Some(a.size),
                ),
            ],
            None => Seq::empty(),
        };
        let native: Seq<TaskView> = match d.classifiers {
            Some(c) => match spec_native_classifier(platform) {
                Some(k) => if c@.contains_key(k) {
                    seq![
                        (
                            c@[k].url@,
                            dir.push(
                                match c@[k].path {
                                    Some(p) => p@,
                                    None => spec_default_native_path(lib.name@, k),
                                },
                            ),
                            Some(c@[k].sha1@),
                            Some(c@[k].size),
                        ),
                    ]
                } else {
                    Seq::empty()
                },
                None => Seq::empty(),
            },
            None => Seq::empty(),
        };
        assert(spec_library_task_list(platform, dir, lib) == main + native);
        lemma_tasks_bytes_append(main, native);
        if main.len() == 1 {
            lemma_one_task_bytes(main[0]);
            assert(main =~= seq![main[0]]);
        }
        if native.len() == 1 {
            lemma_one_task_bytes(native[0]);
            assert(native =~= seq![native[0]]);
        }
    }
}

proof fn lemma_library_tasks_bytes(platform: Platform, dir: Seq<Seq<char>>, libs: Seq<Library>)
    ensures
        spec_tasks_bytes(spec_library_tasks(platform, dir, libs)) == spec_libraries_bytes(platform, libs),
    decreases libs.len(),
{
    if libs.len() > 0 {
        lemma_library_tasks_bytes(platform, dir, libs.drop_last());
        if spec_library_allowed(platform, libs.last()) {
            lemma_tasks_bytes_append(
                spec_library_tasks(platform, dir, libs.drop_last()),
                spec_library_task_list(platform, dir, libs.last()),
            );
            lemma_library_task_bytes(platform, dir, libs.last());
        }
    }
}


/// The bytes an installation expects: the total set when the libraries
/// phase is entered, plus the sizes of the asset objects added when the asset
/// index is read (Fabric libraries add nothing), is the initial download
/// estimate plus the asset objects' sizes, modulo 2^64 as the counter wraps.
pub proof fn lemma_install_bytes_total(
    platform: Platform,
    root: Seq<Seq<char>>,
    manifest: VersionManifest,
    objects: Seq<AssetObject>,
)
    ensures
        (((manifest.downloads.client.size + spec_tasks_bytes(
            spec_library_tasks(platform, root + seq!["libraries"@], manifest.libraries@),
        ) + manifest.asset_index.size) % 0x1_0000_0000_0000_0000) + (spec_objects_bytes(objects)
            % 0x1_0000_0000_0000_0000)) % 0x1_0000_0000_0000_0000 == (spec_initial_download_size(
            platform,
            manifest,
        ) + spec_objects_bytes(objects)) % 0x1_0000_0000_0000_0000,
{
    let dir = root + seq!["libraries"@];
    lemma_library_tasks_bytes(platform, dir, manifest.libraries@);
    lemma_tasks_bytes_nonneg(spec_library_tasks(platform, dir, manifest.libraries@));
    lemma_objects_bytes_nonneg(objects);
    let x = manifest.downloads.client.size + spec_tasks_bytes(spec_library_tasks(platform, dir, manifest.libraries@))
        + manifest.asset_index.size;
    let y = spec_objects_bytes(objects);
    vstd::arithmetic::div_mod::lemma_add_mod_noop(x, y, 0x1_0000_0000_0000_0000);
}

/// The phase an installation is in while it waits at a step; nothing before
/// it starts or once it is finished.
pub open spec fn spec_step_phase(step: InstallStep) -> Option<InstallPhase> {
    match step {
        InstallStep::Client => Some(InstallPhase::DownloadingClient),
        InstallStep::Libraries => Some(InstallPhase::DownloadingLibraries),
        InstallStep::AssetIndex => Some(InstallPhase::DownloadingAssetIndex),
        InstallStep::LoadingAssets => Some(InstallPhase::DownloadingAssets),
        InstallStep::Assets => Some(InstallPhase::DownloadingAssets),
        InstallStep::Fabric => Some(InstallPhase::DownloadingFabric),
        _ => None,
    }
}

/// The order of the phases.
pub open spec fn spec_phase_rank(phase: InstallPhase) -> int {
    match phase {
        InstallPhase::Initializing => 0,
        InstallPhase::DownloadingClient => 1,
        InstallPhase::DownloadingLibraries => 2,
        InstallPhase::ExtractingNatives => 3,
        InstallPhase::DownloadingAssetIndex => 4,
        InstallPhase::DownloadingAssets => 5,
        InstallPhase::DownloadingFabric => 6,
        InstallPhase::Done => 7,
    }
}

/// Whether `phase` is the one an installation at `step` is in.
pub open spec fn spec_in_step_phase(step: InstallStep, phase: InstallPhase) -> bool {
    step == InstallStep::Start || spec_step_phase(step) == Some(phase)
}

/// The phases of an installation come in order: client jar, libraries,
/// asset index, asset objects, then Fabric libraries. Since each step moves to
/// a later step (`install_transition`) and is in the phase of that step,
/// the phase never goes back.
pub proof fn lemma_install_phases_in_order(earlier: InstallStep, later: InstallStep)
    requires
        spec_step_rank(earlier) <= spec_step_rank(later),
        spec_step_phase(earlier) is Some,
        spec_step_phase(later) is Some,
    ensures
        spec_phase_rank(spec_step_phase(earlier)->0) <= spec_phase_rank(spec_step_phase(later)->0),
{
}


/// Whether an installation may go from `step` in `phase` to `next` in
/// `next_phase`, as `install_transition` ensures: a later step, in that
/// step's phase (when the phase it left was its own step's), or in the same
/// phase when it finishes.
pub open spec fn spec_phase_step(
    step: InstallStep,
    phase: InstallPhase,
    next: InstallStep,
    next_phase: InstallPhase,
) -> bool {
    &&& spec_step_rank(next) > spec_step_rank(step)
    &&& spec_in_step_phase(step, phase) && next != InstallStep::Finished ==> spec_step_phase(next)
        == Some(next_phase)
    &&& next == InstallStep::Finished ==> next_phase == phase
}

/// Over a whole installation, from a fresh state (`InstallState::new`, phase
/// `Initializing`) through the steps `install_transition` takes, the phase
/// only moves forward: client jar, libraries, asset index, asset objects,
/// then Fabric libraries; and it is never `Done` (that phase is set by
/// `InstallState::finish` after the run).
pub proof fn lemma_install_run_phases(steps: Seq<InstallStep>, phases: Seq<InstallPhase>)
    requires
        steps.len() == phases.len(),
        steps.len() > 0,
        steps[0] == InstallStep::Start,
        phases[0] == InstallPhase::Initializing,
        forall|i: int|
            0 <= i < steps.len() - 1 ==> #[trigger] spec_phase_step(
                steps[i],
                phases[i],
                steps[i + 1],
                phases[i + 1],
            ),
    ensures
        forall|i: int, j: int|
            0 <= i <= j < phases.len() ==> spec_phase_rank(phases[i]) <= spec_phase_rank(phases[j]),
        forall|i: int| 0 <= i < phases.len() ==> phases[i] != InstallPhase::Done,
    decreases steps.len(),
{
    let n = steps.len() as int;
    if n > 1 {
        let s0 = steps.drop_last();
        let p0 = phases.drop_last();
        assert forall|i: int| 0 <= i < s0.len() - 1 implies #[trigger] spec_phase_step(
            s0[i],
            p0[i],
            s0[i + 1],
            p0[i + 1],
        ) by {
            assert(spec_phase_step(steps[i], phases[i], steps[i + 1], phases[i + 1]));
        }
        lemma_install_run_phases(s0, p0);
        lemma_run_in_step_phase(steps, phases, n - 2);
        let m = n - 2;
        assert(spec_phase_step(steps[m], phases[m], steps[m + 1], phases[m + 1]));
        assert(m + 1 == n - 1);
        lemma_run_in_step_phase(steps, phases, n - 1);
        assert(spec_phase_rank(phases[m]) <= spec_phase_rank(phases[m + 1])) by {
            if steps[m] == InstallStep::Start {
                assert(m == 0);
            } else if steps[m + 1] != InstallStep::Finished {
                assert(steps[m] != InstallStep::Finished);
                lemma_install_phases_in_order(steps[m], steps[m + 1]);
            }
        }
        assert forall|i: int, j: int| 0 <= i <= j < n implies spec_phase_rank(phases[i])
            <= spec_phase_rank(phases[j]) by {
            if j < n - 1 {
                assert(p0[i] == phases[i] && p0[j] == phases[j]);
            } else if i < n - 1 {
                assert(p0[i] == phases[i] && p0[n - 2] == phases[n - 2]);
            }
        }
        assert forall|i: int| 0 <= i < n implies phases[i] != InstallPhase::Done by {
            if i < n - 1 {
                assert(p0[i] == phases[i]);
            }
        }
    }
}

/// Along such a run, each step but a finished one is in its own phase, only
/// the first step is `Start`, and no phase is `Done`.
proof fn lemma_run_in_step_phase(steps: Seq<InstallStep>, phases: Seq<InstallPhase>, k: int)
    requires
        steps.len() == phases.len(),
        0 <= k < steps.len(),
        steps[0] == InstallStep::Start,
        phases[0] == InstallPhase::Initializing,
        forall|i: int|
            0 <= i < steps.len() - 1 ==> #[trigger] spec_phase_step(
                steps[i],
                phases[i],
                steps[i + 1],
                phases[i + 1],
            ),
    ensures
        phases[k] != InstallPhase::Done,
        steps[k] != InstallStep::Finished ==> spec_in_step_phase(steps[k], phases[k]),
        k > 0 ==> steps[k] != InstallStep::Start,
    decreases k,
{
    if k > 0 {
        lemma_run_in_step_phase(steps, phases, k - 1);
        let i = k - 1;
        assert(spec_phase_step(steps[i], phases[i], steps[i + 1], phases[i + 1]));
        assert(i + 1 == k);
        if steps[i] == InstallStep::Finished {
            assert(spec_step_rank(steps[k]) > 7);
        }
    }
}

// =====================================================================
// LAWS OF THE DOWNLOADS ASKED FOR
// =====================================================================

/// The asset index is downloaded from the manifest's asset index address to
/// `<root>/assets/indexes/<id>.json`, checked against the asset index's own
/// SHA-1 and size, whatever the other artifacts' checksums are.
pub proof fn lemma_asset_index_task_checked(root: Seq<Seq<char>>, m: VersionManifest)
    ensures
        spec_asset_index_task(root, m).0 == m.asset_index.url@,
        spec_asset_index_task(root, m).1 == root + seq!["assets"@, "indexes"@, m.asset_index.id@ + ".json"@],
        spec_asset_index_task(root, m).2 == Some(m.asset_index.sha1@),
        spec_asset_index_task(root, m).3 == Some(m.asset_index.size),
        forall|other: VersionManifest|
            other.asset_index == m.asset_index ==> #[trigger] spec_asset_index_task(root, other).2
                == spec_asset_index_task(root, m).2,
{
}

/// Whether `t` downloads the main artifact or the native artifact for the
/// platform of library `lib`: its address, its SHA-1 and its size.
pub open spec fn spec_task_of_library(platform: Platform, t: TaskView, lib: Library) -> bool {
    match lib.downloads {
        Some(d) => {
            ||| (d.artifact matches Some(a) && t.0 == a.url@ && t.2 == Some(a.sha1@) && t.3 == Some(
                a.size,
            ))
            ||| (d.classifiers matches Some(c) && spec_native_classifier(platform) matches Some(k)
                && c@.contains_key(k) && t.0 == c@[k].url@ && t.2 == Some(c@[k].sha1@) && t.3 == Some(
                c@[k].size,
            ))
        },
        None => false,
    }
}

/// Every library download, main or native, comes from a library that
/// applies on the platform and is checked against the SHA-1 of the very
/// artifact it downloads (so it always has an expected SHA-1), with that
/// artifact's address and size.
pub proof fn lemma_library_tasks_checked(platform: Platform, dir: Seq<Seq<char>>, libs: Seq<Library>)
    ensures
        forall|k: int|
            0 <= k < spec_library_tasks(platform, dir, libs).len() ==> {
                &&& (#[trigger] spec_library_tasks(platform, dir, libs)[k]).2 is Some
                &&& exists|i: int|
                    0 <= i < libs.len() && spec_library_allowed(platform, libs[i]) && spec_task_of_library(
                        platform,
                        spec_library_tasks(platform, dir, libs)[k],
                        #[trigger] libs[i],
                    )
            },
    decreases libs.len(),
{
    if libs.len() > 0 {
        let front = libs.drop_last();
        lemma_library_tasks_checked(platform, dir, front);
        let ft = spec_library_tasks(platform, dir, front);
        let all = spec_library_tasks(platform, dir, libs);
        let last = libs.last();
        assert forall|k: int| 0 <= k < all.len() implies {
            &&& (#[trigger] all[k]).2 is Some
            &&& exists|i: int|
                0 <= i < libs.len() && spec_library_allowed(platform, libs[i]) && spec_task_of_library(
                    platform,
                    all[k],
                    #[trigger] libs[i],
                )
        } by {
            if k < ft.len() {
                assert(all[k] == ft[k]);
                let i = choose|i: int|
                    0 <= i < front.len() && spec_library_allowed(platform, front[i])
                        && spec_task_of_library(platform, ft[k], #[trigger] front[i]);
                assert(libs[i] == front[i]);
            } else {
                assert(spec_library_allowed(platform, last));
                let l = spec_library_task_list(platform, dir, last);
                assert(all == ft + l);
                assert(all[k] == l[k - ft.len()]);
                let d = last.downloads->0;
                let main: Seq<TaskView> = match d.artifact {
                    Some(a) => seq![
                        (
                            a.url@,
                            dir.push(
                                match a.path {
                                    Some(p) => p@,
                                    None => manifest::spec_maven_path(last.name@),
                                },
                            ),
                            Some(a.sha1@),
                            Some(a.size),
                        ),
                    ],
                    None => Seq::empty(),
                };
                assert(l.len() >= main.len());
                assert(libs[libs.len() - 1] == last);
                if k - ft.len() < main.len() {
                    assert(l[k - ft.len()] == main[0]);
                } else {
                    assert(l[k - ft.len()] == l[l.len() - 1]);
                }
                assert(spec_task_of_library(platform, all[k], libs[libs.len() - 1]));
            }
        }
    }
}

} // verus!
