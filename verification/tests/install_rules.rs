use std::path::PathBuf;

use lynara::keyed::KeyedList;
use lynara::minecraft::fabric::{FabricLibrary, FabricProfile};
use lynara::minecraft::installer::{
    asset_download_task, asset_download_tasks, asset_results_outcome, assets_total_bytes,
    fabric_download_tasks, first_failure, install_transition, library_download_tasks, AssetObject,
    InstallAction, InstallEvent, InstallPhase, InstallState, InstallStep,
};
use lynara::minecraft::manifest::{
    estimate_initial_download_size, Artifact, AssetIndexRef, ClientDownloads, JavaVersion, Library, LibraryDownloads, VersionManifest,
};
use lynara::minecraft::paths::LauncherPath;
use lynara::minecraft::{McError, Platform};

fn dir(name: &str) -> LauncherPath {
    LauncherPath { base: PathBuf::from("/h"), origin: None, segments: vec![".lynara".to_string(), name.to_string()] }
}

fn artifact(path: Option<&str>, url: &str, size: u64) -> Artifact {
    Artifact { path: path.map(|p| p.to_string()), sha1: format!("sha-{}", url), size, url: url.to_string() }
}

fn manifest_with(libraries: Vec<Library>) -> VersionManifest {
    VersionManifest {
        id: "1.21.4".to_string(),
        version_type: "release".to_string(),
        java_version: JavaVersion { component: "j".to_string(), major_version: 21 },
        main_class: "M".to_string(),
        asset_index: AssetIndexRef { id: "19".to_string(), sha1: "a".to_string(), size: 30, total_size: 1, url: "u".to_string() },
        assets: "19".to_string(),
        libraries,
        downloads: ClientDownloads { client: artifact(Some("c.jar"), "client", 500), server: None },
        arguments: None,
        minecraft_arguments: None,
    }
}

#[test]
fn install_state_counters() {
    let mut s = InstallState::new();
    assert_eq!(s.phase, InstallPhase::Initializing);
    assert_eq!(s.message, "Initialisation...");
    s.set_totals(100, 3);
    s.add_bytes_done(40);
    s.add_file_done();
    s.set_phase(InstallPhase::DownloadingLibraries, "libs".to_string());
    let p = s.snapshot(7);
    assert_eq!((p.bytes_done, p.bytes_total, p.files_done, p.files_total, p.speed_bps), (40, 100, 1, 3, 7));
    assert_eq!(p.phase, InstallPhase::DownloadingLibraries);
    assert_eq!(p.message, "libs");
    s.add_totals(u64::MAX, 1);
    assert_eq!(s.bytes_total, 99);
    assert_eq!(s.files_total, 4);
    s.record_download(false, false);
    assert_eq!(s.files_done, 1);
    s.record_download(false, true);
    s.record_download(true, false);
    assert_eq!(s.files_done, 3);
    s.finish();
    assert_eq!(s.phase, InstallPhase::Done);
    assert_eq!(s.message, "Installation terminée");
    assert_eq!((s.bytes_done, s.files_done), (40, 3));
}

#[test]
fn library_tasks_main_then_native() {
    let mut classifiers = KeyedList::new();
    classifiers.insert("natives-linux".to_string(), artifact(None, "native", 7));
    let lib = Library {
        name: "org.lwjgl:lwjgl:3.3.3".to_string(),
        downloads: Some(LibraryDownloads { artifact: Some(artifact(Some("org/lwjgl.jar"), "main", 5)), classifiers: Some(classifiers) }),
        rules: None,
        natives: None,
    };
    let m = manifest_with(vec![lib]);
    let tasks = library_download_tasks(Platform::Linux, &dir("libraries"), &m);
    assert_eq!(tasks.len(), 2);
    assert_eq!(tasks[0].url, "main");
    assert_eq!(tasks[0].dest.segments, vec![".lynara", "libraries", "org/lwjgl.jar"]);
    assert_eq!(tasks[0].sha1.as_deref(), Some("sha-main"));
    assert_eq!(tasks[0].size, Some(5));
    assert_eq!(tasks[1].url, "native");
    assert_eq!(tasks[1].dest.segments, vec![".lynara", "libraries", "org/lwjgl/lwjgl/3.3.3/lwjgl-3.3.3-natives-linux.jar"]);
    assert_eq!(library_download_tasks(Platform::Other, &dir("libraries"), &m).len(), 1);
}

#[test]
fn asset_task_layout() {
    let t = asset_download_task(&dir("objects"), "a9993e364706816aba3e25717850c26c9cd0d89d");
    assert_eq!(t.url, "https://resources.download.minecraft.net/a9/a9993e364706816aba3e25717850c26c9cd0d89d");
    assert_eq!(t.dest.segments, vec![".lynara", "objects", "a9", "a9993e364706816aba3e25717850c26c9cd0d89d"]);
    assert_eq!(t.sha1.as_deref(), Some("a9993e364706816aba3e25717850c26c9cd0d89d"));
    let t2 = asset_download_task(&dir("objects"), "éx");
    assert_eq!(t2.dest.segments[2], "é");
}

#[test]
fn asset_tasks_and_total() {
    let objects = vec![
        AssetObject { hash: "aa11".to_string(), size: 3 },
        AssetObject { hash: "bb22".to_string(), size: 4 },
    ];
    let tasks = asset_download_tasks(&dir("objects"), &objects);
    assert_eq!(tasks.len(), 2);
    assert_eq!(tasks[1].dest.segments[2], "bb");
    assert_eq!(assets_total_bytes(&objects), Some(7));
    let huge = vec![AssetObject { hash: "aa".to_string(), size: u64::MAX }, AssetObject { hash: "bb".to_string(), size: 1 }];
    assert_eq!(assets_total_bytes(&huge), None);
}

fn outcomes(failures: usize, successes: usize) -> Vec<Result<(), McError>> {
    let mut v: Vec<Result<(), McError>> = Vec::new();
    for _ in 0..failures {
        v.push(Err(McError::Network("timeout".to_string())));
    }
    for _ in 0..successes {
        v.push(Ok(()));
    }
    v
}

#[test]
fn asset_failures_up_to_ten_are_tolerated() {
    assert!(asset_results_outcome(&outcomes(10, 5)).is_ok());
    match asset_results_outcome(&outcomes(11, 0)) {
        Err(McError::Custom(m)) => assert_eq!(m, "Trop d'erreurs de téléchargement assets (11)"),
        other => panic!("unexpected {:?}", other),
    }
    assert_eq!(
        asset_results_outcome(&outcomes(30, 1)).unwrap_err().message(),
        "Erreur: Trop d'erreurs de téléchargement assets (11)"
    );
}

#[test]
fn first_failure_in_order() {
    let v = vec![Ok(()), Err(McError::Io("disk".to_string())), Err(McError::Network("net".to_string()))];
    match first_failure(v) {
        Some(McError::Io(m)) => assert_eq!(m, "disk"),
        other => panic!("unexpected {:?}", other),
    }
    assert!(first_failure(vec![Ok(()), Ok(())]).is_none());
}

fn downloads(action: InstallAction) -> (Vec<Vec<String>>, bool) {
    match action {
        InstallAction::Download { tasks, count_failures } => {
            (tasks.into_iter().map(|t| t.dest.segments).collect(), count_failures)
        }
        other => panic!("unexpected {:?}", other),
    }
}

#[test]
fn installation_runs_phases_in_order() {
    let root = LauncherPath { base: PathBuf::from("/h"), origin: None, segments: vec![".lynara".to_string()] };
    let lib = Library {
        name: "a:b:1".to_string(),
        downloads: Some(LibraryDownloads { artifact: Some(artifact(None, "lib", 5)), classifiers: None }),
        rules: None,
        natives: None,
    };
    let m = manifest_with(vec![lib]);
    let fabric = FabricProfile {
        id: "fabric-loader".to_string(),
        inherits_from: "1.21.4".to_string(),
        main_class: "K".to_string(),
        libraries: vec![FabricLibrary { name: "n:f:2".to_string(), url: "https://m/".to_string(), sha1: None }],
        arguments: None,
    };
    let mut st = InstallState::new();

    let (step, action) = install_transition(Platform::Linux, &root, &m, Some(&fabric), &mut st, InstallStep::Start, InstallEvent::Begin);
    assert_eq!(step, InstallStep::Client);
    assert_eq!(st.phase, InstallPhase::DownloadingClient);
    assert_eq!((st.bytes_total, st.files_total), (500, 1));
    let (d, c) = downloads(action);
    assert_eq!(d, vec![vec![".lynara", "versions", "1.21.4", "1.21.4.jar"]]);
    assert!(!c);

    let (step, action) = install_transition(Platform::Linux, &root, &m, Some(&fabric), &mut st, step, InstallEvent::Downloaded { results: vec![Ok(())] });
    assert_eq!(step, InstallStep::Libraries);
    assert_eq!(st.message, "Téléchargement des bibliothèques...");
    assert_eq!((st.bytes_total, st.files_total), (500 + 5 + 30, 3));
    let (d, c) = downloads(action);
    assert_eq!(d, vec![vec![".lynara", "libraries", "a/b/1/b-1.jar"]]);
    assert!(c);

    let (step, action) = install_transition(Platform::Linux, &root, &m, Some(&fabric), &mut st, step, InstallEvent::Downloaded { results: vec![Ok(())] });
    assert_eq!(step, InstallStep::AssetIndex);
    assert_eq!(downloads(action).0, vec![vec![".lynara", "assets", "indexes", "19.json"]]);

    let (step, action) = install_transition(Platform::Linux, &root, &m, Some(&fabric), &mut st, step, InstallEvent::Downloaded { results: vec![Ok(())] });
    assert_eq!(step, InstallStep::LoadingAssets);
    assert_eq!(st.phase, InstallPhase::DownloadingAssets);
    match action {
        InstallAction::ReadAssetIndex { path } => assert_eq!(path.segments, vec![".lynara", "assets", "indexes", "19.json"]),
        other => panic!("unexpected {:?}", other),
    }

    let objects = vec![AssetObject { hash: "ab12".to_string(), size: 9 }];
    let (step, action) = install_transition(Platform::Linux, &root, &m, Some(&fabric), &mut st, step, InstallEvent::AssetIndexRead { objects: Ok(objects) });
    assert_eq!(step, InstallStep::Assets);
    assert_eq!((st.bytes_total, st.files_total), (500 + 5 + 30 + 9, 4));
    assert_eq!(st.bytes_total, estimate_initial_download_size(Platform::Linux, &m) + 9);
    assert_eq!(downloads(action).0, vec![vec![".lynara", "assets", "objects", "ab", "ab12"]]);

    let (step, action) = install_transition(Platform::Linux, &root, &m, Some(&fabric), &mut st, step, InstallEvent::Downloaded { results: vec![Err(McError::Network("x".to_string()))] });
    assert_eq!(step, InstallStep::Fabric);
    assert_eq!(st.message, "Téléchargement de Fabric Loader (fabric-loader)...");
    assert_eq!(st.files_total, 5);
    assert_eq!(st.bytes_total, 500 + 5 + 30 + 9);
    assert_eq!(st.phase, InstallPhase::DownloadingFabric);
    assert_eq!(downloads(action).0, vec![vec![".lynara", "libraries", "n/f/2/f-2.jar"]]);

    let (step, action) = install_transition(Platform::Linux, &root, &m, Some(&fabric), &mut st, step, InstallEvent::Downloaded { results: vec![Err(McError::Network("down".to_string()))] });
    assert_eq!(step, InstallStep::Finished);
    match action {
        InstallAction::Finish { result: Err(McError::Custom(m)) } => assert_eq!(m, "Fabric lib: Erreur réseau: down"),
        other => panic!("unexpected {:?}", other),
    }
}

#[test]
fn installation_stops_on_client_failure() {
    let root = LauncherPath { base: PathBuf::from("/h"), origin: None, segments: vec![".lynara".to_string()] };
    let m = manifest_with(vec![]);
    let mut st = InstallState::new();
    let (step, _) = install_transition(Platform::Linux, &root, &m, None, &mut st, InstallStep::Start, InstallEvent::Begin);
    let (step, action) = install_transition(Platform::Linux, &root, &m, None, &mut st, step, InstallEvent::Downloaded { results: vec![Err(McError::Io("full".to_string()))] });
    assert_eq!(step, InstallStep::Finished);
    match action {
        InstallAction::Finish { result: Err(McError::Io(m)) } => assert_eq!(m, "full"),
        other => panic!("unexpected {:?}", other),
    }
}

#[test]
fn installation_without_fabric_finishes_after_assets() {
    let root = LauncherPath { base: PathBuf::from("/h"), origin: None, segments: vec![".lynara".to_string()] };
    let m = manifest_with(vec![]);
    let mut st = InstallState::new();
    let (step, action) = install_transition(Platform::Linux, &root, &m, None, &mut st, InstallStep::Assets, InstallEvent::Downloaded { results: outcomes(3, 2) });
    assert_eq!(step, InstallStep::Finished);
    assert!(matches!(action, InstallAction::Finish { result: Ok(()) }));
    let (step, action) = install_transition(Platform::Linux, &root, &m, None, &mut st, InstallStep::LoadingAssets, InstallEvent::AssetIndexRead { objects: Err(McError::Json("bad".to_string())) });
    assert_eq!(step, InstallStep::Finished);
    assert!(matches!(action, InstallAction::Finish { result: Err(McError::Json(_)) }));
}

#[test]
fn fabric_tasks() {
    let profile = FabricProfile {
        id: "f".to_string(),
        inherits_from: "1.21.4".to_string(),
        main_class: "K".to_string(),
        libraries: vec![FabricLibrary {
            name: "net.fabricmc:fabric-loader:0.16.10".to_string(),
            url: "https://maven.fabricmc.net/".to_string(),
            sha1: Some("abc".to_string()),
        }],
        arguments: None,
    };
    let tasks = fabric_download_tasks(&dir("libraries"), &profile);
    assert_eq!(tasks.len(), 1);
    assert_eq!(tasks[0].url, "https://maven.fabricmc.net/net/fabricmc/fabric-loader/0.16.10/fabric-loader-0.16.10.jar");
    assert_eq!(tasks[0].dest.segments[2], "net/fabricmc/fabric-loader/0.16.10/fabric-loader-0.16.10.jar");
    assert_eq!(tasks[0].sha1.as_deref(), Some("abc"));
}
