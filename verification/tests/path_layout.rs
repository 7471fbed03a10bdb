use std::path::PathBuf;

use lynara::minecraft::paths::{
    assets_dir, assets_indexes_dir, assets_objects_dir, java_runtime_dir, libraries_dir, logs_dir,
    natives_dir, root_dir, root_dir_from, user_folder, version_dir, version_jar, version_json,
    versions_dir, same_in_folder, LauncherPath, UserFolder, version_jar_in, natives_dir_in, version_json_in,
};
use lynara::minecraft::{McError, Platform};

fn parts(p: &LauncherPath) -> Vec<&str> {
    p.segments.iter().map(|s| s.as_str()).collect()
}

#[test]
fn root_below_user_folder() {
    let root = root_dir_from(UserFolder::Home, Some(PathBuf::from("/home/alice"))).unwrap();
    assert_eq!(root.base, PathBuf::from("/home/alice"));
    assert_eq!(root.origin, Some(UserFolder::Home));
    assert_eq!(parts(&root), vec![".lynara"]);
}

#[test]
fn root_missing_user_folder() {
    match root_dir_from(UserFolder::Config, None) {
        Err(McError::Custom(m)) => assert_eq!(m, "Impossible de localiser le dossier utilisateur"),
        other => panic!("unexpected {:?}", other),
    }
}

#[test]
fn launcher_folders() {
    let p = Platform::Linux;
    if root_dir(p).is_err() {
        return;
    }
    assert_eq!(parts(&root_dir(p).unwrap()), vec![".lynara"]);
    assert_eq!(root_dir(p).unwrap().origin, Some(UserFolder::Home));
    assert_eq!(logs_dir(p).unwrap().origin, Some(UserFolder::Home));
    assert_eq!(parts(&versions_dir(p).unwrap()), vec![".lynara", "versions"]);
    assert_eq!(parts(&version_dir(p, "1.21.4").unwrap()), vec![".lynara", "versions", "1.21.4"]);
    assert_eq!(parts(&version_jar(p, "1.21.4").unwrap()), vec![".lynara", "versions", "1.21.4", "1.21.4.jar"]);
    assert_eq!(parts(&version_json(p, "1.21.4").unwrap()), vec![".lynara", "versions", "1.21.4", "1.21.4.json"]);
    assert_eq!(parts(&libraries_dir(p).unwrap()), vec![".lynara", "libraries"]);
    assert_eq!(parts(&assets_dir(p).unwrap()), vec![".lynara", "assets"]);
    assert_eq!(parts(&assets_indexes_dir(p).unwrap()), vec![".lynara", "assets", "indexes"]);
    assert_eq!(parts(&assets_objects_dir(p).unwrap()), vec![".lynara", "assets", "objects"]);
    assert_eq!(parts(&natives_dir(p, "1.21.4").unwrap()), vec![".lynara", "natives", "1.21.4"]);
    assert_eq!(parts(&java_runtime_dir(p).unwrap()), vec![".lynara", "java"]);
    assert_eq!(parts(&logs_dir(p).unwrap()), vec![".lynara", "logs"]);
}

#[test]
fn join_and_duplicate() {
    let root = LauncherPath { base: PathBuf::from("/r"), origin: None, segments: vec![] };
    let p = root.join("a").join("b/c.jar");
    let q = p.duplicate();
    assert_eq!(q.base, PathBuf::from("/r"));
    assert_eq!(parts(&q), vec!["a", "b/c.jar"]);
}

#[test]
fn user_folder_per_platform() {
    assert_eq!(user_folder(Platform::Windows), UserFolder::Config);
    assert_eq!(user_folder(Platform::MacOs), UserFolder::Config);
    assert_eq!(user_folder(Platform::Linux), UserFolder::Home);
    assert_eq!(user_folder(Platform::Other), UserFolder::Home);
}

#[test]
fn locations_below_a_given_root() {
    let root = root_dir_from(UserFolder::Config, Some(PathBuf::from("/c"))).unwrap();
    let jar = version_jar_in(&root, "1.21.4");
    assert_eq!(jar.base, PathBuf::from("/c"));
    assert_eq!(jar.origin, Some(UserFolder::Config));
    assert_eq!(parts(&jar), vec![".lynara", "versions", "1.21.4", "1.21.4.jar"]);
    assert_eq!(parts(&version_json_in(&root, "1.21.4")), vec![".lynara", "versions", "1.21.4", "1.21.4.json"]);
    assert_eq!(parts(&natives_dir_in(&root, "1.21.4")), vec![".lynara", "natives", "1.21.4"]);
}

#[test]
fn names_compared_as_paths_in_a_folder() {
    assert!(same_in_folder(Platform::Linux, "x.jar", "x.jar"));
    assert!(same_in_folder(Platform::Linux, "x.jar", "./x.jar"));
    assert!(same_in_folder(Platform::Linux, "x.jar", "x.jar/"));
    assert!(same_in_folder(Platform::Linux, "a/b.jar", "a//b.jar"));
    assert!(!same_in_folder(Platform::Linux, "x.jar", "y.jar"));
    assert!(!same_in_folder(Platform::Linux, "x.jar", "/x.jar"));
    assert!(!same_in_folder(Platform::Linux, "x.jar", ".\\x.jar"));
    assert!(same_in_folder(Platform::Windows, "x.jar", ".\\x.jar"));
}
