use lynara::minecraft::Platform;
use lynara::assets::{
    asset_transition, choose_download, first_asset_file, default_release, is_asset_file, lynara_assets,
    modrinth_versions_url, AssetAction, AssetEvent, AssetKind, AssetStatus, AssetStep, ModrinthFile,
    ModrinthHashes, ModrinthVersion,
};

fn file(name: &str, primary: bool) -> ModrinthFile {
    ModrinthFile {
        hashes: ModrinthHashes { sha1: "00".to_string() },
        url: format!("https://cdn.modrinth.com/{}", name),
        filename: name.to_string(),
        primary,
        size: 1,
    }
}

fn version(kind: &str, files: Vec<ModrinthFile>) -> ModrinthVersion {
    ModrinthVersion {
        id: "id".to_string(),
        name: "n".to_string(),
        version_number: "1".to_string(),
        files,
        game_versions: vec![],
        loaders: vec![],
        version_type: kind.to_string(),
        date_published: String::new(),
    }
}

#[test]
fn asset_kinds() {
    assert_eq!(AssetKind::Mod.folder(), "mods");
    assert_eq!(AssetKind::Shader.folder(), "shaderpacks");
    assert_eq!(AssetKind::ResourcePack.folder(), "resourcepacks");
    assert_eq!(AssetKind::Mod.loader_filter(), "fabric");
    assert_eq!(AssetKind::Shader.loader_filter(), "iris");
    assert_eq!(AssetKind::ResourcePack.loader_filter(), "minecraft");
    assert_eq!(default_release(), "release");
}

#[test]
fn bundled_assets() {
    let a = lynara_assets();
    let slugs: Vec<&str> = a.iter().map(|d| d.slug.as_str()).collect();
    assert_eq!(slugs, vec!["sodium", "iris", "complementary-reimagined", "excal"]);
    assert_eq!(a[2].kind, AssetKind::Shader);
    assert_eq!(a[3].filename_prefix, "Excalibur");
}

#[test]
fn modrinth_query() {
    assert_eq!(
        modrinth_versions_url("sodium", "fabric", "1.21.4"),
        "https://api.modrinth.com/v2/project/sodium/version?loaders=%5B%22fabric%22%5D&game_versions=%5B%22\
1.21.4%22%5D"
    );
}

#[test]
fn choose_release_and_primary_file() {
    let vs = vec![
        version("beta", vec![file("beta.jar", true)]),
        version("release", vec![file("extra.jar", false), file("main.jar", true)]),
    ];
    assert_eq!(choose_download(&vs).unwrap().unwrap().filename, "main.jar");
    let betas = vec![version("beta", vec![file("b1.jar", false), file("b2.jar", false)])];
    assert_eq!(choose_download(&betas).unwrap().unwrap().filename, "b1.jar");
    assert!(choose_download(&vec![]).unwrap().is_none());
    assert_eq!(choose_download(&vec![version("release", vec![])]).unwrap_err(), "No file in chosen version");
}

#[test]
fn installed_asset_files() {
    assert!(is_asset_file("sodium-fabric-0.6.0+mc1.21.4.jar", "sodium-fabric"));
    assert!(is_asset_file("Excalibur_V1.21.ZIP", "Excalibur"));
    assert!(!is_asset_file("excalibur.zip", "Excalibur"));
    assert!(!is_asset_file("sodium-fabric.txt", "sodium-fabric"));
}

/// Runs the first two steps of installing Sodium and returns the step that
/// waits for the folder's contents.
fn listed_sodium(versions: Vec<ModrinthVersion>) -> (AssetStep, AssetAction) {
    let sodium = &lynara_assets()[0];
    let (step, action) = asset_transition(Platform::Linux, sodium, "1.21.4", AssetStep::Start, AssetEvent::Begin);
    match action {
        AssetAction::List { url } => assert_eq!(
            url,
            "https://api.modrinth.com/v2/project/sodium/version?loaders=%5B%22fabric%22%5D&game_versions=%5B%22\
1.21.4%22%5D"
        ),
        other => panic!("unexpected {:?}", other),
    }
    asset_transition(Platform::Linux, sodium, "1.21.4", step, AssetEvent::Listed { versions: Ok(versions) })
}

#[test]
fn asset_without_versions_is_reported() {
    let (step, action) = listed_sodium(vec![]);
    assert!(matches!(step, AssetStep::Finished));
    assert!(matches!(action, AssetAction::Finish { status: Ok(AssetStatus::NoVersionAvailable) }));
}

#[test]
fn asset_version_without_file_fails() {
    let (_, action) = listed_sodium(vec![version("release", vec![])]);
    match action {
        AssetAction::Finish { status: Err(m) } => assert_eq!(m, "No file in chosen version"),
        other => panic!("unexpected {:?}", other),
    }
}

#[test]
fn present_asset_with_right_digest_is_kept() {
    let sodium = &lynara_assets()[0];
    let (step, action) = listed_sodium(vec![version("release", vec![file("sodium-fabric-1.jar", true)])]);
    match action {
        AssetAction::FindExisting { prefix } => assert_eq!(prefix, "sodium-fabric"),
        other => panic!("unexpected {:?}", other),
    }
    let found = AssetEvent::Found { existing: Ok(Some("sodium-fabric-1.jar".to_string())) };
    let (step, action) = asset_transition(Platform::Linux, sodium, "1.21.4", step, found);
    match &action {
        AssetAction::CheckExisting { name, sha1 } => {
            assert_eq!(name, "sodium-fabric-1.jar");
            assert_eq!(sha1, "00");
        }
        other => panic!("unexpected {:?}", other),
    }
    let (step, action) = asset_transition(Platform::Linux, sodium, "1.21.4", step, AssetEvent::Checked { matches: true });
    assert!(matches!(step, AssetStep::Finished));
    match action {
        AssetAction::Finish { status: Ok(AssetStatus::AlreadyPresent(n)) } => assert_eq!(n, "sodium-fabric-1.jar"),
        other => panic!("unexpected {:?}", other),
    }
}

#[test]
fn present_asset_with_wrong_digest_is_downloaded_again() {
    let sodium = &lynara_assets()[0];
    let (step, _) = listed_sodium(vec![version("release", vec![file("sodium-fabric-1.jar", true)])]);
    let found = AssetEvent::Found { existing: Ok(Some("sodium-fabric-1.jar".to_string())) };
    let (step, _) = asset_transition(Platform::Linux, sodium, "1.21.4", step, found);
    let (step, action) = asset_transition(Platform::Linux, sodium, "1.21.4", step, AssetEvent::Checked { matches: false });
    match action {
        AssetAction::Fetch { remove, url, name, sha1 } => {
            assert!(remove.is_none());
            assert_eq!(url, "https://cdn.modrinth.com/sodium-fabric-1.jar");
            assert_eq!(name, "sodium-fabric-1.jar");
            assert_eq!(sha1, "00");
        }
        other => panic!("unexpected {:?}", other),
    }
    let (_, action) = asset_transition(Platform::Linux, sodium, "1.21.4", step, AssetEvent::Fetched { result: Ok(()) });
    match action {
        AssetAction::Finish { status: Ok(AssetStatus::Downloaded(n)) } => assert_eq!(n, "sodium-fabric-1.jar"),
        other => panic!("unexpected {:?}", other),
    }
}

#[test]
fn other_asset_version_is_replaced() {
    let sodium = &lynara_assets()[0];
    let (step, _) = listed_sodium(vec![version("release", vec![file("sodium-fabric-2.jar", true)])]);
    let found = AssetEvent::Found { existing: Ok(Some("sodium-fabric-1.jar".to_string())) };
    let (step, action) = asset_transition(Platform::Linux, sodium, "1.21.4", step, found);
    match action {
        AssetAction::Fetch { remove, name, .. } => {
            assert_eq!(remove.as_deref(), Some("sodium-fabric-1.jar"));
            assert_eq!(name, "sodium-fabric-2.jar");
        }
        other => panic!("unexpected {:?}", other),
    }
    let failed = AssetEvent::Fetched { result: Err("SHA-1 mismatch after download".to_string()) };
    let (step, action) = asset_transition(Platform::Linux, sodium, "1.21.4", step, failed);
    assert!(matches!(step, AssetStep::Finished));
    match action {
        AssetAction::Finish { status: Err(m) } => assert_eq!(m, "SHA-1 mismatch after download"),
        other => panic!("unexpected {:?}", other),
    }
}

#[test]
fn absent_asset_is_downloaded() {
    let sodium = &lynara_assets()[0];
    let (step, _) = listed_sodium(vec![version("release", vec![file("sodium-fabric-2.jar", true)])]);
    let (_, action) = asset_transition(Platform::Linux, sodium, "1.21.4", step, AssetEvent::Found { existing: Ok(None) });
    assert!(matches!(action, AssetAction::Fetch { remove: None, .. }));
}

#[test]
fn first_installed_asset_file_in_listing_order() {
    let names = vec!["readme.txt".to_string(), "sodium-fabric-1.zip".to_string(), "sodium-fabric-2.jar".to_string()];
    assert_eq!(first_asset_file(&names, "sodium-fabric").as_deref(), Some("sodium-fabric-1.zip"));
    assert_eq!(first_asset_file(&names, "iris-fabric"), None);
}

#[test]
fn found_file_named_with_dot_is_the_chosen_one() {
    let sodium = &lynara_assets()[0];
    let (step, _) = listed_sodium(vec![version("release", vec![file("sodium-fabric-1.jar", true)])]);
    let found = AssetEvent::Found { existing: Ok(Some("./sodium-fabric-1.jar".to_string())) };
    let (_, action) = asset_transition(Platform::Linux, sodium, "1.21.4", step, found);
    assert!(matches!(action, AssetAction::CheckExisting { .. }));
}
