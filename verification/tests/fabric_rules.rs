use lynara::minecraft::fabric::{
    latest_loader, library_url, loader_versions_url, maven_path, profile_url, FabricLibrary,
    FabricLoaderEntry, FabricVersionInfo,
};
use lynara::minecraft::manifest;
use lynara::minecraft::McError;

fn loader(version: &str, stable: bool) -> FabricLoaderEntry {
    FabricLoaderEntry {
        loader: FabricVersionInfo { version: version.to_string(), stable },
        intermediary: FabricVersionInfo { version: "1.21.4".to_string(), stable: true },
    }
}

#[test]
fn fabric_maven_path_documented_example() {
    assert_eq!(
        maven_path("net.fabricmc:fabric-loader:0.16.10"),
        "net/fabricmc/fabric-loader/0.16.10/fabric-loader-0.16.10.jar"
    );
}

#[test]
fn fabric_maven_path_ignores_classifier() {
    assert_eq!(maven_path("a:b:1:c"), "a/b/1/b-1.jar");
    assert_eq!(maven_path("a:b"), "a/b");
}

#[test]
fn maven_layouts_agree_without_classifier() {
    for name in ["net.fabricmc:fabric-loader:0.16.10", "a:b", "x", "org.ow2.asm:asm:9.7"] {
        assert_eq!(maven_path(name), manifest::maven_path(name));
    }
}

#[test]
fn library_url_trims_trailing_slashes() {
    let lib = FabricLibrary {
        name: "net.fabricmc:sponge-mixin:0.15.4".to_string(),
        url: "https://maven.fabricmc.net//".to_string(),
        sha1: None,
    };
    assert_eq!(
        library_url(&lib),
        "https://maven.fabricmc.net/net/fabricmc/sponge-mixin/0.15.4/sponge-mixin-0.15.4.jar"
    );
}

#[test]
fn latest_loader_prefers_first_stable() {
    let v = vec![loader("0.17.0", false), loader("0.16.10", true), loader("0.16.9", true)];
    assert_eq!(latest_loader("1.21.4", &v).unwrap(), "0.16.10");
}

#[test]
fn latest_loader_falls_back_to_first() {
    let v = vec![loader("0.17.0", false), loader("0.16.10", false)];
    assert_eq!(latest_loader("1.21.4", &v).unwrap(), "0.17.0");
}

#[test]
fn latest_loader_without_versions_fails() {
    match latest_loader("1.99", &vec![]) {
        Err(McError::Custom(m)) => assert_eq!(m, "Aucune version Fabric pour 1.99"),
        other => panic!("unexpected {:?}", other),
    }
}

#[test]
fn fabric_meta_addresses() {
    assert_eq!(loader_versions_url("1.21.4"), "https://meta.fabricmc.net/v2/versions/loader/1.21.4");
    assert_eq!(
        profile_url("1.21.4", "0.16.10"),
        "https://meta.fabricmc.net/v2/versions/loader/1.21.4/0.16.10/profile/json"
    );
}
