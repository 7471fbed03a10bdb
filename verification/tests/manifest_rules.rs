use lynara::keyed::KeyedList;
use lynara::minecraft::manifest::{
    current_native_classifier, estimate_initial_download_size, find_version, is_library_allowed,
    maven_path, os_matches, try_estimate_initial_download_size, Artifact, AssetIndexRef,
    ClientDownloads, GlobalManifest, JavaVersion, LatestVersions, Library, LibraryDownloads,
    OsRule, Rule, VersionEntry, VersionManifest,
};
use lynara::minecraft::{McError, Platform};

fn entry(id: &str, url: &str) -> VersionEntry {
    VersionEntry {
        id: id.to_string(),
        version_type: "release".to_string(),
        url: url.to_string(),
        time: String::new(),
        release_time: String::new(),
        sha1: String::new(),
        compliance_level: 1,
    }
}

fn global(entries: Vec<VersionEntry>) -> GlobalManifest {
    GlobalManifest {
        latest: LatestVersions { release: "1.21.4".to_string(), snapshot: "25w01a".to_string() },
        versions: entries,
    }
}

fn rule(action: &str, os: Option<&str>) -> Rule {
    Rule {
        action: action.to_string(),
        os: os.map(|n| OsRule { name: Some(n.to_string()), arch: None, version: None }),
    }
}

fn artifact(path: Option<&str>, size: u64) -> Artifact {
    Artifact {
        path: path.map(|p| p.to_string()),
        sha1: "00".to_string(),
        size,
        url: format!("https://libraries.minecraft.net/{}", path.unwrap_or("x")),
    }
}

fn lib(name: &str, rules: Option<Vec<Rule>>, art: Option<Artifact>, natives: Vec<(&str, Artifact)>) -> Library {
    let classifiers = if natives.is_empty() {
        None
    } else {
        let mut m = KeyedList::new();
        for (k, a) in natives {
            m.insert(k.to_string(), a);
        }
        Some(m)
    };
    Library {
        name: name.to_string(),
        downloads: Some(LibraryDownloads { artifact: art, classifiers }),
        rules,
        natives: None,
    }
}

fn manifest_with(libraries: Vec<Library>) -> VersionManifest {
    VersionManifest {
        id: "1.21.4".to_string(),
        version_type: "release".to_string(),
        java_version: JavaVersion { component: "java-runtime-delta".to_string(), major_version: 21 },
        main_class: "net.minecraft.client.main.Main".to_string(),
        asset_index: AssetIndexRef {
            id: "19".to_string(),
            sha1: "aa".to_string(),
            size: 100,
            total_size: 1000,
            url: "https://piston-meta.mojang.com/19.json".to_string(),
        },
        assets: "19".to_string(),
        libraries,
        downloads: ClientDownloads { client: artifact(Some("client.jar"), 1000), server: None },
        arguments: None,
        minecraft_arguments: None,
    }
}

#[test]
fn find_version_returns_first_match() {
    let g = global(vec![entry("1.20", "a"), entry("1.21.4", "b"), entry("1.21.4", "c")]);
    let e = find_version(&g, "1.21.4").unwrap();
    assert_eq!(e.url, "b");
}

#[test]
fn find_version_reports_missing_version() {
    let g = global(vec![entry("1.20", "a")]);
    match find_version(&g, "9.9") {
        Err(McError::VersionNotFound(id)) => assert_eq!(id, "9.9"),
        other => panic!("unexpected {:?}", other.map(|e| e.id.clone())),
    }
}

#[test]
fn os_names_of_rules() {
    assert!(os_matches(Platform::Windows, "windows"));
    assert!(os_matches(Platform::MacOs, "osx"));
    assert!(os_matches(Platform::MacOs, "macos"));
    assert!(os_matches(Platform::Linux, "linux"));
    assert!(!os_matches(Platform::Linux, "windows"));
    assert!(!os_matches(Platform::Other, "linux"));
    assert!(!os_matches(Platform::Linux, "freebsd"));
}

#[test]
fn library_without_rules_is_allowed() {
    assert!(is_library_allowed(Platform::Linux, &lib("a:b:1", None, None, vec![])));
}

#[test]
fn empty_rule_list_excludes_library() {
    assert!(!is_library_allowed(Platform::Linux, &lib("a:b:1", Some(vec![]), None, vec![])));
}

#[test]
fn later_rule_overrides_earlier() {
    let rules = vec![rule("allow", None), rule("disallow", Some("osx"))];
    let l = lib("a:b:1", Some(rules), None, vec![]);
    assert!(is_library_allowed(Platform::Windows, &l));
    assert!(is_library_allowed(Platform::Linux, &l));
    assert!(!is_library_allowed(Platform::MacOs, &l));
}

#[test]
fn only_matching_os_rule_allows() {
    let l = lib("a:b:1", Some(vec![rule("allow", Some("windows"))]), None, vec![]);
    assert!(is_library_allowed(Platform::Windows, &l));
    assert!(!is_library_allowed(Platform::Linux, &l));
}

#[test]
fn native_classifiers_per_platform() {
    assert_eq!(current_native_classifier(Platform::Windows), Some("natives-windows"));
    assert_eq!(current_native_classifier(Platform::MacOs), Some("natives-macos"));
    assert_eq!(current_native_classifier(Platform::Linux), Some("natives-linux"));
    assert_eq!(current_native_classifier(Platform::Other), None);
}

#[test]
fn maven_path_documented_example() {
    assert_eq!(maven_path("com.mojang:authlib:5.0.51"), "com/mojang/authlib/5.0.51/authlib-5.0.51.jar");
}

#[test]
fn maven_path_with_classifier() {
    assert_eq!(
        maven_path("org.lwjgl:lwjgl:3.3.3:natives-windows"),
        "org/lwjgl/lwjgl/3.3.3/lwjgl-3.3.3-natives-windows.jar"
    );
    assert_eq!(maven_path("a:b:1:c:extra"), "a/b/1/b-1-c.jar");
}

#[test]
fn maven_path_short_name() {
    assert_eq!(maven_path("a.b:c"), "a.b/c");
    assert_eq!(maven_path("plain"), "plain");
}

#[test]
fn estimate_counts_allowed_libraries_and_natives() {
    let libs = vec![
        lib("a:b:1", None, Some(artifact(Some("a/b.jar"), 10)), vec![("natives-linux", artifact(None, 5)), ("natives-windows", artifact(None, 7))]),
        lib("c:d:1", Some(vec![rule("allow", Some("osx"))]), Some(artifact(None, 1000)), vec![]),
        Library { name: "e:f:1".to_string(), downloads: None, rules: None, natives: None },
    ];
    let m = manifest_with(libs);
    assert_eq!(estimate_initial_download_size(Platform::Linux, &m), 1000 + 100 + 10 + 5);
    assert_eq!(estimate_initial_download_size(Platform::Windows, &m), 1000 + 100 + 10 + 7);
    assert_eq!(estimate_initial_download_size(Platform::MacOs, &m), 1000 + 100 + 10 + 1000);
    assert_eq!(estimate_initial_download_size(Platform::Other, &m), 1000 + 100 + 10);
}

#[test]
fn estimate_reports_overflow() {
    let libs = vec![lib("a:b:1", None, Some(artifact(None, u64::MAX)), vec![])];
    let m = manifest_with(libs);
    assert_eq!(try_estimate_initial_download_size(Platform::Linux, &m), None);
    assert_eq!(try_estimate_initial_download_size(Platform::Linux, &manifest_with(vec![])), Some(1100));
}
