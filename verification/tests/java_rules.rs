use std::path::PathBuf;

use lynara::minecraft::java::{
    adoptium_url, check_java, first_adoptium_release, get_or_detect_java, install_folder,
    java_executable, java_search_step, parse_java_version, AdoptiumPackage, JavaFolder,
    JavaProbe, JavaSearchAction, JavaSearchState,
};
use lynara::minecraft::McError;
use lynara::minecraft::Platform;

#[test]
fn parse_modern_version() {
    assert_eq!(parse_java_version("openjdk version \"21.0.1\" 2023-10-17"), Some(21));
    assert_eq!(parse_java_version("openjdk version \"17.0.7\" 2023-04-18"), Some(17));
}

#[test]
fn parse_legacy_version() {
    assert_eq!(parse_java_version("java version \"1.8.0_271\""), Some(8));
}

#[test]
fn parse_without_quotes_or_number() {
    assert_eq!(parse_java_version("no version here"), None);
    assert_eq!(parse_java_version("version \"21"), None);
    assert_eq!(parse_java_version("version \"abc\""), None);
    assert_eq!(parse_java_version("version \"1\""), Some(1));
    assert_eq!(parse_java_version("version \"1.x\""), None);
    assert_eq!(parse_java_version("version \"22-ea\""), None);
}

#[test]
fn check_java_requires_major_version() {
    let out = "openjdk version \"17.0.7\" 2023-04-18";
    assert!(check_java(PathBuf::from("java"), out, 21).is_none());
    let found = check_java(PathBuf::from("/opt/jdk/bin/java"), out, 17).unwrap();
    assert_eq!(found.version, 17);
    assert_eq!(found.path, PathBuf::from("/opt/jdk/bin/java"));
}

#[test]
fn java_executable_names() {
    assert_eq!(java_executable(Platform::Windows), "java.exe");
    assert_eq!(java_executable(Platform::Linux), "java");
    assert_eq!(java_executable(Platform::MacOs), "java");
}

#[test]
fn adoptium_query() {
    assert_eq!(
        adoptium_url(21, Platform::Windows, false),
        "https://api.adoptium.net/v3/assets/latest/21/hotspot?architecture=x64&image_type=jre&os=windows&vendor=eclipse"
    );
    assert_eq!(
        adoptium_url(17, Platform::MacOs, true),
        "https://api.adoptium.net/v3/assets/latest/17/hotspot?architecture=aarch64&image_type=jre&os=mac&vendor=eclipse"
    );
    assert_eq!(
        adoptium_url(8, Platform::Other, false),
        "https://api.adoptium.net/v3/assets/latest/8/hotspot?architecture=x64&image_type=jre&os=linux&vendor=eclipse"
    );
}

#[test]
fn quoted_major_is_read_in_both_numberings() {
    assert_eq!(parse_java_version("build \"25\" extra"), Some(25));
    assert_eq!(parse_java_version("build \"25.0.2\""), Some(25));
    assert_eq!(parse_java_version("build \"1.25\""), Some(25));
    assert_eq!(parse_java_version("build \"1.7.0_80\" x"), Some(7));
}


/// The folder text and components of a `Check` action.
fn checked(a: &JavaSearchAction) -> (Option<String>, Vec<String>) {
    match a {
        JavaSearchAction::Check { candidate } => (
            match &candidate.start {
                JavaFolder::Text(t) => Some(t.clone()),
                JavaFolder::Runtime => None,
            },
            candidate.parts.clone(),
        ),
        other => panic!("unexpected {:?}", other),
    }
}

fn listed(a: &JavaSearchAction) -> Option<String> {
    match a {
        JavaSearchAction::List { folder: JavaFolder::Text(t) } => Some(t.clone()),
        JavaSearchAction::List { folder: JavaFolder::Runtime } => None,
        other => panic!("unexpected {:?}", other),
    }
}

fn none() -> JavaProbe {
    JavaProbe::Ran { path: PathBuf::from("x"), stderr: None }
}

#[test]
fn java_search_order_on_windows() {
    let p = Platform::Windows;
    let (s, a) = get_or_detect_java(p, 21);
    assert!(matches!(s, JavaSearchState::AwaitHome));
    assert!(matches!(a, JavaSearchAction::ReadJavaHome));
    let (s, a) = java_search_step(p, 21, s, JavaProbe::JavaHome { value: Some("C:\\jdk".to_string()) });
    assert_eq!(checked(&a), (Some("C:\\jdk".to_string()), vec!["bin".to_string(), "java.exe".to_string()]));
    let (s, a) = java_search_step(p, 21, s, none());
    assert_eq!(checked(&a), (Some("java".to_string()), vec![]));
    let (mut s, mut a) = java_search_step(p, 21, s, none());
    // The five install folders, in order; the second holds two installs.
    for i in 0..5 {
        assert_eq!(listed(&a), Some(install_folder(i).to_string()));
        if i == 1 {
            let entries = vec!["jdk-17".to_string(), "jdk-21".to_string()];
            let (s1, a1) = java_search_step(p, 21, s, JavaProbe::Listed { entries: Some(entries) });
            assert_eq!(checked(&a1).1, vec!["jdk-17", "bin", "java.exe"]);
            let (s2, a2) = java_search_step(p, 21, s1, none());
            assert_eq!(checked(&a2), (Some(install_folder(1).to_string()), vec!["jdk-21".to_string(), "bin".to_string(), "java.exe".to_string()]));
            let r = java_search_step(p, 21, s2, none());
            s = r.0;
            a = r.1;
        } else {
            let r = java_search_step(p, 21, s, JavaProbe::Listed { entries: None });
            s = r.0;
            a = r.1;
        }
    }
    assert_eq!(listed(&a), None);
    let (s, a) = java_search_step(p, 21, s, JavaProbe::Listed { entries: Some(vec!["jre-21".to_string()]) });
    assert_eq!(checked(&a), (None, vec!["jre-21".to_string(), "bin".to_string(), "java.exe".to_string()]));
    let (s, a) = java_search_step(p, 21, s, none());
    assert!(matches!(s, JavaSearchState::Finished));
    assert!(matches!(a, JavaSearchAction::Finish { found: None }));
}

#[test]
fn java_search_stops_at_first_valid() {
    let p = Platform::Linux;
    let (s, _) = get_or_detect_java(p, 17);
    let (s, a) = java_search_step(p, 17, s, JavaProbe::JavaHome { value: None });
    assert_eq!(checked(&a), (Some("java".to_string()), vec![]));
    let (s, a) = java_search_step(p, 17, s, none());
    // Not on Windows: straight to the runtime folder.
    assert_eq!(listed(&a), None);
    let (s, a) = java_search_step(p, 17, s, JavaProbe::Listed { entries: Some(vec!["jre".to_string()]) });
    assert_eq!(checked(&a).1, vec!["jre", "bin", "java"]);
    // A Java too old does not stop the search.
    let old = JavaProbe::Ran { path: PathBuf::from("/j/bin/java"), stderr: Some("version \"11.0.2\"".to_string()) };
    let (s, a) = java_search_step(p, 17, s, old);
    assert!(matches!(s, JavaSearchState::Finished));
    assert!(matches!(a, JavaSearchAction::Finish { found: None }));
    let (s, _) = get_or_detect_java(p, 17);
    let (s, _) = java_search_step(p, 17, s, JavaProbe::JavaHome { value: None });
    let ok = JavaProbe::Ran { path: PathBuf::from("java"), stderr: Some("openjdk version \"21.0.1\"".to_string()) };
    let (s, a) = java_search_step(p, 17, s, ok);
    assert!(matches!(s, JavaSearchState::Finished));
    match a {
        JavaSearchAction::Finish { found: Some(j) } => {
            assert_eq!(j.version, 21);
            assert_eq!(j.path, PathBuf::from("java"));
        }
        other => panic!("unexpected {:?}", other),
    }
}

#[test]
fn java_search_without_runtime_folder_finds_nothing() {
    let p = Platform::MacOs;
    let (s, _) = get_or_detect_java(p, 17);
    let (s, _) = java_search_step(p, 17, s, JavaProbe::JavaHome { value: None });
    let (s, _) = java_search_step(p, 17, s, none());
    let (_, a) = java_search_step(p, 17, s, JavaProbe::Listed { entries: None });
    assert!(matches!(a, JavaSearchAction::Finish { found: None }));
}

#[test]
fn adoptium_first_release() {
    let packages = vec![
        AdoptiumPackage { link: "https://a/1".to_string(), name: "jre1.tar.gz".to_string() },
        AdoptiumPackage { link: "https://a/2".to_string(), name: "jre2.tar.gz".to_string() },
    ];
    assert_eq!(first_adoptium_release(packages).unwrap(), ("https://a/1".to_string(), "jre1.tar.gz".to_string()));
    match first_adoptium_release(vec![]) {
        Err(McError::Custom(m)) => assert_eq!(m, "Aucune release Adoptium trouvée"),
        other => panic!("unexpected {:?}", other),
    }
}
