use std::path::PathBuf;

use lynara::auth::UserProfile;
use lynara::keyed::KeyedList;
use lynara::minecraft::fabric::{FabricArguments, FabricLibrary, FabricProfile};
use lynara::minecraft::launcher::{
    build_classpath, classpath_separator, launch_arguments, load_options_from_session,
    native_entry_target, native_jars, LaunchOptions,
};
use lynara::minecraft::manifest::{
    Artifact, AssetIndexRef, ClientDownloads, JavaVersion, Library, LibraryDownloads, OsRule, Rule,
    VersionManifest,
};
use lynara::minecraft::paths::LauncherPath;
use lynara::minecraft::{McError, Platform};

fn profile() -> UserProfile {
    UserProfile {
        username: "Steve".to_string(),
        uuid: "uuid-1".to_string(),
        email: None,
        mc_access_token: "tok".to_string(),
        ms_refresh_token: "refresh".to_string(),
    }
}

fn artifact(path: Option<&str>) -> Artifact {
    Artifact { path: path.map(|p| p.to_string()), sha1: "00".to_string(), size: 1, url: "u".to_string() }
}

fn manifest_with(libraries: Vec<Library>) -> VersionManifest {
    VersionManifest {
        id: "1.21.4".to_string(),
        version_type: "release".to_string(),
        java_version: JavaVersion { component: "j".to_string(), major_version: 21 },
        main_class: "net.minecraft.client.main.Main".to_string(),
        asset_index: AssetIndexRef { id: "19".to_string(), sha1: "a".to_string(), size: 1, total_size: 1, url: "u".to_string() },
        assets: "19".to_string(),
        libraries,
        downloads: ClientDownloads { client: artifact(Some("c.jar")), server: None },
        arguments: None,
        minecraft_arguments: None,
    }
}

fn fabric_profile(jvm: Vec<&str>) -> FabricProfile {
    FabricProfile {
        id: "fabric-loader-0.16.10-1.21.4".to_string(),
        inherits_from: "1.21.4".to_string(),
        main_class: "net.fabricmc.loader.impl.launch.knot.KnotClient".to_string(),
        libraries: vec![FabricLibrary {
            name: "net.fabricmc:fabric-loader:0.16.10".to_string(),
            url: "https://maven.fabricmc.net/".to_string(),
            sha1: None,
        }],
        arguments: Some(FabricArguments { game: vec![], jvm: jvm.into_iter().map(|s| s.to_string()).collect() }),
    }
}

#[test]
fn options_from_loaded_session() {
    let o = load_options_from_session(Ok(Some(profile()))).unwrap();
    assert_eq!(o.username, "Steve");
    assert_eq!(o.uuid, "uuid-1");
    assert_eq!(o.access_token, "tok");
    assert_eq!(o.max_ram_mb, 4096);
    assert_eq!(o.min_ram_mb, 1024);
    assert!(o.server_address.is_none());
    assert!(o.fabric_profile.is_none());
}

#[test]
fn options_without_session() {
    match load_options_from_session(Ok(None)) {
        Err(McError::Custom(m)) => assert_eq!(m, "Pas connecté à Microsoft"),
        other => panic!("unexpected {:?}", other.is_ok()),
    }
    match load_options_from_session(Err("keyring down".to_string())) {
        Err(McError::Custom(m)) => assert_eq!(m, "Auth: keyring down"),
        other => panic!("unexpected {:?}", other.is_ok()),
    }
}

#[test]
fn native_jars_for_classifier_and_named_artifact() {
    let mut classifiers = KeyedList::new();
    classifiers.insert("natives-linux".to_string(), artifact(None));
    let old_style = Library {
        name: "org.lwjgl.lwjgl:lwjgl-platform:2.9.4".to_string(),
        downloads: Some(LibraryDownloads { artifact: None, classifiers: Some(classifiers) }),
        rules: None,
        natives: None,
    };
    let new_style = Library {
        name: "org.lwjgl:lwjgl:3.3.3:natives-linux".to_string(),
        downloads: Some(LibraryDownloads { artifact: Some(artifact(None)), classifiers: None }),
        rules: None,
        natives: None,
    };
    let windows_only = Library {
        name: "org.lwjgl:lwjgl:3.3.3:natives-windows".to_string(),
        downloads: Some(LibraryDownloads { artifact: Some(artifact(Some("w.jar"))), classifiers: None }),
        rules: Some(vec![Rule { action: "allow".to_string(), os: Some(OsRule { name: Some("windows".to_string()), arch: None, version: None }) }]),
        natives: None,
    };
    let m = manifest_with(vec![old_style, new_style, windows_only]);
    let jars = native_jars(Platform::Linux, &m).unwrap();
    assert_eq!(
        jars,
        vec![
            "org/lwjgl/lwjgl/lwjgl-platform/2.9.4/lwjgl-platform-2.9.4-natives-linux.jar".to_string(),
            "org/lwjgl/lwjgl/3.3.3/lwjgl-3.3.3-natives-linux.jar".to_string(),
        ]
    );
}

#[test]
fn native_jars_on_unsupported_platform() {
    match native_jars(Platform::Other, &manifest_with(vec![])) {
        Err(McError::Custom(m)) => assert_eq!(m, "Plateforme non supportée"),
        other => panic!("unexpected {:?}", other),
    }
}

#[test]
fn native_entries_flattened() {
    assert_eq!(native_entry_target("linux/x64/org/lwjgl/liblwjgl.so").as_deref(), Some("liblwjgl.so"));
    assert_eq!(native_entry_target("lwjgl.DLL").as_deref(), Some("lwjgl.DLL"));
    assert_eq!(native_entry_target("macos/libglfw.dylib").as_deref(), Some("libglfw.dylib"));
    assert_eq!(native_entry_target("liblwjgl.jnilib").as_deref(), Some("liblwjgl.jnilib"));
    assert_eq!(native_entry_target("META-INF/x.dll"), None);
    assert_eq!(native_entry_target("natives.dll/"), None);
    assert_eq!(native_entry_target("org/lwjgl/Sys.class"), None);
}

#[test]
fn classpath_order() {
    let root = LauncherPath { base: PathBuf::from("/home/a"), origin: None, segments: vec![".lynara".to_string()] };
    let lib = Library {
        name: "com.mojang:authlib:5.0.51".to_string(),
        downloads: Some(LibraryDownloads { artifact: Some(artifact(None)), classifiers: None }),
        rules: None,
        natives: None,
    };
    let m = manifest_with(vec![lib]);
    let fp = fabric_profile(vec![]);
    let entries = build_classpath(Platform::Linux, &root, &m, Some(&fp));
    let rendered: Vec<Vec<String>> = entries.iter().map(|e| e.segments.clone()).collect();
    assert_eq!(
        rendered,
        vec![
            vec![".lynara", "libraries", "net/fabricmc/fabric-loader/0.16.10/fabric-loader-0.16.10.jar"],
            vec![".lynara", "libraries", "com/mojang/authlib/5.0.51/authlib-5.0.51.jar"],
            vec![".lynara", "versions", "1.21.4", "1.21.4.jar"],
        ]
        .into_iter()
        .map(|v| v.into_iter().map(|s| s.to_string()).collect::<Vec<String>>())
        .collect::<Vec<_>>()
    );
    assert!(entries.iter().all(|e| e.base == PathBuf::from("/home/a")));
    assert_eq!(classpath_separator(Platform::Windows), ";");
    assert_eq!(classpath_separator(Platform::Linux), ":");
}

#[test]
fn launch_arguments_vanilla() {
    let mut o = LaunchOptions::from_profile(profile());
    o.server_address = Some("play.lynara.fr".to_string());
    let m = manifest_with(vec![]);
    let args = launch_arguments(&o, &m, "CP", "/n", "/g", "/a");
    assert_eq!(args[0], "-Xmx4096M");
    assert_eq!(args[1], "-Xms1024M");
    assert_eq!(args[2], "-Djava.library.path=/n");
    assert_eq!(args[14], "-cp");
    assert_eq!(args[15], "CP");
    assert_eq!(args[16], "net.minecraft.client.main.Main");
    let tail: Vec<&str> = args[17..].iter().map(|s| s.as_str()).collect();
    assert_eq!(
        tail,
        vec![
            "--username", "Steve", "--version", "1.21.4", "--gameDir", "/g", "--assetsDir", "/a",
            "--assetIndex", "19", "--uuid", "uuid-1", "--accessToken", "tok", "--clientId", "",
            "--xuid", "", "--userType", "msa", "--versionType", "release",
            "--quickPlayMultiplayer", "play.lynara.fr",
        ]
    );
}

#[test]
fn launch_arguments_with_fabric() {
    let mut o = LaunchOptions::from_profile(profile());
    o.fabric_profile = Some(fabric_profile(vec!["  -DFabricMcEmu= net.minecraft.client.main.Main ", "   "]));
    let m = manifest_with(vec![]);
    let args = launch_arguments(&o, &m, "CP", "/n", "/g", "/a");
    assert_eq!(args[14], "-DFabricMcEmu= net.minecraft.client.main.Main");
    assert_eq!(args[15], "-cp");
    assert_eq!(args[17], "net.fabricmc.loader.impl.launch.knot.KnotClient");
    assert_eq!(args.len(), 18 + 22);
}
