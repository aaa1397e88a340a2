use aureus_launcher::version_manager::{
    adoptium_assets_url, argument_values, asset_copy_destination, asset_index_path,
    asset_object_path, asset_object_url, check_download, check_runtime_archive, classpath,
    classpath_candidates, client_jar_path, collect_arguments, compatible_fabric_loader,
    default_mod_projects, existing_download_current, expected_sha1, fabric_loader_url,
    find_manifest_version, game_arguments, instance_mods_folder, is_unwanted_jar,
    java_runtime_directory, managed_mods_manifest,
    library_download_files, modrinth_versions_url, native_archive_path, native_entry_file,
    read_launch_metadata, rule_allows, runtime_archive_kind, runtime_unavailable_message,
    runtime_without_java_message, version_json_path, wanted_file_names, ArchiveKind,
    ArgumentEntry, ArgumentValue, ArtifactRef, FabricLoader, FeatureCondition, JavaSearch,
    LibraryDownloads, LibraryEntry, LibraryFile, ManifestVersion, ModResolver,
    ModrinthDependency, ModrinthFile, ModrinthVersion, Platform, ProjectResponse, Rule,
    SearchEntry, SearchStep, TargetArch, TargetOs, VersionDocument,
};

fn strings(items: &[&str]) -> Vec<String> {
    items.iter().map(|s| s.to_string()).collect()
}

fn rule(action: &str, os: Option<&str>, features: FeatureCondition) -> Rule {
    Rule { action: Some(action.into()), os_name: os.map(|s| s.to_string()), features }
}

#[test]
fn rules_the_last_applicable_one_decides() {
    assert!(rule_allows(&None, TargetOs::Linux));
    assert!(!rule_allows(&Some(vec![]), TargetOs::Linux));
    let rules = Some(vec![
        rule("allow", None, FeatureCondition::Absent),
        rule("disallow", Some("osx"), FeatureCondition::Absent),
    ]);
    assert!(rule_allows(&rules, TargetOs::Linux));
    assert!(!rule_allows(&rules, TargetOs::MacOs));
    let featured = Some(vec![rule("allow", None, FeatureCondition::Values(vec![Some(true)]))]);
    assert!(!rule_allows(&featured, TargetOs::Windows));
    let off = Some(vec![rule("allow", None, FeatureCondition::Values(vec![Some(false), Some(false)]))]);
    assert!(rule_allows(&off, TargetOs::Windows));
    let odd = Some(vec![rule("allow", None, FeatureCondition::NotObject)]);
    assert!(!rule_allows(&odd, TargetOs::Windows));
    let weird = Some(vec![rule("allow", None, FeatureCondition::Values(vec![None]))]);
    assert!(!rule_allows(&weird, TargetOs::Windows));
}

#[test]
fn argument_entries() {
    assert_eq!(argument_values(&ArgumentEntry::Plain("--demo".into()), TargetOs::Linux), strings(&["--demo"]));
    let cond = ArgumentEntry::Conditional(
        Some(vec![rule("allow", Some("windows"), FeatureCondition::Absent)]),
        ArgumentValue::Items(vec![Some("-Dos.name=Windows 10".into()), None, Some("-Dx".into())]),
    );
    assert_eq!(argument_values(&cond, TargetOs::Windows), strings(&["-Dos.name=Windows 10", "-Dx"]));
    assert!(argument_values(&cond, TargetOs::Linux).is_empty());
    let text = ArgumentEntry::Conditional(None, ArgumentValue::Text("-Xss1M".into()));
    assert_eq!(argument_values(&text, TargetOs::Linux), strings(&["-Xss1M"]));
    let other = ArgumentEntry::Conditional(None, ArgumentValue::Other);
    assert!(argument_values(&other, TargetOs::Linux).is_empty());
    assert_eq!(
        collect_arguments(&vec![ArgumentEntry::Plain("a".into()), text, other], TargetOs::Linux),
        strings(&["a", "-Xss1M"])
    );
}

fn document() -> VersionDocument {
    VersionDocument {
        main_class: Some("net.minecraft.client.main.Main".into()),
        game_arguments: None,
        minecraft_arguments: Some("--username ${auth_player_name} --title \"My Game\"".into()),
        jvm_arguments: Some(vec![ArgumentEntry::Plain("-cp".into())]),
        java_major: None,
        asset_index_id: Some("1.12".into()),
        libraries: vec![],
    }
}

#[test]
fn legacy_arguments_are_split_like_a_shell() {
    let meta = read_launch_metadata(&document(), TargetOs::Linux).unwrap();
    assert_eq!(meta.main_class, "net.minecraft.client.main.Main");
    assert_eq!(meta.game_args, strings(&["--username", "${auth_player_name}", "--title", "My Game"]));
    assert_eq!(meta.jvm_args, strings(&["-cp"]));
    assert_eq!(meta.java_major, 8);
    let mut broken = document();
    broken.minecraft_arguments = Some("--title \"unterminated".into());
    assert!(game_arguments(&broken, TargetOs::Linux).is_err());
    let mut none = document();
    none.main_class = None;
    assert_eq!(
        read_launch_metadata(&none, TargetOs::Linux).unwrap_err(),
        "La versión no define mainClass"
    );
    let mut modern = document();
    modern.game_arguments = Some(vec![ArgumentEntry::Plain("--demo".into())]);
    modern.java_major = Some(21);
    let meta = read_launch_metadata(&modern, TargetOs::Linux).unwrap();
    assert_eq!(meta.game_args, strings(&["--demo"]));
    assert_eq!(meta.java_major, 21);
}

fn library(name: &str, path: Option<&str>, rules: Option<Vec<Rule>>) -> LibraryEntry {
    LibraryEntry {
        name: Some(name.into()),
        rules,
        artifact: path.map(|p| ArtifactRef { path: Some(p.into()) }),
        classifiers: None,
    }
}

#[test]
fn classpath_of_a_version() {
    let mut doc = document();
    doc.libraries = vec![
        library("a:b:1", Some("a/b/1/b-1.jar"), None),
        library("c:d:2", Some("c/d/2/d-2.jar"), Some(vec![rule("allow", Some("osx"), FeatureCondition::Absent)])),
        library("e:f:3", None, None),
    ];
    assert_eq!(classpath_candidates(&doc, "/mc", TargetOs::Linux), strings(&["/mc/libraries/a/b/1/b-1.jar"]));
    assert_eq!(
        classpath_candidates(&doc, "/mc", TargetOs::MacOs),
        strings(&["/mc/libraries/a/b/1/b-1.jar", "/mc/libraries/c/d/2/d-2.jar"])
    );
    assert_eq!(
        classpath(&strings(&["x.jar", "y.jar", "z.jar"]), &vec![true, false, true], "client.jar"),
        strings(&["x.jar", "z.jar", "client.jar"])
    );
    assert_eq!(classpath(&vec![], &vec![], "client.jar"), strings(&["client.jar"]));
}

#[test]
fn native_archives_for_a_platform() {
    let mac = Platform { os: TargetOs::MacOs, arch: TargetArch::X64 };
    let linux = Platform { os: TargetOs::Linux, arch: TargetArch::X64 };
    let arm = Platform { os: TargetOs::MacOs, arch: TargetArch::Aarch64 };
    let legacy = LibraryEntry {
        name: Some("org.lwjgl.lwjgl:lwjgl-platform:2.9.4".into()),
        rules: None,
        artifact: None,
        classifiers: Some(vec![
            ("natives-linux".into(), ArtifactRef { path: Some("l.jar".into()) }),
            ("natives-osx-arm64".into(), ArtifactRef { path: Some("oa.jar".into()) }),
            ("natives-osx".into(), ArtifactRef { path: Some("o.jar".into()) }),
        ]),
    };
    assert_eq!(native_archive_path(&legacy, mac), Some("o.jar".to_string()));
    assert_eq!(native_archive_path(&legacy, linux), Some("l.jar".to_string()));
    let modern = library("org.lwjgl:lwjgl:3.3.3:natives-macos-arm64", Some("m-arm.jar"), None);
    assert_eq!(native_archive_path(&modern, arm), Some("m-arm.jar".to_string()));
    assert_eq!(native_archive_path(&modern, mac), None);
    let plain = library("org.lwjgl:lwjgl:3.3.3", Some("p.jar"), None);
    assert_eq!(native_archive_path(&plain, mac), None);
    assert_eq!(native_entry_file("org/lwjgl/liblwjgl.dylib", false), Some("liblwjgl.dylib".to_string()));
    assert_eq!(native_entry_file("META-INF/MANIFEST.MF", false), None);
    assert_eq!(native_entry_file("org/", true), None);
}

fn file(path: &str) -> LibraryFile {
    LibraryFile { path: path.into(), sha1: "s".into(), url: format!("https://x/{path}") }
}

#[test]
fn library_downloads_in_order() {
    let libs = vec![
        Some(LibraryDownloads { artifact: Some(file("a.jar")), classifiers: Some(vec![file("n1.jar"), file("n2.jar")]) }),
        None,
        Some(LibraryDownloads { artifact: None, classifiers: None }),
        Some(LibraryDownloads { artifact: Some(file("b.jar")), classifiers: None }),
    ];
    let r = library_download_files(&libs);
    let paths: Vec<&str> = r.iter().map(|f| f.path.as_str()).collect();
    assert_eq!(paths, vec!["a.jar", "n1.jar", "n2.jar", "b.jar"]);
    assert_eq!(r[3].url, "https://x/b.jar");
}

#[test]
fn catalog_and_file_layout() {
    let versions = vec![
        ManifestVersion { id: "1.20.4".into(), url: "u1".into(), sha1: "s1".into() },
        ManifestVersion { id: "1.21.11".into(), url: "u2".into(), sha1: "s2".into() },
    ];
    assert_eq!(find_manifest_version(&versions, "1.21.11").unwrap().url, "u2");
    assert_eq!(
        find_manifest_version(&versions, "9.9").unwrap_err(),
        "Minecraft 9.9 no existe en el catálogo oficial"
    );
    assert_eq!(version_json_path("/mc", "1.20.4"), "/mc/versions/1.20.4/1.20.4.json");
    assert_eq!(client_jar_path("/mc", "1.20.4"), "/mc/versions/1.20.4/1.20.4.jar");
    assert_eq!(asset_index_path("/mc", "12"), "/mc/assets/indexes/12.json");
    assert_eq!(
        asset_object_url("ab12"),
        Some("https://resources.download.minecraft.net/ab/ab12".to_string())
    );
    assert_eq!(asset_object_path("/mc", "ab12"), Some("/mc/assets/objects/ab/ab12".to_string()));
    assert_eq!(asset_object_path("/mc", "\u{e9}1"), Some("/mc/assets/objects/\u{e9}/\u{e9}1".to_string()));
    assert_eq!(asset_object_url("a"), None);
    assert_eq!(asset_object_path("/mc", "a\u{e9}"), None);
    assert_eq!(asset_copy_destination("/mc", true, "pre-1.6", "sound/a.ogg"), "/mc/assets/virtual/pre-1.6/sound/a.ogg");
    assert_eq!(asset_copy_destination("/mc", false, "legacy", "sound/a.ogg"), "/mc/resources/sound/a.ogg");
}

#[test]
fn downloads_are_checked_against_their_sha1() {
    let hello = b"hello".to_vec();
    assert!(existing_download_current(&Some(hello.clone()), "aaf4c61ddcc5e8a2dabede0f3b482cd9aea9434d"));
    assert!(existing_download_current(&Some(hello.clone()), ""));
    assert!(!existing_download_current(&Some(hello.clone()), "0000"));
    assert!(!existing_download_current(&None, ""));
    assert_eq!(check_download(&hello, "aaf4c61ddcc5e8a2dabede0f3b482cd9aea9434d", "u"), Ok(()));
    assert_eq!(check_download(&hello, "", "u"), Ok(()));
    assert_eq!(check_download(&hello, "beef", "https://a/b"), Err("Hash inválido al descargar https://a/b".to_string()));
}

#[test]
fn a_verified_download_is_current_next_time() {
    let sha1 = "aaf4c61ddcc5e8a2dabede0f3b482cd9aea9434d";
    let fetched = b"hello".to_vec();
    assert!(!existing_download_current(&None, sha1));
    assert_eq!(check_download(&fetched, sha1, "u"), Ok(()));
    assert!(existing_download_current(&Some(fetched), sha1));
    assert!(!existing_download_current(&Some(b"stale".to_vec()), sha1));
}

#[test]
fn managed_mods_are_recorded_beside_the_mods_folder() {
    assert_eq!(instance_mods_folder("/d/instances-data/x"), "/d/instances-data/x/mods");
    assert_eq!(managed_mods_manifest("/d/instances-data/x"), "/d/instances-data/x/aureus-managed-mods.json");
}

#[test]
fn fabric_loader_choice() {
    let loaders = vec![
        FabricLoader { version: "0.17.0-beta".into(), stable: false },
        FabricLoader { version: "0.16.9".into(), stable: true },
    ];
    assert_eq!(compatible_fabric_loader(&loaders), Some("0.16.9".to_string()));
    let unstable = vec![FabricLoader { version: "0.1".into(), stable: false }];
    assert_eq!(compatible_fabric_loader(&unstable), Some("0.1".to_string()));
    assert_eq!(compatible_fabric_loader(&vec![]), None);
    assert_eq!(fabric_loader_url("1.20.4"), "https://meta.fabricmc.net/v2/versions/loader/1.20.4");
}

#[test]
fn java_runtimes() {
    assert_eq!(java_runtime_directory("/rt", 21), "/rt/java-21");
    assert_eq!(
        adoptium_assets_url(17, Platform { os: TargetOs::MacOs, arch: TargetArch::Aarch64 }),
        "https://api.adoptium.net/v3/assets/latest/17/hotspot?architecture=aarch64&image_type=jre&os=mac&vendor=eclipse"
    );
    assert_eq!(
        check_runtime_archive(b"abc", "ba7816bf8f01cfea414140de5dae2223b00361a396177a9cb410ff61f20015ad", 21),
        Ok(())
    );
    assert_eq!(check_runtime_archive(b"abc", "BA78", 21), Err("Hash inválido para Java 21".to_string()));
    assert_eq!(runtime_unavailable_message(8), "No existe un runtime Java 8 para este sistema");
    assert_eq!(runtime_without_java_message(17), "Java 17 se descargó pero no contiene un ejecutable");
    assert_eq!(runtime_archive_kind(TargetOs::Windows), ArchiveKind::Zip);
    assert_eq!(runtime_archive_kind(TargetOs::Linux), ArchiveKind::TarGz);
}

fn entry(path: &str, is_dir: bool, parent: Option<&str>) -> SearchEntry {
    SearchEntry {
        path: path.into(),
        is_dir,
        file_name: path.rsplit('/').next().map(|s| s.to_string()),
        parent_name: parent.map(|s| s.to_string()),
    }
}

#[test]
fn java_search_is_breadth_first() {
    let mut s = JavaSearch::new("/rt/java-21".into(), TargetOs::Linux);
    assert_eq!(s.next_directory(), Some("/rt/java-21".to_string()));
    let step = s.visit(vec![entry("/rt/java-21/jdk", true, Some("java-21")), entry("/rt/java-21/java", false, Some("java-21"))]);
    assert_eq!(step, SearchStep::Continue);
    assert_eq!(s.next_directory(), Some("/rt/java-21/jdk".to_string()));
    let step = s.visit(vec![entry("/rt/java-21/jdk/bin", true, Some("jdk"))]);
    assert_eq!(step, SearchStep::Continue);
    assert_eq!(s.next_directory(), Some("/rt/java-21/jdk/bin".to_string()));
    let step = s.visit(vec![entry("/rt/java-21/jdk/bin/java", false, Some("bin"))]);
    assert_eq!(step, SearchStep::Found("/rt/java-21/jdk/bin/java".to_string()));
    let mut w = JavaSearch::new("/r".into(), TargetOs::Windows);
    assert_eq!(w.next_directory(), Some("/r".to_string()));
    assert_eq!(w.visit(vec![entry("/r/java", false, Some("bin"))]), SearchStep::Continue);
    assert_eq!(w.visit(vec![entry("javaw.exe", false, None)]), SearchStep::Stopped);
    assert_eq!(w.next_directory(), None);
}

fn mfile(name: &str, primary: bool) -> ModrinthFile {
    ModrinthFile { filename: name.into(), url: format!("https://cdn/{name}"), sha1: None, primary }
}

fn mversion(kind: &str, files: Vec<ModrinthFile>, deps: Vec<(&str, Option<&str>)>) -> ModrinthVersion {
    ModrinthVersion {
        version_type: kind.into(),
        files,
        dependencies: deps
            .into_iter()
            .map(|(t, p)| ModrinthDependency { dependency_type: t.into(), project_id: p.map(|s| s.to_string()) })
            .collect(),
    }
}

#[test]
fn dependencies_are_resolved_once_each() {
    let mut r = ModResolver::new(&strings(&["sodium", "lithium", "sodium"]));
    assert_eq!(r.next_project(), Some("sodium".to_string()));
    let versions = vec![
        mversion("beta", vec![mfile("sodium-beta.jar", true)], vec![]),
        mversion("release", vec![mfile("sodium-src.jar", false), mfile("sodium.jar", true)], vec![("required", Some("fabric-api")), ("optional", Some("iris"))]),
    ];
    assert_eq!(r.record("sodium".into(), ProjectResponse::Versions(versions)), Ok(()));
    assert_eq!(r.next_project(), Some("lithium".to_string()));
    assert_eq!(r.record("lithium".into(), ProjectResponse::Unavailable), Ok(()));
    assert_eq!(r.next_project(), Some("fabric-api".to_string()));
    assert_eq!(r.record("fabric-api".into(), ProjectResponse::Versions(vec![])), Ok(()));
    assert_eq!(r.next_project(), None);
    let (selected, unavailable) = r.finish();
    assert_eq!(selected.len(), 1);
    assert_eq!(selected[0].filename, "sodium.jar");
    assert_eq!(unavailable, strings(&["lithium", "fabric-api"]));
}

#[test]
fn a_version_without_files_is_an_error() {
    let mut r = ModResolver::new(&strings(&["x"]));
    assert_eq!(r.next_project(), Some("x".to_string()));
    let v = vec![mversion("alpha", vec![], vec![])];
    assert_eq!(
        r.record("x".into(), ProjectResponse::Versions(v)),
        Err("x no publicó un archivo descargable".to_string())
    );
}

#[test]
fn modrinth_helpers() {
    let projects = default_mod_projects();
    assert_eq!(projects.len(), 28);
    assert_eq!(projects[0], "fabric-api");
    assert_eq!(projects[27], "simple-voice-chat");
    assert_eq!(
        modrinth_versions_url("sodium", "1.21.11"),
        "https://api.modrinth.com/v2/project/sodium/version?loaders=%5B%22fabric%22%5D&game_versions=%5B%221.21.11%22%5D&include_changelog=false"
    );
    let files = vec![mfile("a.jar", true), mfile("b.jar", false)];
    let wanted = wanted_file_names(&files);
    assert_eq!(wanted, strings(&["a.jar", "b.jar"]));
    let managed = strings(&["old.jar", "a.jar", "notes.txt"]);
    assert!(is_unwanted_jar(&Some("old.jar".into()), &wanted, &managed));
    assert!(!is_unwanted_jar(&Some("a.jar".into()), &wanted, &managed));
    assert!(!is_unwanted_jar(&Some("notes.txt".into()), &wanted, &managed));
    assert!(!is_unwanted_jar(&Some("mine.jar".into()), &wanted, &managed));
    assert!(!is_unwanted_jar(&None, &wanted, &managed));
    let mut f = mfile("c.jar", true);
    assert_eq!(expected_sha1(&f), "");
    f.sha1 = Some("abc".into());
    assert_eq!(expected_sha1(&f), "abc");
}
