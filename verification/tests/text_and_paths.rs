use aureus_launcher::digests::{lower_hex_string, sha1_hex, sha1_matches, sha256_hex, sha256_matches};
use aureus_launcher::paths::{
    content_directory, content_folder_of, extension_of, file_name_of, instance_root,
    instances_file, instances_path, join_path_str, library_path_from_name, maven_library_path,
    selected_instance_path, selected_version_path, validate_id,
};
use aureus_launcher::text::{
    decimal_string, join_strings, parse_u64_str, replace_str, split_lines, split_whitespace_str,
    trim_str,
};

#[test]
fn joining_paths() {
    assert_eq!(join_path_str("/a", "b"), "/a/b");
    assert_eq!(join_path_str("/a/", "b"), "/a/b");
    assert_eq!(join_path_str("", "b"), "b");
    assert_eq!(join_path_str("/a", "/abs"), "/abs");
}

#[test]
fn launcher_files() {
    assert_eq!(instances_path("/cfg/Aureus Launcher"), "/cfg/Aureus Launcher/instances.json");
    assert_eq!(selected_version_path("/d"), "/d/selected-version.txt");
    assert_eq!(selected_instance_path("/d"), "/d/selected-instance.txt");
    assert_eq!(instances_file("/d"), "/d/managed-instances.json");
}

#[test]
fn instance_ids() {
    assert_eq!(validate_id("my.pack_1-2"), Ok(()));
    assert_eq!(validate_id(""), Err("Identificador de instancia no válido".to_string()));
    assert_eq!(validate_id("a/b"), Err("Identificador de instancia no válido".to_string()));
    assert_eq!(validate_id("ñ"), Err("Identificador de instancia no válido".to_string()));
    assert_eq!(instance_root("/d", "p"), Ok("/d/instances-data/p".to_string()));
    assert_eq!(validate_id(".."), Ok(()));
    assert_eq!(instance_root("/d", ".."), Err("Identificador de instancia no válido".to_string()));
    assert_eq!(instance_root("/d", "."), Err("Identificador de instancia no válido".to_string()));
    assert_eq!(instance_root("/d", "..."), Ok("/d/instances-data/...".to_string()));
    assert_eq!(
        content_directory("/d", "..", "mod"),
        Err("Identificador de instancia no válido".to_string())
    );
    assert!(instance_root("/d", "a b").is_err());
}

#[test]
fn content_folders() {
    assert_eq!(content_folder_of("mod"), Some("mods"));
    assert_eq!(content_folder_of("resourcepack"), Some("resourcepacks"));
    assert_eq!(content_folder_of("shader"), Some("shaderpacks"));
    assert_eq!(content_folder_of("datapack"), Some("datapacks"));
    assert_eq!(content_folder_of("plugin"), None);
    assert_eq!(content_directory("/d", "p", "mod"), Ok("/d/instances-data/p/mods".to_string()));
    assert_eq!(content_directory("/d", "p", "x"), Err("Tipo de contenido no válido".to_string()));
    assert_eq!(
        content_directory("/d", "p q", "mod"),
        Err("Identificador de instancia no válido".to_string())
    );
}

#[test]
fn maven_coordinates() {
    assert_eq!(
        maven_library_path("/mc/libraries", "net.fabricmc:fabric-loader:0.16.0"),
        Some("/mc/libraries/net/fabricmc/fabric-loader/0.16.0/fabric-loader-0.16.0.jar".to_string())
    );
    assert_eq!(
        library_path_from_name("/l", "org.lwjgl:lwjgl:3.3.3:natives-linux"),
        Some("/l/org/lwjgl/lwjgl/3.3.3/lwjgl-3.3.3-natives-linux.jar".to_string())
    );
    assert_eq!(maven_library_path("/l", "only:two"), None);
}

#[test]
fn file_names_and_extensions() {
    assert_eq!(file_name_of("/a/b/c.jar"), Some("c.jar".to_string()));
    assert_eq!(file_name_of("/a/b/"), Some("b".to_string()));
    assert_eq!(file_name_of("/a/.."), None);
    assert_eq!(file_name_of("/"), None);
    assert_eq!(extension_of("a.jar"), Some("jar".to_string()));
    assert_eq!(extension_of("a.tar.gz"), Some("gz".to_string()));
    assert_eq!(extension_of(".hidden"), None);
    assert_eq!(extension_of("noext"), None);
}

#[test]
fn text_helpers() {
    assert_eq!(trim_str("\u{a0} a b \n"), "a b");
    assert_eq!(split_whitespace_str("  a\tb  c "), vec!["a", "b", "c"]);
    assert_eq!(replace_str("aaa", "aa", "b"), "ba");
    assert_eq!(decimal_string(0), "0");
    assert_eq!(decimal_string(18446744073709551615), "18446744073709551615");
    assert_eq!(parse_u64_str("+42"), Some(42));
    assert_eq!(parse_u64_str("18446744073709551616"), None);
    assert_eq!(parse_u64_str(""), None);
    assert_eq!(join_strings(&vec!["a".into(), "b".into()], ", "), "a, b");
    let chars: Vec<char> = "a\r\nb\n\nc\r".chars().collect();
    assert_eq!(split_lines(&chars), vec!["a", "b", "", "c\r"]);
}

#[test]
fn digests() {
    assert_eq!(sha256_hex(b"abc"), "ba7816bf8f01cfea414140de5dae2223b00361a396177a9cb410ff61f20015ad");
    assert_eq!(sha256_hex(b""), "e3b0c44298fc1c149afbf4c8996fb92427ae41e4649b934ca495991b7852b855");
    assert_eq!(sha1_hex(b"abc"), "a9993e364706816aba3e25717850c26c9cd0d89d");
    assert!(sha256_matches(b"abc", "ba7816bf8f01cfea414140de5dae2223b00361a396177a9cb410ff61f20015ad"));
    assert!(!sha256_matches(b"abc", "BA7816BF8F01CFEA414140DE5DAE2223B00361A396177A9CB410FF61F20015AD"));
    assert!(sha1_matches(b"hello", "aaf4c61ddcc5e8a2dabede0f3b482cd9aea9434d"));
    assert_eq!(lower_hex_string(&[0, 15, 255]), "000fff");
}

#[test]
fn instances_are_isolated_on_disk() {
    assert_ne!(instance_root("/d", "a"), instance_root("/d", "b"));
    assert_ne!(instance_root("/d/", "a.b"), instance_root("/d/", "a-b"));
    let a = instance_root("/d", "a").unwrap();
    let ab = instance_root("/d", "ab").unwrap();
    assert!(a.starts_with("/d/instances-data/") && ab.starts_with("/d/instances-data/"));
    assert!(!ab.starts_with(&format!("{a}/")) && !a.starts_with(&format!("{ab}/")));
    assert!(instance_root("/d", "..").is_err());
}
