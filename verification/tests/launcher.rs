use aureus_launcher::launcher::{
    bundled_profile_json, default_instance, download_failure_message,
    fabric_installer_arguments, install_message, install_outcome, install_ready_detail,
    instances_or_default, java_version_summary, latest_log_tail, minecraft_directory,
    mods_file_path, performance_mods, prepare_message, save_instance,
    select_managed_instance, selected_instance_of, selected_version_of,
    selected_version_status, stored_selection_of, update_status, validate_version_name,
    DescriptorSummary, GameInstance, MOD_FILE_NAME,
};
use aureus_launcher::professional::ManagedInstance;
use aureus_launcher::version_manager::TargetOs;

fn strings(items: &[&str]) -> Vec<String> {
    items.iter().map(|s| s.to_string()).collect()
}

fn game(id: &str, name: &str, memory: u32, version: &str) -> GameInstance {
    GameInstance {
        id: id.into(),
        name: name.into(),
        minecraft_version: version.into(),
        loader_version: "0.19.3".into(),
        memory_mb: memory,
        jvm_args: vec![],
        game_directory: "/mc".into(),
        performance_profile: "CUSTOM".into(),
    }
}

#[test]
fn default_instance_values() {
    let g = default_instance(Some("/home/a/.minecraft".into())).unwrap();
    assert_eq!(g.id, "aureus-1-21-11");
    assert_eq!(g.name, "Aureus 1.21.11");
    assert_eq!(g.minecraft_version, "1.21.11");
    assert_eq!(g.loader_version, "0.19.3");
    assert_eq!(g.memory_mb, 5120);
    assert_eq!(g.jvm_args, strings(&["-XX:+UseG1GC", "-XX:+ParallelRefProcEnabled"]));
    assert_eq!(g.game_directory, "/home/a/.minecraft");
    assert_eq!(g.performance_profile, "CUSTOM");
    assert_eq!(default_instance(None).unwrap_err(), "No se pudo localizar Minecraft");
}

#[test]
fn empty_instance_list_gives_the_default() {
    let d = default_instance(Some("/mc".into())).unwrap();
    let r = instances_or_default(vec![], d.clone());
    assert_eq!(r.len(), 1);
    assert_eq!(r[0].id, "aureus-1-21-11");
    let r = instances_or_default(vec![game("x", "X", 4096, "1.21.11")], d);
    assert_eq!(r.len(), 1);
    assert_eq!(r[0].id, "x");
}

#[test]
fn save_instance_checks_in_order() {
    assert_eq!(
        save_instance(vec![], game("a", "  ", 1, "1.0")).unwrap_err(),
        "La instancia necesita un nombre"
    );
    assert_eq!(
        save_instance(vec![], game("a", "A", 1024, "1.0")).unwrap_err(),
        "La memoria debe estar entre 2 y 16 GB"
    );
    assert_eq!(
        save_instance(vec![], game("a", "A", 16385, "1.21.11")).unwrap_err(),
        "La memoria debe estar entre 2 y 16 GB"
    );
    assert_eq!(
        save_instance(vec![], game("a", "A", 2048, "1.20.4")).unwrap_err(),
        "Esta versión de Aureus solo admite Minecraft 1.21.11"
    );
    let mut g = game("a", "A", 4096, "1.21.11");
    g.jvm_args = vec!["-Xss2m".to_string(), "foo".to_string()];
    assert_eq!(save_instance(vec![], g.clone()).unwrap_err(), "Los argumentos de Java deben empezar por -");
    g.jvm_args = vec!["".to_string()];
    assert_eq!(save_instance(vec![], g.clone()).unwrap_err(), "Los argumentos de Java deben empezar por -");
    g.jvm_args = vec!["-Xss2m".to_string(), "-XX:+UseG1GC".to_string()];
    assert!(save_instance(vec![], g).is_ok());
}

#[test]
fn save_then_lookup_finds_the_saved_instance() {
    let list = vec![game("a", "A", 4096, "1.21.11"), game("b", "B", 4096, "1.21.11")];
    let (list, saved) = save_instance(list, game("b", "Nuevo", 8192, "1.21.11")).unwrap();
    assert_eq!(saved.name, "Nuevo");
    assert_eq!(list.len(), 2);
    assert_eq!(list[1].name, "Nuevo");
    assert_eq!(list[1].memory_mb, 8192);
    assert_eq!(list[0].name, "A");
    let (list, _) = save_instance(list, game("c", "C", 16384, "1.21.11")).unwrap();
    assert_eq!(list.len(), 3);
    assert_eq!(list[2].id, "c");
}

#[test]
fn version_names() {
    assert_eq!(validate_version_name("1.21.11"), Ok(()));
    assert_eq!(validate_version_name("24w14a_pre-1"), Ok(()));
    assert_eq!(validate_version_name(""), Err("Versión de Minecraft no válida".to_string()));
    assert_eq!(validate_version_name("1.20 4"), Err("Versión de Minecraft no válida".to_string()));
    assert_eq!(validate_version_name("../x"), Err("Versión de Minecraft no válida".to_string()));
    assert_eq!(validate_version_name(&"a".repeat(64)), Ok(()));
    assert_eq!(
        validate_version_name(&"a".repeat(65)),
        Err("Versión de Minecraft no válida".to_string())
    );
}

#[test]
fn selected_version_reads_back() {
    assert_eq!(selected_version_of(Some("1.20.4")), "1.20.4");
    assert_eq!(selected_version_of(Some("  1.20.4\n")), "1.20.4");
    assert_eq!(selected_version_of(Some(" \n")), "1.21.11");
    assert_eq!(selected_version_of(None), "1.21.11");
    assert_eq!(selected_instance_of(Some(" my-pack "), "1.20.4"), "my-pack");
    assert_eq!(selected_instance_of(None, "1.20.4"), "1.20.4");
    assert_eq!(stored_selection_of(Some("")), None);
}

fn managed(id: &str, version: &str) -> ManagedInstance {
    ManagedInstance {
        id: id.into(),
        name: id.into(),
        minecraft_version: version.into(),
        memory_mb: 5120,
        resolution_width: 1280,
        resolution_height: 720,
        java_path: None,
        jvm_args: vec![],
        profile: "CUSTOM".into(),
        created_at: 1,
    }
}

#[test]
fn selecting_a_managed_instance() {
    let items = vec![managed("a", "1.20.1"), managed("b", "1.21.11")];
    assert_eq!(
        select_managed_instance(&items, "b"),
        Ok(("b".to_string(), "1.21.11".to_string()))
    );
    assert_eq!(select_managed_instance(&items, "z"), Err("No existe esa instancia".to_string()));
}

#[test]
fn selected_version_status_modes() {
    let s = selected_version_status("1.20.4".into(), None);
    assert!(!s.prepared);
    assert_eq!((s.mode.as_str(), s.mod_count), ("pending", 0));
    let s = selected_version_status(
        "1.20.4".into(),
        Some(DescriptorSummary { state: Some("fabric-ready".into()), mod_count: Some(12) }),
    );
    assert!(s.prepared);
    assert_eq!((s.mode.as_str(), s.mod_count), ("fabric", 12));
    let s = selected_version_status(
        "1.20.4".into(),
        Some(DescriptorSummary { state: Some("vanilla-ready".into()), mod_count: None }),
    );
    assert_eq!((s.mode.as_str(), s.mod_count), ("vanilla", 0));
}

#[test]
fn update_status_strips_leading_v() {
    let u = update_status(Some("vv0.4.0"), Some("https://example.org/r"), "0.3.0");
    assert_eq!(u.latest_version, "0.4.0");
    assert!(u.available);
    assert_eq!(u.release_url, "https://example.org/r");
    assert!(u.signed_install_required);
    let u = update_status(None, None, "0.3.0");
    assert_eq!(u.latest_version, "0.3.0");
    assert!(!u.available);
    assert_eq!(u.release_url, "https://github.com/jjfrancoms/aureus-client/releases");
    assert_eq!(update_status(Some("v0.3.0"), None, "0.3.0").available, false);
}

#[test]
fn minecraft_directories() {
    assert_eq!(
        minecraft_directory(Some("/Users/a".into()), TargetOs::MacOs),
        Some("/Users/a/Library/Application Support/minecraft".to_string())
    );
    assert_eq!(
        minecraft_directory(Some("C:/Users/a".into()), TargetOs::Windows),
        Some("C:/Users/a/AppData/Roaming/.minecraft".to_string())
    );
    assert_eq!(
        minecraft_directory(Some("/home/a".into()), TargetOs::Linux),
        Some("/home/a/.minecraft".to_string())
    );
    assert_eq!(minecraft_directory(None, TargetOs::Linux), None);
    assert_eq!(
        mods_file_path("/mc", MOD_FILE_NAME),
        "/mc/mods/aureus-client-0.3.0-minecraft-1.21.11.jar"
    );
    assert_eq!(
        bundled_profile_json("/mc"),
        "/mc/versions/fabric-loader-0.19.3-1.21.11/fabric-loader-0.19.3-1.21.11.json"
    );
}

#[test]
fn diagnostics_lines() {
    assert_eq!(
        java_version_summary(Some("openjdk version \"21\"\nOpenJDK Runtime")),
        "openjdk version \"21\""
    );
    assert_eq!(java_version_summary(Some("")), "Java detectado");
    assert_eq!(java_version_summary(None), "Java no detectado");
    let text: String = (1..=125).map(|i| format!("line {i}\n")).collect();
    let tail = latest_log_tail(Some(&text));
    assert!(tail.starts_with("line 6\n"));
    assert!(tail.ends_with("line 125"));
    assert_eq!(tail.lines().count(), 120);
    assert_eq!(latest_log_tail(Some("a\r\nb")), "a\nb");
    assert_eq!(latest_log_tail(None), "No existe un registro reciente");
}

#[test]
fn installation_outcomes_and_messages() {
    assert_eq!(
        fabric_installer_arguments("/tmp/i.jar", "/mc", "1.20.4", "0.16.0"),
        strings(&["-jar", "/tmp/i.jar", "client", "-dir", "/mc", "-mcversion", "1.20.4", "-loader", "0.16.0"])
    );
    let o = install_outcome("1.21.11", true, 20);
    assert_eq!((o.state.as_str(), o.mod_count, o.bundled_client), ("fabric-ready", 21, true));
    let o = install_outcome("1.20.4", true, 20);
    assert_eq!((o.state.as_str(), o.mod_count, o.bundled_client), ("fabric-ready", 20, false));
    let o = install_outcome("1.20.4", false, 20);
    assert_eq!((o.state.as_str(), o.mod_count, o.bundled_client), ("vanilla-ready", 0, false));
    assert_eq!(
        install_message("1.20.4", true, 21),
        "Minecraft 1.20.4 preparado con Fabric y 21 mods compatibles"
    );
    assert_eq!(
        install_message("1.20.4", false, 0),
        "Minecraft 1.20.4 preparado en modo Vanilla; Fabric no está disponible"
    );
    assert_eq!(install_ready_detail("1.20.4", true, 3), "Minecraft 1.20.4 · Fabric · 3 mods");
    assert_eq!(install_ready_detail("1.20.4", false, 0), "Minecraft 1.20.4 · Vanilla");
    assert_eq!(prepare_message(30), "Minecraft 1.21.11, Aureus y 30 optimizadores están listos");
    assert_eq!(
        download_failure_message("a.jar", "404 Not Found"),
        "No se pudo descargar a.jar: HTTP 404 Not Found"
    );
    let mods = performance_mods();
    assert_eq!(mods.len(), 30);
    assert_eq!(mods[0].0, "sodium-fabric-0.8.14-beta.2+mc1.21.11.jar");
    assert_eq!(
        mods[29].1,
        "https://cdn.modrinth.com/data/kqJFAPU9/versions/rXZxHSEZ/bettermounthud-1.2.6.jar"
    );
}
