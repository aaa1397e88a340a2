use serde_json::Value;
use aureus_launcher::professional::{
    analyze_crash_text, analyze_latest_crash, archive_entry_name, content_entry,
    create_instance_backup, create_instance_backup_at, delete_managed_instance,
    duplicate_managed_instance, duplicate_managed_instance_at, enable_safe_mode,
    export_archive_path, export_instance, import_entry_target, import_instance, install_summary, latest_crash_file,
    launch_preferences, memory_mb_from_byte_count, memory_mb_from_meminfo, missing_benchmark,
    modrinth_facets, normalize_instance, read_benchmark, recommend_hardware_profile,
    register_prepared_instance, register_prepared_instance_at, restore_instance_backup,
    safe_mode_message, safe_mode_target, search_modrinth, sort_content, sync_client_config,
    toggle_instance_content, upsert_managed_instance, upsert_managed_instance_at, ContentEntry,
    ContentFile, FileStamp, ManagedInstance, list_instance_content,
};

fn managed(id: &str, name: &str) -> ManagedInstance {
    ManagedInstance {
        id: id.into(),
        name: name.into(),
        minecraft_version: "1.21.11".into(),
        memory_mb: 5120,
        resolution_width: 1280,
        resolution_height: 720,
        java_path: None,
        jvm_args: vec!["-Xss1M".into()],
        profile: "CUSTOM".into(),
        created_at: 0,
    }
}

#[test]
fn normalizing_clamps_and_stamps() {
    let mut i = managed("a", "A");
    i.memory_mb = 100;
    i.resolution_width = 10_000;
    i.resolution_height = 100;
    let n = normalize_instance(i, 777).unwrap();
    assert_eq!((n.memory_mb, n.resolution_width, n.resolution_height), (1024, 7680, 480));
    assert_eq!(n.created_at, 777);
    let mut j = managed("a", "A");
    j.created_at = 5;
    j.memory_mb = 40_000;
    let n = normalize_instance(j, 777).unwrap();
    assert_eq!((n.memory_mb, n.created_at), (32768, 5));
    assert_eq!(
        normalize_instance(managed("bad id", "A"), 1).unwrap_err(),
        "Identificador de instancia no válido"
    );
    assert_eq!(
        normalize_instance(managed("a", " \t"), 1).unwrap_err(),
        "La instancia necesita un nombre"
    );
}

#[test]
fn normalizing_twice_is_once() {
    let mut i = managed("a", "A");
    i.memory_mb = 1;
    let once = normalize_instance(i, 9).unwrap();
    let twice = normalize_instance(once.clone(), 100).unwrap();
    assert_eq!(
        (twice.memory_mb, twice.resolution_width, twice.resolution_height, twice.created_at),
        (once.memory_mb, once.resolution_width, once.resolution_height, once.created_at)
    );
}

#[test]
fn upsert_then_lookup_gives_the_stored_instance() {
    let items = vec![managed("a", "A"), managed("b", "B")];
    let (list, stored) = upsert_managed_instance_at(items, managed("b", "Otra"), 50).unwrap();
    assert_eq!(list.len(), 2);
    assert_eq!(list[1].name, "Otra");
    assert_eq!(list[1].created_at, 50);
    assert_eq!(stored.name, "Otra");
    assert_eq!(list[0].name, "A");
    let (list, _) = upsert_managed_instance_at(list, managed("c", "C"), 51).unwrap();
    assert_eq!(list.len(), 3);
    assert_eq!(list[2].id, "c");
}

#[test]
fn upsert_with_the_clock() {
    let (list, stored) = upsert_managed_instance(vec![], managed("a", "A")).unwrap();
    assert_eq!(list.len(), 1);
    assert_eq!(stored.id, "a");
    assert!(upsert_managed_instance(vec![], managed("", "A")).is_err());
}

#[test]
fn launch_preferences_of_an_instance() {
    let items = vec![managed("a", "A")];
    assert_eq!(
        launch_preferences(&items, "a"),
        Some((5120, 1280, 720, vec!["-Xss1M".to_string()]))
    );
    assert_eq!(launch_preferences(&items, "z"), None);
}

#[test]
fn registering_a_prepared_version() {
    let list = register_prepared_instance_at(vec![], "1.20.4", "1.20.4", Some("/j".into()), 3).unwrap();
    assert_eq!(list.len(), 1);
    assert_eq!(list[0].name, "Minecraft 1.20.4");
    assert_eq!(list[0].java_path, Some("/j".to_string()));
    assert_eq!(list[0].memory_mb, 5120);
    assert_eq!(list[0].jvm_args, vec!["-XX:+UseG1GC".to_string(), "-XX:+ParallelRefProcEnabled".to_string()]);
    assert_eq!(list[0].created_at, 3);
    let list = register_prepared_instance_at(list, "1.20.4", "1.20.4", None, 4).unwrap();
    assert_eq!(list.len(), 1);
    assert_eq!(list[0].java_path, None);
    assert_eq!(list[0].created_at, 3);
    assert!(register_prepared_instance_at(vec![], "bad id", "x", None, 1).is_err());
    assert_eq!(register_prepared_instance(vec![], "v", "v", None).unwrap().len(), 1);
}

#[test]
fn duplicating_instances() {
    let items = vec![managed("a", "A")];
    let (list, copy) =
        duplicate_managed_instance_at(items.clone(), "a", "b", "Copia".into(), 10).unwrap();
    assert_eq!(list.len(), 2);
    assert_eq!((copy.id.as_str(), copy.name.as_str(), copy.created_at), ("b", "Copia", 10));
    assert_eq!(copy.jvm_args, vec!["-Xss1M".to_string()]);
    assert_eq!(
        duplicate_managed_instance_at(items.clone(), "a", "a", "X".into(), 1).unwrap_err(),
        "Ya existe una instancia con ese identificador"
    );
    assert_eq!(
        duplicate_managed_instance_at(items.clone(), "z", "y", "X".into(), 1).unwrap_err(),
        "No existe la instancia original"
    );
    assert_eq!(
        duplicate_managed_instance_at(items.clone(), "a", "b/c", "X".into(), 1).unwrap_err(),
        "Identificador de instancia no válido"
    );
    assert!(duplicate_managed_instance(items, "a", "b", "C".into()).is_ok());
}

#[test]
fn delete_then_lookup_finds_nothing() {
    let items = vec![managed("a", "A"), managed("b", "B"), managed("a", "A2")];
    let list = delete_managed_instance(items.clone(), "a").unwrap();
    assert_eq!(list.len(), 1);
    assert_eq!(list[0].id, "b");
    assert_eq!(delete_managed_instance(items.clone(), "z").unwrap_err(), "No existe esa instancia");
    assert_eq!(
        delete_managed_instance(items, "").unwrap_err(),
        "Identificador de instancia no válido"
    );
}

#[test]
fn content_entries_and_their_order() {
    let e = content_entry("sodium.jar.disabled".into(), "mod", b"abc");
    assert!(!e.enabled);
    assert_eq!(e.size, 3);
    assert_eq!(e.sha256, "ba7816bf8f01cfea414140de5dae2223b00361a396177a9cb410ff61f20015ad");
    let entries = vec![
        content_entry("b.zip".into(), "resourcepack", b""),
        content_entry("z.jar".into(), "mod", b""),
        content_entry("a.jar".into(), "mod", b""),
        content_entry("B.jar".into(), "mod", b""),
    ];
    let sorted: Vec<ContentEntry> = sort_content(entries);
    let names: Vec<&str> = sorted.iter().map(|e| e.name.as_str()).collect();
    assert_eq!(names, vec!["B.jar", "a.jar", "z.jar", "b.zip"]);
}

#[test]
fn toggling_content_files() {
    let t = toggle_instance_content("/d", "i", "mod", "a.jar", false).unwrap();
    assert_eq!(t.current, "/d/instances-data/i/mods/a.jar");
    assert_eq!(t.target, "/d/instances-data/i/mods/a.jar.disabled");
    assert!(t.rename);
    assert_eq!(t.file_name, "a.jar.disabled");
    let back = toggle_instance_content("/d", "i", "mod", "a.jar.disabled", true).unwrap();
    assert_eq!(back.target, "/d/instances-data/i/mods/a.jar");
    let same = toggle_instance_content("/d", "i", "shader", "s.zip", true).unwrap();
    assert!(!same.rename);
    assert_eq!(same.current, "/d/instances-data/i/shaderpacks/s.zip");
    assert_eq!(
        toggle_instance_content("/d", "i", "mod", "../x", true).unwrap_err(),
        "Nombre de archivo no válido"
    );
    assert_eq!(
        toggle_instance_content("/d", "i", "plugin", "x", true).unwrap_err(),
        "Tipo de contenido no válido"
    );
    assert_eq!(
        toggle_instance_content("/d", "", "mod", "x", true).unwrap_err(),
        "Identificador de instancia no válido"
    );
    let dotted = toggle_instance_content("/d", "i", "mod", "a.", false).unwrap();
    assert_eq!(dotted.target, "/d/instances-data/i/mods/a..disabled");
    assert_eq!(
        toggle_instance_content("/d", "i", "mod", "a..disabled", true).unwrap_err(),
        "Nombre de archivo no válido"
    );
}

#[test]
fn safe_mode_disables_non_essential_jars() {
    assert_eq!(safe_mode_target("sodium.jar"), Some("sodium.jar.disabled".to_string()));
    assert_eq!(safe_mode_target("fabric-api-0.1.jar"), None);
    assert_eq!(safe_mode_target("notes.txt"), None);
    let names = vec!["a.jar".to_string(), "aureus-client.jar".to_string(), "x.zip".to_string()];
    assert_eq!(
        enable_safe_mode(true, &names),
        Ok(vec![Some("a.jar.disabled".to_string()), None, None])
    );
    assert_eq!(enable_safe_mode(false, &names), Err("La instancia no contiene mods".to_string()));
    assert_eq!(
        safe_mode_message(2, "/d/backups/i-1"),
        "Modo seguro activado: 2 mods desactivados. Respaldo: /d/backups/i-1"
    );
}

#[test]
fn a_backup_taken_can_be_restored() {
    let (src, dst) = create_instance_backup_at("/data", "pack-1", 1700000000).unwrap();
    assert_eq!(src, "/data/instances-data/pack-1");
    assert_eq!(dst, "/data/backups/pack-1-1700000000");
    assert_eq!(restore_instance_backup("/data", "pack-1", &dst, true), Ok(src));
    assert_eq!(
        restore_instance_backup("/data", "pack-1", "/elsewhere/x", true),
        Err("Respaldo no válido".to_string())
    );
    assert_eq!(
        restore_instance_backup("/data", "pack-1", &dst, false),
        Err("Respaldo no válido".to_string())
    );
    assert_eq!(
        restore_instance_backup("/data", "bad id", &dst, true),
        Err("Identificador de instancia no válido".to_string())
    );
    assert!(create_instance_backup("/data", "x").unwrap().1.starts_with("/data/backups/x-"));
}

#[test]
fn export_paths() {
    let (src, out) = export_archive_path("/data", "p", 5).unwrap();
    assert_eq!(src, "/data/instances-data/p");
    assert_eq!(out, "/data/exports/p-5.aureuspack");
    assert!(export_instance("/data", "p").unwrap().1.ends_with(".aureuspack"));
    assert_eq!(archive_entry_name("mods\\a.jar", false), "mods/a.jar");
    assert_eq!(archive_entry_name("config", true), "config/");
}

#[test]
fn importing_an_instance() {
    let (list, stored) = import_instance(vec![], "imported", "1.20.1".into()).unwrap();
    assert_eq!(list.len(), 1);
    assert_eq!(stored.name, "Importada imported");
    assert_eq!(stored.minecraft_version, "1.20.1");
    assert_eq!(
        import_instance(vec![], "a b", "1".into()).unwrap_err(),
        "Identificador de instancia no válido"
    );
}

#[test]
fn hardware_profiles() {
    let p = recommend_hardware_profile(4096, 16);
    assert_eq!((p.profile.as_str(), p.recommended_memory_mb, p.render_distance, p.simulation_distance), ("RAM_MINIMA", 3072, 6, 5));
    let p = recommend_hardware_profile(32768, 4);
    assert_eq!((p.profile.as_str(), p.recommended_memory_mb), ("EQUILIBRADO", 5120));
    let p = recommend_hardware_profile(16384, 8);
    assert_eq!((p.profile.as_str(), p.recommended_memory_mb, p.render_distance, p.simulation_distance), ("COMPETITIVO", 6144, 12, 8));
    assert_eq!(memory_mb_from_byte_count(" 17179869184\n"), 16384);
    assert_eq!(memory_mb_from_byte_count("x"), 0);
    assert_eq!(memory_mb_from_meminfo("MemFree: 1 kB\nMemTotal:       16384000 kB\n"), 16000);
    assert_eq!(memory_mb_from_meminfo("nothing"), 0);
}

#[test]
fn benchmark_reports() {
    let m = missing_benchmark();
    assert!(!m.available);
    assert_eq!(m.recommendation, "Juega al menos 20 segundos para generar mediciones reales");
    assert_eq!(read_benchmark(30, 10, 1000, 5).recommendation, "Usa RAM mínima, 6 chunks y desactiva shaders");
    assert_eq!(read_benchmark(100, 40, 1000, 5).recommendation, "Hay tirones: reduce simulación y revisa mods");
    assert_eq!(read_benchmark(100, 60, 5000, 5).recommendation, "El uso de RAM es alto: activa el perfil equilibrado");
    assert_eq!(read_benchmark(100, 60, 1000, 5).recommendation, "El rendimiento es estable para este perfil");
}

#[test]
fn client_settings_are_clamped() {
    let c = sync_client_config("/d", "i", "X".into(), 64, 1, 1000).unwrap();
    assert_eq!((c.render_distance, c.simulation_distance, c.target_fps), (32, 5, 240));
    assert_eq!(c.path, "/d/instances-data/i/config/aureus-client.json");
    assert!(sync_client_config("/d", "", "X".into(), 8, 8, 60).is_err());
    assert!(sync_client_config("/d", "..", "X".into(), 8, 8, 60).is_err());
}

#[test]
fn archive_entries_stay_in_the_instance() {
    assert_eq!(
        import_entry_target("/d/instances-data/x", Some("mods/a.jar".to_string())),
        Ok("/d/instances-data/x/mods/a.jar".to_string())
    );
    assert_eq!(
        import_entry_target("/d/instances-data/x", None),
        Err("El paquete contiene rutas inseguras".to_string())
    );
}

#[test]
fn client_config_document_matches_serde_json() {
    let c = sync_client_config("/d", "i", "Fast \"HUD\"\n\u{1}".into(), 12, 40, 144).unwrap();
    let mut m = serde_json::Map::new();
    let flags = [
        ("showFps", true), ("showFrameTime", true), ("showSessionMetrics", true), ("showCps", true),
        ("showKeystrokes", true), ("showPing", true), ("showCoordinates", false),
        ("showAttackCooldown", true), ("showArmor", true), ("showEffects", true), ("showMemory", false),
        ("showCompatibility", false), ("showItemCounters", true), ("showBiome", false),
        ("showDirection", true), ("reduceBackgroundFps", true), ("compactHud", true),
        ("limitParticles", true), ("adaptiveParticles", true), ("applyVanillaOptimizations", true),
        ("entityShadows", false), ("viewBobbing", false), ("menuCollapsed", false),
    ];
    for (k, v) in flags {
        m.insert(k.to_string(), Value::Bool(v));
    }
    let numbers = [
        ("backgroundFps", 30u32), ("maxParticlesPerTick", 25), ("targetFps", 144), ("renderDistance", 12),
        ("simulationDistance", 32), ("entityDistancePercent", 50), ("biomeBlendRadius", 0),
        ("mipmapLevels", 0), ("hudX", 6), ("hudY", 6), ("keysXPercent", 50), ("keysY", 6),
        ("configVersion", 4),
    ];
    for (k, v) in numbers {
        m.insert(k.to_string(), Value::from(v));
    }
    m.insert("serverProfiles".to_string(), Value::Object(serde_json::Map::new()));
    m.insert("profile".to_string(), Value::String("Fast \"HUD\"\n\u{1}".to_string()));
    let expected = serde_json::to_string_pretty(&Value::Object(m)).unwrap();
    assert_eq!(c.document, expected);
    assert!(c.document.starts_with(
        "{\n  \"adaptiveParticles\": true,\n  \"applyVanillaOptimizations\": true,\n  \"backgroundFps\": 30,\n"
    ));
    assert!(c.document.contains("\n  \"profile\": \"Fast \\\"HUD\\\"\\n\\u0001\",\n"));
    assert!(c.document.contains("\n  \"serverProfiles\": {},\n"));
    assert!(c.document.ends_with("\n  \"targetFps\": 144,\n  \"viewBobbing\": false\n}"));
    assert!(c.document.contains("\"configVersion\": 4"));
}

#[test]
fn crash_reports() {
    let files = vec![
        FileStamp { path: "a".into(), is_file: true, modified: Some(5) },
        FileStamp { path: "d".into(), is_file: false, modified: Some(9) },
        FileStamp { path: "b".into(), is_file: true, modified: Some(5) },
        FileStamp { path: "c".into(), is_file: true, modified: Some(7) },
    ];
    assert_eq!(latest_crash_file(&files), Some(3));
    assert_eq!(latest_crash_file(&vec![]), None);
    let text = "java.lang.OutOfMemoryError\n  Caused by: mod sodium failed\nCaused by: mod sodium failed\n";
    let a = analyze_crash_text(text);
    assert!(a.detected);
    assert_eq!(a.summary, "Minecraft agotó la memoria asignada");
    assert_eq!(a.suspected_mods, vec!["Caused by: mod sodium failed".to_string()]);
    assert_eq!(a.actions.len(), 3);
    let none = analyze_latest_crash(None);
    assert!(!none.detected);
    assert_eq!(none.summary, "No se encontraron cierres registrados");
    assert_eq!(analyze_latest_crash(Some("MixinApplyError")).summary, "Un mod o mixin es incompatible");
}

#[test]
fn modrinth_search_and_install_messages() {
    assert_eq!(
        modrinth_facets("1.21.11").unwrap(),
        "[[\"project_type:mod\"],[\"categories:fabric\"],[\"versions:1.21.11\"]]"
    );
    let q = search_modrinth("sodium", "1.20.4").unwrap();
    assert_eq!(q[0], ("query".to_string(), "sodium".to_string()));
    assert_eq!(q[1], ("limit".to_string(), "20".to_string()));
    assert_eq!(q[2].1, "[[\"project_type:mod\"],[\"categories:fabric\"],[\"versions:1.20.4\"]]");
    assert_eq!(
        modrinth_facets("a\"b\\c\n\u{7}").unwrap(),
        "[[\"project_type:mod\"],[\"categories:fabric\"],[\"versions:a\\\"b\\\\c\\n\\u0007\"]]"
    );
    assert_eq!(install_summary(3, 1), "3 archivos instalados; 1 no disponibles");
}

#[test]
fn listing_instance_content() {
    let files = vec![
        ContentFile { kind: "shader".into(), name: "s.zip".into(), bytes: vec![] },
        ContentFile { kind: "mod".into(), name: "b.jar.disabled".into(), bytes: b"abc".to_vec() },
        ContentFile { kind: "mod".into(), name: "a.jar".into(), bytes: vec![1, 2] },
    ];
    let r = list_instance_content(&files);
    let names: Vec<&str> = r.iter().map(|e| e.name.as_str()).collect();
    assert_eq!(names, vec!["a.jar", "b.jar.disabled", "s.zip"]);
    assert!(r[0].enabled);
    assert!(!r[1].enabled);
    assert_eq!(r[1].size, 3);
    assert_eq!(r[1].sha256, "ba7816bf8f01cfea414140de5dae2223b00361a396177a9cb410ff61f20015ad");
    assert_eq!(r[2].kind, "shader");
}
