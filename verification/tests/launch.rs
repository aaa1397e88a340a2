use aureus_launcher::auth::MinecraftSession;
use aureus_launcher::launch::{
    apply_memory_saver, bundled_java_path, bundled_launch_arguments, bundled_memory_message,
    bundled_started_message, classpath_text, ensure_not_cancelled, ensure_not_running,
    fabric_loader_of, fabric_profile_name, is_skipped_jvm_argument, java_path_of,
    kill_command_for, kill_requested_message, legacy_library_candidates, legacy_memory_mb,
    line_key_of, newest_natives_directory, prepared_launch_arguments, prepared_started_message,
    profile_library_candidates, profile_main_class, replace_launch_tokens, running_pid,
    runtime_status_of, select_resource_pack, uses_memory_saver, with_profile_jar,
    cancel_message, BundledLaunch, CancelFlag, DirectoryStamp, InstanceDescriptor, PreparedLaunch,
};
use aureus_launcher::version_manager::TargetOs;

fn strings(items: &[&str]) -> Vec<String> {
    items.iter().map(|s| s.to_string()).collect()
}

fn descriptor() -> InstanceDescriptor {
    InstanceDescriptor {
        version: "1.20.4".into(),
        version_json: "/mc/versions/1.20.4/1.20.4.json".into(),
        client_jar: "/mc/versions/1.20.4/1.20.4.jar".into(),
        asset_index: "12".into(),
        game_directory: "/data/instances-data/1.20.4".into(),
        state: "fabric-ready".into(),
        loader_version: Some("0.16.0".into()),
        java_path: Some("/rt/java-17/bin/java".into()),
    }
}

fn session() -> MinecraftSession {
    MinecraftSession { username: "Alex".into(), uuid: "uuid-1".into(), access_token: "tok".into() }
}

#[test]
fn launch_tokens_are_filled_in() {
    let d = descriptor();
    let s = session();
    let r = replace_launch_tokens(
        "--username ${auth_player_name} --dir ${game_directory} ${assets_root} ${game_assets}",
        &d,
        "/mc",
        &s,
        TargetOs::Linux,
    );
    assert_eq!(
        r,
        "--username Alex --dir /data/instances-data/1.20.4 /mc/assets /mc/assets/virtual/12"
    );
    assert_eq!(
        replace_launch_tokens("${auth_session}|${auth_xuid}|${clientid}", &d, "/mc", &s, TargetOs::Linux),
        format!("token:tok:uuid-1||{}", aureus_launcher::auth::CLIENT_ID)
    );
    assert_eq!(
        replace_launch_tokens("a${classpath_separator}b", &d, "/mc", &s, TargetOs::Windows),
        "a;b"
    );
    assert_eq!(
        replace_launch_tokens("${user_type} ${version_type} ${user_properties} ${launcher_name} ${launcher_version} ${library_directory} ${version_name} ${assets_index_name} ${auth_uuid} ${auth_access_token} ${unknown}", &d, "/mc", &s, TargetOs::MacOs),
        "msa release {} Aureus 0.3.0 /mc/libraries 1.20.4 12 uuid-1 tok ${unknown}"
    );
}

#[test]
fn skipped_version_jvm_arguments() {
    assert!(is_skipped_jvm_argument("-cp"));
    assert!(is_skipped_jvm_argument("${classpath}"));
    assert!(is_skipped_jvm_argument("-Dpath=${natives_directory}"));
    assert!(is_skipped_jvm_argument("-Djava.library.path=x"));
    assert!(!is_skipped_jvm_argument("-Xss1M"));
}

#[test]
fn prepared_arguments_on_linux() {
    let launch = PreparedLaunch {
        memory_mb: 4096,
        width: 1280,
        height: 720,
        custom_jvm: strings(&["-XX:+UseG1GC"]),
        version_jvm_args: strings(&["-cp", "${classpath}", "-Dos=${version_name}", "-Djava.library.path=${natives_directory}"]),
        game_args: strings(&["--username", "${auth_player_name}"]),
        main_class: "net.fabricmc.loader.impl.launch.knot.KnotClient".into(),
        natives: "/data/natives".into(),
        classpath: "a.jar:b.jar".into(),
    };
    let r = prepared_launch_arguments(&launch, &descriptor(), "/mc", &session(), TargetOs::Linux);
    assert_eq!(
        r,
        strings(&[
            "-Xms512M",
            "-Xmx4096M",
            "-XX:+UseG1GC",
            "-Dos=1.20.4",
            "-Djava.library.path=/data/natives",
            "-cp",
            "a.jar:b.jar",
            "net.fabricmc.loader.impl.launch.knot.KnotClient",
            "--username",
            "Alex",
            "--width",
            "1280",
            "--height",
            "720",
        ])
    );
}

#[test]
fn prepared_arguments_on_macos_without_version_jvm_arguments() {
    let launch = PreparedLaunch {
        memory_mb: 5120,
        width: 800,
        height: 600,
        custom_jvm: vec![],
        version_jvm_args: vec![],
        game_args: vec![],
        main_class: "com.example.Other".into(),
        natives: "n".into(),
        classpath: "c".into(),
    };
    let r = prepared_launch_arguments(&launch, &descriptor(), "/mc", &session(), TargetOs::MacOs);
    assert_eq!(
        r,
        strings(&[
            "-Xms512M",
            "-Xmx5120M",
            "-XstartOnFirstThread",
            "-Djava.library.path=n",
            "-cp",
            "c",
            "com.example.Other",
        ])
    );
}

#[test]
fn fabric_profile_pieces() {
    assert_eq!(fabric_profile_name("0.16.0", "1.20.4"), "fabric-loader-0.16.0-1.20.4");
    assert_eq!(fabric_loader_of(&descriptor()), Some("0.16.0".to_string()));
    let mut vanilla = descriptor();
    vanilla.state = "vanilla-ready".into();
    assert_eq!(fabric_loader_of(&vanilla), None);
    assert_eq!(profile_main_class(Some("x.Main".into())), "x.Main");
    assert_eq!(profile_main_class(None), "net.fabricmc.loader.impl.launch.knot.KnotClient");
    assert_eq!(
        with_profile_jar(strings(&["lib.jar", "client.jar"]), "profile.jar".into()),
        strings(&["lib.jar", "profile.jar"])
    );
    assert_eq!(with_profile_jar(vec![], "profile.jar".into()), strings(&["profile.jar"]));
    assert_eq!(
        profile_library_candidates("/mc", &strings(&["net.fabricmc:fabric-loader:0.16.0", "bad"])),
        strings(&["/mc/libraries/net/fabricmc/fabric-loader/0.16.0/fabric-loader-0.16.0.jar"])
    );
}

#[test]
fn classpath_separator_follows_the_system() {
    let entries = strings(&["a.jar", "b.jar"]);
    assert_eq!(classpath_text(&entries, TargetOs::Windows), "a.jar;b.jar");
    assert_eq!(classpath_text(&entries, TargetOs::Linux), "a.jar:b.jar");
    assert_eq!(classpath_text(&vec![], TargetOs::MacOs), "");
}

#[test]
fn java_runtime_of_a_descriptor() {
    assert_eq!(java_path_of(&descriptor()), Ok("/rt/java-17/bin/java".to_string()));
    let mut d = descriptor();
    d.java_path = None;
    assert_eq!(
        java_path_of(&d),
        Err("La instancia no tiene un runtime Java preparado".to_string())
    );
}

#[test]
fn bundled_profile_classpath_and_heap() {
    let paths = vec![
        Some("org/lwjgl/lwjgl/3.3.3/lwjgl-3.3.3.jar".to_string()),
        Some("org/lwjgl/lwjgl/3.3.3/lwjgl-3.3.3-natives-linux.jar".to_string()),
        None,
        Some("com/example/windows-only.jar".to_string()),
        Some("com/example/lib.jar".to_string()),
    ];
    assert_eq!(
        legacy_library_candidates("/mc/libraries", &paths),
        strings(&["/mc/libraries/org/lwjgl/lwjgl/3.3.3/lwjgl-3.3.3.jar", "/mc/libraries/com/example/lib.jar"])
    );
    assert_eq!(legacy_memory_mb(1024), 2048);
    assert_eq!(legacy_memory_mb(5120), 5120);
    assert_eq!(legacy_memory_mb(32768), 16384);
    assert_eq!(bundled_memory_message(5120, "CUSTOM"), "Memoria: 5 GB · Perfil: CUSTOM");
    assert_eq!(bundled_memory_message(1000, "X"), "Memoria: 2 GB · Perfil: X");
}

#[test]
fn bundled_profile_arguments() {
    let launch = BundledLaunch {
        instance_memory_mb: 40000,
        natives: "/mc/bin/abc".into(),
        log_config: Some("/mc/assets/log_configs/client-1.21.2.xml".into()),
        classpath: "cp".into(),
        minecraft: "/mc".into(),
        asset_index: None,
    };
    let r = bundled_launch_arguments(&launch, &session());
    assert_eq!(r.len(), 40);
    assert_eq!(r[3], "-Xmx16384M");
    assert_eq!(r[9], "-Djava.library.path=/mc/bin/abc");
    assert_eq!(r[15], "-Dlog4j.configurationFile=/mc/assets/log_configs/client-1.21.2.xml");
    assert_eq!(r[16], "-cp");
    assert_eq!(r[23], "fabric-loader-0.19.3-1.21.11");
    assert_eq!(r[27], "/mc/assets");
    assert_eq!(r[29], "29");
    assert_eq!(r[36], "--xuid");
    assert_eq!(r[37], "");
    assert_eq!(r[39], "release");
    let mut no_log = launch.clone();
    no_log.log_config = None;
    no_log.asset_index = Some("17".into());
    let r = bundled_launch_arguments(&no_log, &session());
    assert_eq!(r.len(), 39);
    assert_eq!(r[15], "-cp");
    assert_eq!(r[28], "17");
}

#[test]
fn bundled_java_locations() {
    assert_eq!(
        bundled_java_path("/mc", TargetOs::Linux),
        "/mc/runtime/java-runtime-delta/linux/java-runtime-delta/bin/java"
    );
    assert_eq!(
        bundled_java_path("C:/mc", TargetOs::Windows),
        "C:/mc/runtime/java-runtime-delta/windows-x64/java-runtime-delta/bin/javaw.exe"
    );
    assert_eq!(
        bundled_java_path("/mc", TargetOs::MacOs),
        "/mc/runtime/java-runtime-delta/mac-os/java-runtime-delta/jre.bundle/Contents/Home/bin/java"
    );
}

#[test]
fn memory_saver_profiles() {
    assert!(uses_memory_saver(Some("MEMORY_SAVER")));
    assert!(uses_memory_saver(Some("CUSTOM")));
    assert!(!uses_memory_saver(Some("COMPETITIVO")));
    assert!(!uses_memory_saver(None));
}

#[test]
fn resource_pack_is_selected_or_added() {
    assert_eq!(
        select_resource_pack("fov:0.5\nresourcePacks:[]\nlang:es"),
        "fov:0.5\nresourcePacks:[\"file/The Better Default Pack\"]\nlang:es\n"
    );
    assert_eq!(
        select_resource_pack("fov:0.5\r\n"),
        "fov:0.5\nresourcePacks:[\"file/The Better Default Pack\"]\n"
    );
    assert_eq!(select_resource_pack(""), "resourcePacks:[\"file/The Better Default Pack\"]\n");
}

#[test]
fn resource_pack_selection_twice_is_once() {
    let once = select_resource_pack("a:1\nresourcePacks:[\"x\"]\n\nb:2");
    assert_eq!(select_resource_pack(&once), once);
}

#[test]
fn memory_saver_replaces_and_adds_settings() {
    let r = apply_memory_saver("ao:true\nfov:0.5\nmaxFps:260");
    let expected = "ao:false\nfov:0.5\nmaxFps:90\nenableVsync:false\nentityDistanceScaling:0.5\n\
                    entityShadows:false\ngraphicsPreset:\"fast\"\nmipmapLevels:0\nparticles:2\n\
                    renderClouds:\"false\"\nrenderDistance:12\nsimulationDistance:8\n\
                    biomeBlendRadius:0\nmenuBackgroundBlurriness:0\nimprovedTransparency:false\n";
    assert_eq!(r, expected);
}

#[test]
fn memory_saver_keeps_lines_without_a_setting() {
    let r = apply_memory_saver("no colon here\nkey:with:colons");
    assert!(r.starts_with("no colon here\nkey:with:colons\nao:false\n"));
}

#[test]
fn memory_saver_twice_is_once() {
    let once = apply_memory_saver("renderDistance:32\r\nsomething:else\n\nao:true");
    assert_eq!(apply_memory_saver(&once), once);
    assert_eq!(line_key_of("a:b:c"), Some("a".to_string()));
    assert_eq!(line_key_of("abc"), None);
}

fn dir(path: &str, is_dir: bool, modified: Option<u128>) -> DirectoryStamp {
    DirectoryStamp { path: path.into(), is_dir, modified }
}

#[test]
fn newest_natives_directory_keeps_the_last_of_the_newest() {
    let entries = vec![
        dir("a", true, Some(5)),
        dir("file", false, Some(50)),
        dir("b", true, Some(7)),
        dir("c", true, Some(7)),
        dir("d", true, None),
    ];
    assert_eq!(newest_natives_directory(&entries), Ok("c".to_string()));
    assert_eq!(newest_natives_directory(&vec![dir("x", true, None)]), Ok("x".to_string()));
    assert_eq!(
        newest_natives_directory(&vec![dir("f", false, Some(1))]),
        Err("No se encontraron los componentes nativos. Inicia Minecraft una vez desde el launcher oficial.".to_string())
    );
}

#[test]
fn process_control() {
    assert_eq!(kill_command_for(TargetOs::Windows, 42), strings(&["taskkill", "/PID", "42", "/T", "/F"]));
    assert_eq!(kill_command_for(TargetOs::Linux, 7), strings(&["kill", "-TERM", "7"]));
    assert_eq!(running_pid(Some(9)), Ok(9));
    assert_eq!(
        running_pid(None),
        Err("No hay una instancia de Minecraft ejecutándose".to_string())
    );
    assert_eq!(kill_requested_message(9), "Se solicitó cerrar Minecraft (PID 9)");
    assert_eq!(ensure_not_running(None), Ok(()));
    assert_eq!(ensure_not_running(Some(3)), Err("Minecraft ya está ejecutándose".to_string()));
    assert_eq!(ensure_not_cancelled(false), Ok(()));
    assert_eq!(ensure_not_cancelled(true), Err("Inicio cancelado por el usuario".to_string()));
    let status = runtime_status_of(Some(5), Some(100));
    assert!(status.running);
    assert_eq!((status.pid, status.started_at), (Some(5), Some(100)));
    assert!(!runtime_status_of(None, None).running);
    assert_eq!(prepared_started_message("1.20.4", 77), "Minecraft 1.20.4 iniciado (PID 77)");
    assert_eq!(
        bundled_started_message("Alex", 8),
        "Minecraft iniciado directamente como Alex (PID 8)"
    );
}

#[test]
fn a_cancellation_holds_until_the_next_start() {
    let mut flag = CancelFlag::new();
    assert_eq!(flag.check(), Ok(()));
    flag.request();
    assert_eq!(flag.check(), Err("Inicio cancelado por el usuario".to_string()));
    assert_eq!(flag.check(), Err("Inicio cancelado por el usuario".to_string()));
    flag.request();
    assert!(flag.check().is_err());
    flag.reset();
    assert_eq!(flag.check(), Ok(()));
    assert_eq!(cancel_message(), "Inicio cancelado");
}
