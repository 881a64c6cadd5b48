use mmo_launcher::install::{
    battl_eye_replaces_main_process, choose_found_executable, command_path_for_install,
    install_lookup, is_executable_candidate, InstallLookup, configured_base_path,
    configured_path_for_install, get_manifest, install_candidate_paths, is_windows_system_path,
    managed_windows_prefix_dir, path_matches_manifest_executable, push_unique_path,
    relative_executable_install_path, repair_strategy_for_manifest, should_launch_after_install,
};
use mmo_launcher::paths::path_before;
use mmo_launcher::manifest::{
    BattlEyeConfig, GameManifest, InstallMethod, InstallationConfig, LaunchConfig, ManifestAssets,
    UpdateConfig, VerificationConfig,
};

fn manifest() -> GameManifest {
    GameManifest {
        schema_version: 1,
        id: "game".to_string(),
        name: "Game".to_string(),
        description: String::new(),
        assets: ManifestAssets {
            banner: "banner.png".to_string(),
            icon: "icon.png".to_string(),
        },
        installation: InstallationConfig { methods: vec![] },
        launch: LaunchConfig {
            runner: "wine".to_string(),
            executable: Some("bin/game.exe".to_string()),
            args: vec![],
            env: vec![],
            unset_env: vec![],
            battl_eye: None,
        },
        update: UpdateConfig {
            strategy: "none".to_string(),
            runner: None,
            compat_prefix: None,
            executable: None,
            args: vec![],
            path_base: None,
            working_dir: None,
            working_dir_base: None,
            env: vec![],
            unset_env: vec![],
            manifest_url: None,
            manifest_format: None,
            target_dir: None,
            target_dir_base: None,
            max_concurrent_downloads: None,
        },
        verification: VerificationConfig {
            required_files: vec![],
            checksums: vec![],
        },
    }
}

fn method(kind: &str) -> InstallMethod {
    InstallMethod {
        kind: kind.to_string(),
        label: kind.to_string(),
        url: None,
        runner: None,
        compat_prefix: None,
        install_path: None,
        launch_after_install: None,
        format: None,
        strip_top_level_dir: false,
        headers: vec![],
    }
}

fn battl_eye(enabled: bool, mode: Option<&str>) -> BattlEyeConfig {
    BattlEyeConfig {
        enabled,
        executable: "BEService.exe".to_string(),
        args: vec![],
        install_args: vec![],
        install_before_launch: false,
        launch_mode: mode.map(str::to_string),
        path_base: None,
        working_dir: None,
        working_dir_base: None,
        required: true,
    }
}

#[test]
fn executables_resolve_against_the_installation() {
    assert_eq!(command_path_for_install("/games/x", "bin/game.exe"), "/games/x/bin/game.exe");
    assert_eq!(command_path_for_install("/games/x/", "game"), "/games/x/game");
    assert_eq!(command_path_for_install("/games/x", "/opt/game"), "/opt/game");
}

#[test]
fn installation_is_found_above_the_executable() {
    assert_eq!(
        relative_executable_install_path("/p/drive_c/Game/bin/game.exe", "bin/game.exe"),
        Some("/p/drive_c/Game".to_string())
    );
    assert_eq!(
        relative_executable_install_path("/p/Game/game.exe", "/abs/game.exe"),
        Some("/p/Game".to_string())
    );
    assert_eq!(relative_executable_install_path("/game.exe", "a/b/game.exe"), None);
    assert_eq!(relative_executable_install_path("/x/game.exe", ""), Some("/x".to_string()));
}

#[test]
fn windows_system_folders_are_recognised() {
    assert!(is_windows_system_path("/p/drive_c/Windows/system32"));
    assert!(is_windows_system_path("/p/drive_c/WINDOWS"));
    assert!(!is_windows_system_path("/p/drive_c/windows.old"));
}

#[test]
fn found_files_match_the_manifest_executable() {
    assert!(path_matches_manifest_executable("/p/Game/bin/game.exe", "bin/game.exe"));
    assert!(!path_matches_manifest_executable("/p/Game/xbin/game.exe", "bin/game.exe"));
    assert!(path_matches_manifest_executable("/opt//game", "/opt/game"));
    assert!(!path_matches_manifest_executable("/opt/x/game", "/opt/game"));
}

#[test]
fn paths_are_ordered_by_components() {
    assert!(path_before("/a/b", "/a/c"));
    assert!(path_before("/a", "/a/b"));
    assert!(path_before("/a/b", "/ab"));
    assert!(!path_before("/a//b", "/a/b"));
    assert!(!path_before("/a/b", "/a//b"));
    assert!(path_before("/z", "a"));
    assert!(path_before("./x", "../x"));
    assert!(path_before("../x", "x"));
    assert!(path_before("/A", "/a"));
}

#[test]
fn the_search_settles_on_the_least_matching_path() {
    assert!(is_executable_candidate("/p/Game/GAME.EXE", "game.exe"));
    assert!(!is_executable_candidate("/p/Game/game.exe.bak", "game.exe"));
    assert!(is_executable_candidate("/p/Game/bin/game.exe", "bin/game.exe"));
    assert!(!is_executable_candidate("/p/Game/xbin/game.exe", "bin/game.exe"));
    assert!(!is_executable_candidate("/p/game.exe", ".."));

    let files = vec![
        "/p/z/game.exe".to_string(),
        "/p/readme.txt".to_string(),
        "/p/b/Game.exe".to_string(),
        "/p/b//Game.exe".to_string(),
        "/p/c/game.exe".to_string(),
    ];

    assert_eq!(choose_found_executable(&files, "game.exe"), Some(2));
    assert_eq!(choose_found_executable(&files, "other.exe"), None);
    assert_eq!(choose_found_executable(&vec![], "game.exe"), None);
}

#[test]
fn prefixes_and_configured_paths() {
    assert_eq!(
        managed_windows_prefix_dir("/data", "raven quest", "proton"),
        "/data/compat-data/raven_quest/proton"
    );
    assert_eq!(configured_base_path("/data", "g", "/games/g", None, "wine"), "/games/g");
    assert_eq!(
        configured_base_path("/data", "g", "/games/g", Some("compatPrefix"), "wine"),
        "/data/compat-data/g/wine"
    );
    assert_eq!(
        configured_base_path("/data", "g", "/games/g", Some("proton"), "wine"),
        "/data/compat-data/g/proton"
    );
    assert_eq!(
        configured_path_for_install("/data", "g", "/games/g", "drive_c/x.exe", Some("compatPrefix"), "wine"),
        "/data/compat-data/g/wine/drive_c/x.exe"
    );
    assert_eq!(
        configured_path_for_install("/data", "g", "/games/g", "/abs/x.exe", Some("compatPrefix"), "wine"),
        "/abs/x.exe"
    );
}

#[test]
fn unique_paths_keep_the_first_occurrence() {
    let mut paths = vec![];
    let mut seen = vec![];
    push_unique_path(&mut paths, &mut seen, "/a".to_string());
    push_unique_path(&mut paths, &mut seen, "/b".to_string());
    push_unique_path(&mut paths, &mut seen, "/a".to_string());
    assert_eq!(paths, vec!["/a".to_string(), "/b".to_string()]);
    assert_eq!(seen, paths);
}

#[test]
fn candidate_paths_cover_each_prefix_once() {
    let mut m = manifest();
    let mut installer = method("windowsInstaller");
    installer.install_path = Some("drive_c/Game".to_string());
    installer.runner = Some("proton".to_string());
    let mut existing = method("existing");
    existing.compat_prefix = Some("wine".to_string());
    m.installation.methods = vec![installer, existing];
    let (installs, roots) = install_candidate_paths("/d", "g", &m);
    assert_eq!(
        roots,
        vec!["/d/compat-data/g/proton".to_string(), "/d/compat-data/g/wine".to_string()]
    );
    assert_eq!(
        installs,
        vec![
            "/d/compat-data/g/proton/drive_c/Game".to_string(),
            "/d/compat-data/g/wine/drive_c/Game".to_string(),
        ]
    );
}

#[test]
fn manifest_switches() {
    let mut m = manifest();
    assert!(!should_launch_after_install(&m));
    let mut installer = method("windowsInstaller");
    installer.launch_after_install = Some(true);
    m.installation.methods = vec![method("archive"), installer];
    assert!(should_launch_after_install(&m));
    let mut other = method("archive");
    other.launch_after_install = Some(true);
    m.installation.methods = vec![other];
    assert!(!should_launch_after_install(&m));

    assert!(!battl_eye_replaces_main_process(&m));
    m.launch.battl_eye = Some(battl_eye(true, Some("replace-main")));
    assert!(battl_eye_replaces_main_process(&m));
    m.launch.battl_eye = Some(battl_eye(false, Some("main")));
    assert!(!battl_eye_replaces_main_process(&m));
    m.launch.battl_eye = Some(battl_eye(true, Some("beforeMain")));
    assert!(!battl_eye_replaces_main_process(&m));
    m.launch.battl_eye = Some(battl_eye(true, None));
    assert!(!battl_eye_replaces_main_process(&m));
}

#[test]
fn repair_strategy_prefers_remote_manifest_then_install_methods() {
    let mut m = manifest();
    assert_eq!(repair_strategy_for_manifest(&m), None);
    m.installation.methods = vec![method("existing"), method("windowsInstaller")];
    assert_eq!(repair_strategy_for_manifest(&m), Some("windowsInstaller".to_string()));
    m.installation.methods.push(method("archive"));
    assert_eq!(repair_strategy_for_manifest(&m), Some("archive".to_string()));
    m.update.strategy = "remoteManifest".to_string();
    assert_eq!(repair_strategy_for_manifest(&m), Some("remoteManifest".to_string()));
}

#[test]
fn manifests_are_found_by_id() {
    let mut a = manifest();
    a.id = "a".to_string();
    a.name = "First".to_string();
    let mut b = manifest();
    b.id = "b".to_string();
    b.name = "Second".to_string();
    let found = get_manifest(vec![a, b], "b").unwrap();
    assert_eq!(found.name, "Second");
    let mut c = manifest();
    c.id = "c".to_string();
    match get_manifest(vec![c], "z") {
        Err(e) => assert_eq!(e, "Manifesto não encontrado para o jogo z."),
        Ok(_) => panic!("no manifest has that id"),
    }
}

#[test]
fn the_installation_is_found_back_from_its_executable() {
    for (install, executable) in [
        ("/games/Raven", "bin/game.exe"),
        ("/games/Raven/", "game.exe"),
        ("games", "a/b/c.exe"),
        ("", "game.exe"),
        ("/", "game.exe"),
    ] {
        let command_path = command_path_for_install(install, executable);
        let found = relative_executable_install_path(&command_path, executable).unwrap();
        assert_eq!(std::path::Path::new(&found), std::path::Path::new(install));
    }
    let found = relative_executable_install_path(
        &command_path_for_install("/games//Raven", "bin/game.exe"),
        "bin/game.exe",
    )
    .unwrap();
    assert_eq!(found, "/games/Raven");
}

#[test]
fn installations_are_looked_for_in_order() {
    assert_eq!(install_lookup(Some(true), &vec![true]), InstallLookup::Registered);
    assert_eq!(
        install_lookup(Some(false), &vec![false, true, true]),
        InstallLookup::Candidate(1)
    );
    assert_eq!(install_lookup(None, &vec![true]), InstallLookup::Candidate(0));
    assert_eq!(install_lookup(None, &vec![false, false]), InstallLookup::Search);
    assert_eq!(install_lookup(Some(false), &vec![]), InstallLookup::Search);
}
