use mmo_launcher::environment::{
    apply_environment_overrides, apply_launch_environment, apply_update_environment,
    expand_manifest_env_value,
};
use mmo_launcher::manifest::{
    GameManifest, InstallMethod, InstallationConfig, LaunchConfig, ManifestAssets, UpdateConfig,
    VerificationConfig,
};
use mmo_launcher::runners::RunnerCommand;

fn manifest() -> GameManifest {
    GameManifest {
        schema_version: 1,
        id: "game".to_string(),
        name: "Game".to_string(),
        description: String::new(),
        assets: ManifestAssets {
            banner: "banner.png".to_string(),
            icon: "icon.png".to_string(),
        },
        installation: InstallationConfig { methods: vec![] },
        launch: LaunchConfig {
            runner: "wine".to_string(),
            executable: Some("bin/game.exe".to_string()),
            args: vec![],
            env: vec![],
            unset_env: vec![],
            battl_eye: None,
        },
        update: UpdateConfig {
            strategy: "none".to_string(),
            runner: None,
            compat_prefix: None,
            executable: None,
            args: vec![],
            path_base: None,
            working_dir: None,
            working_dir_base: None,
            env: vec![],
            unset_env: vec![],
            manifest_url: None,
            manifest_format: None,
            target_dir: None,
            target_dir_base: None,
            max_concurrent_downloads: None,
        },
        verification: VerificationConfig {
            required_files: vec![],
            checksums: vec![],
        },
    }
}

fn method(kind: &str) -> InstallMethod {
    InstallMethod {
        kind: kind.to_string(),
        label: kind.to_string(),
        url: None,
        runner: None,
        compat_prefix: None,
        install_path: None,
        launch_after_install: None,
        format: None,
        strip_top_level_dir: false,
        headers: vec![],
    }
}

fn pair(k: &str, v: &str) -> (String, String) {
    (k.to_string(), v.to_string())
}

fn command() -> RunnerCommand {
    RunnerCommand {
        runner_kind: "wine".to_string(),
        program: "/usr/bin/wine".to_string(),
        args: vec!["game.exe".to_string()],
        working_dir: "/games/x".to_string(),
        envs: vec![pair("WINEDEBUG", "-all"), pair("DXVK_HUD", "1")],
        unset_envs: vec!["LD_PRELOAD".to_string()],
    }
}

#[test]
fn home_is_expanded_in_values() {
    let home = Some("/home/ana");
    assert_eq!(expand_manifest_env_value("~", home), "/home/ana");
    assert_eq!(expand_manifest_env_value("$HOME", home), "/home/ana");
    assert_eq!(expand_manifest_env_value("${HOME}", home), "/home/ana");
    assert_eq!(expand_manifest_env_value("~/Games", home), "/home/ana/Games");
    assert_eq!(expand_manifest_env_value("$HOME/.wine", home), "/home/ana/.wine");
    assert_eq!(expand_manifest_env_value("${HOME}/x/y", home), "/home/ana/x/y");
    assert_eq!(expand_manifest_env_value("a~/b", home), "a~/b");
    assert_eq!(expand_manifest_env_value("~user", home), "~user");
    assert_eq!(expand_manifest_env_value("~/Games", None), "~/Games");
}

#[test]
fn overrides_replace_set_and_remove_variables() {
    let mut c = command();
    let env = vec![pair("DXVK_HUD", "0"), pair("WINEPREFIX", "~/prefix")];
    let unset = vec!["WINEDEBUG".to_string(), "LD_PRELOAD".to_string(), "SDL_VIDEODRIVER".to_string()];
    apply_environment_overrides(&mut c, &env, &unset, Some("/home/ana"));
    assert_eq!(c.envs, vec![pair("DXVK_HUD", "0"), pair("WINEPREFIX", "/home/ana/prefix")]);
    assert_eq!(c.unset_envs, vec!["LD_PRELOAD".to_string(), "WINEDEBUG".to_string(), "SDL_VIDEODRIVER".to_string()]);
    assert_eq!(c.program, "/usr/bin/wine");
    assert_eq!(c.args, vec!["game.exe".to_string()]);
}

#[test]
fn a_removed_name_wins_over_a_set_one() {
    let mut c = command();
    apply_environment_overrides(&mut c, &vec![pair("X", "1")], &vec!["X".to_string(), "X".to_string()], None);
    assert!(c.envs.iter().all(|(k, _)| k != "X"));
    assert_eq!(c.unset_envs.iter().filter(|k| k.as_str() == "X").count(), 1);
}

#[test]
fn update_environment_applies_launch_then_update() {
    let mut m = manifest();
    m.launch.env = vec![pair("A", "launch"), pair("B", "launch")];
    m.launch.unset_env = vec!["C".to_string()];
    m.update.env = vec![pair("A", "update")];
    m.update.unset_env = vec!["B".to_string()];
    let mut c = command();
    c.envs = vec![pair("C", "old")];
    c.unset_envs = vec![];
    apply_update_environment(&m, &mut c, None);
    assert_eq!(c.envs, vec![pair("A", "update")]);
    assert_eq!(c.unset_envs, vec!["C".to_string(), "B".to_string()]);

    let mut d = command();
    d.envs = vec![];
    d.unset_envs = vec![];
    apply_launch_environment(&m, &mut d, None);
    assert_eq!(d.envs, vec![pair("A", "launch"), pair("B", "launch")]);
    assert_eq!(d.unset_envs, vec!["C".to_string()]);
}
