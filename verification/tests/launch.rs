use mmo_launcher::launch::{archive_staged_executable, check_staged_executable};
use mmo_launcher::launch::{
    after_installer_exit, archive_install_plan, battl_eye_command_log, battl_eye_install_step,
    battl_eye_launch_paths, battl_eye_runner_command, check_launch_paths, game_id_argument,
    game_runner_command, launch_executable, update_launch_paths, update_requested_runner,
    update_runner_command, windows_installer_plan, AfterInstall, BattlEyeInstall,
};
use mmo_launcher::manifest::{
    BattlEyeConfig, GameManifest, InstallMethod, InstallationConfig, LaunchConfig, ManifestAssets,
    UpdateConfig, VerificationConfig,
};
use mmo_launcher::runners::{ResolvedRunner, RunnerCommand};
use mmo_launcher::archive::ArchiveFormat;

fn manifest() -> GameManifest {
    GameManifest {
        schema_version: 1,
        id: "game".to_string(),
        name: "Game".to_string(),
        description: String::new(),
        assets: ManifestAssets {
            banner: "banner.png".to_string(),
            icon: "icon.png".to_string(),
        },
        installation: InstallationConfig { methods: vec![] },
        launch: LaunchConfig {
            runner: "wine".to_string(),
            executable: Some("bin/game.exe".to_string()),
            args: vec![],
            env: vec![],
            unset_env: vec![],
            battl_eye: None,
        },
        update: UpdateConfig {
            strategy: "none".to_string(),
            runner: None,
            compat_prefix: None,
            executable: None,
            args: vec![],
            path_base: None,
            working_dir: None,
            working_dir_base: None,
            env: vec![],
            unset_env: vec![],
            manifest_url: None,
            manifest_format: None,
            target_dir: None,
            target_dir_base: None,
            max_concurrent_downloads: None,
        },
        verification: VerificationConfig {
            required_files: vec![],
            checksums: vec![],
        },
    }
}

fn method(kind: &str) -> InstallMethod {
    InstallMethod {
        kind: kind.to_string(),
        label: kind.to_string(),
        url: None,
        runner: None,
        compat_prefix: None,
        install_path: None,
        launch_after_install: None,
        format: None,
        strip_top_level_dir: false,
        headers: vec![],
    }
}

fn wine() -> ResolvedRunner {
    ResolvedRunner {
        id: "system-wine".to_string(),
        kind: "wine".to_string(),
        label: "Wine do sistema".to_string(),
        source: "PATH".to_string(),
        path: Some("/usr/bin/wine".to_string()),
    }
}

fn battl_eye() -> BattlEyeConfig {
    BattlEyeConfig {
        enabled: true,
        executable: "BattlEye/BELauncher.exe".to_string(),
        args: vec!["-be".to_string()],
        install_args: vec![],
        install_before_launch: false,
        launch_mode: Some("main".to_string()),
        path_base: None,
        working_dir: None,
        working_dir_base: None,
        required: true,
    }
}

#[test]
fn game_ids_are_trimmed_and_required() {
    assert_eq!(game_id_argument("  ravenquest "), Ok("ravenquest".to_string()));
    assert_eq!(game_id_argument(" \t"), Err("ID do jogo não pode ser vazio.".to_string()));
}

#[test]
fn update_runner_prefers_the_update_setting() {
    let mut m = manifest();
    assert_eq!(update_requested_runner(&m, None), "wine");
    assert_eq!(update_requested_runner(&m, Some("proton")), "proton");
    m.update.runner = Some("native".to_string());
    assert_eq!(update_requested_runner(&m, Some("proton")), "native");
}

#[test]
fn windows_installer_plans() {
    let mut m = manifest();
    assert_eq!(
        windows_installer_plan("/d", "g", &m).err(),
        Some("Game não possui método windowsInstaller no manifesto.".to_string())
    );
    let mut installer = method("windowsInstaller");
    m.installation.methods = vec![method("archive"), installer.clone()];
    assert_eq!(
        windows_installer_plan("/d", "g", &m).err(),
        Some("O método windowsInstaller de Game não define uma URL de download.".to_string())
    );
    installer.url = Some("https://x.test/Setup Game.exe?v=2".to_string());
    installer.install_path = Some("drive_c/Game".to_string());
    installer.runner = Some("proton".to_string());
    m.installation.methods = vec![method("archive"), installer];
    let plan = windows_installer_plan("/d", "raven quest", &m).unwrap();
    assert_eq!(plan.method_index, 1);
    assert_eq!(plan.downloads_dir, "/d/downloads/raven_quest");
    assert_eq!(plan.installer_path, "/d/downloads/raven_quest/Setup_Game.exe");
    assert_eq!(plan.runner, "proton");
    assert_eq!(
        plan.registered_install_path.as_deref(),
        Some("/d/compat-data/raven_quest/proton/drive_c/Game")
    );
}

#[test]
fn archive_plans() {
    let mut m = manifest();
    let mut archive = method("archive");
    archive.format = Some("rar".to_string());
    m.installation.methods = vec![archive.clone()];
    assert_eq!(
        archive_install_plan("/d", "g", &m).err(),
        Some("O método archive de Game não define uma URL.".to_string())
    );
    archive.url = Some("https://x.test/client.rar".to_string());
    m.installation.methods = vec![archive.clone()];
    assert_eq!(
        archive_install_plan("/d", "g", &m).err(),
        Some("Formato de arquivo não suportado: `rar`. Formatos aceitos: zip, tar, tar.gz/tgz e tar.bz2/tbz2.".to_string())
    );
    archive.format = None;
    m.installation.methods = vec![archive.clone()];
    assert_eq!(
        archive_install_plan("/d", "g", &m).err(),
        Some("Não foi possível inferir o formato do arquivo por `https://x.test/client.rar`. Defina installation.methods[].format. Formatos aceitos: zip, tar, tar.gz/tgz e tar.bz2/tbz2.".to_string())
    );
    archive.url = Some("https://x.test/client.zip".to_string());
    m.installation.methods = vec![archive.clone()];
    let plan = archive_install_plan("/d", "g", &m).unwrap();
    assert_eq!(plan.format, ArchiveFormat::Zip);
    assert_eq!(plan.archive_path, "/d/downloads/g/client.zip");
    assert_eq!(plan.staging_dir, "/d/install-staging/g");
    assert_eq!(plan.target_dir, "/d/games/g");
    archive.url = Some("https://example.test/client.tar.gz".to_string());
    archive.format = Some("tgz".to_string());
    m.installation.methods = vec![archive.clone()];
    let plan = archive_install_plan("/d", "g", &m).unwrap();
    assert_eq!(plan.format, ArchiveFormat::TarGz);
    assert_eq!(plan.archive_path, "/d/downloads/g/client.tar.gz");
    archive.url = Some("https://example.test/client.tbz2?x=1".to_string());
    archive.format = None;
    m.installation.methods = vec![archive];
    assert_eq!(archive_install_plan("/d", "g", &m).unwrap().format, ArchiveFormat::TarBz2);
}

#[test]
fn what_follows_an_installer() {
    let mut m = manifest();
    assert!(matches!(after_installer_exit(&m, true), AfterInstall::Nothing));
    let mut installer = method("windowsInstaller");
    installer.launch_after_install = Some(true);
    m.installation.methods = vec![installer];
    assert!(matches!(after_installer_exit(&m, false), AfterInstall::InstallNotFound));
    assert!(matches!(after_installer_exit(&m, true), AfterInstall::Launch));
    m.update.strategy = "remoteManifest".to_string();
    assert!(matches!(after_installer_exit(&m, true), AfterInstall::UpdateThenLaunch));
}

#[test]
fn launch_checks() {
    let mut m = manifest();
    assert_eq!(launch_executable(&m), Ok("bin/game.exe".to_string()));
    assert_eq!(check_launch_paths(&m, "/g", true, "/g/bin/game.exe", true), Ok(()));
    assert_eq!(
        check_launch_paths(&m, "/g", false, "/g/bin/game.exe", true),
        Err("A pasta registrada para Game não existe mais: /g".to_string())
    );
    assert_eq!(
        check_launch_paths(&m, "/g", true, "/g/bin/game.exe", false),
        Err("Executável não encontrado para Game: /g/bin/game.exe".to_string())
    );
    m.launch.battl_eye = Some(battl_eye());
    assert_eq!(check_launch_paths(&m, "/g", true, "/g/bin/game.exe", false), Ok(()));
    m.launch.executable = None;
    assert_eq!(
        launch_executable(&m),
        Err("O manifesto de Game ainda não define launch.executable. Configure o executável antes de jogar.".to_string())
    );
}

#[test]
fn game_commands_use_battl_eye_when_it_replaces_the_game() {
    let mut m = manifest();
    m.launch.args = vec!["-nosplash".to_string()];
    m.launch.env = vec![("WINEDEBUG".to_string(), "-all".to_string())];
    let c = game_runner_command(&m, &wine(), "/g/bin/game.exe", "/g", None, None).unwrap();
    assert_eq!(c.program, "/usr/bin/wine");
    assert_eq!(c.args, vec!["/g/bin/game.exe".to_string(), "-nosplash".to_string()]);
    assert_eq!(c.envs, vec![("WINEDEBUG".to_string(), "-all".to_string())]);
    let be = RunnerCommand {
        runner_kind: "wine".to_string(),
        program: "/usr/bin/wine".to_string(),
        args: vec!["/g/BattlEye/BELauncher.exe".to_string()],
        working_dir: "/g/BattlEye".to_string(),
        envs: vec![],
        unset_envs: vec![],
    };
    m.launch.battl_eye = Some(battl_eye());
    let c = game_runner_command(&m, &wine(), "/g/bin/game.exe", "/g", Some(be), None).unwrap();
    assert_eq!(c.working_dir, "/g/BattlEye");
}

#[test]
fn battl_eye_paths_and_commands() {
    let mut m = manifest();
    assert!(battl_eye_launch_paths("/d", "g", &m, "wine", "/g").is_none());
    m.launch.battl_eye = Some(battl_eye());
    assert_eq!(
        battl_eye_launch_paths("/d", "g", &m, "wine", "/g"),
        Some(("/g/BattlEye/BELauncher.exe".to_string(), "/g/BattlEye".to_string()))
    );
    let missing = battl_eye_runner_command(&m, &wine(), "/g/BattlEye/BELauncher.exe", "/g/BattlEye", false, &vec![], None);
    assert_eq!(
        missing.err(),
        Some("BattlEye configurado para Game, mas o executável não foi encontrado: /g/BattlEye/BELauncher.exe".to_string())
    );
    let mut optional = battl_eye();
    optional.required = false;
    m.launch.battl_eye = Some(optional);
    assert!(battl_eye_runner_command(&m, &wine(), "/x", "/", false, &vec![], None).unwrap().is_none());
    let c = battl_eye_runner_command(&m, &wine(), "/x/BE.exe", "/x", true, &vec!["-be".to_string()], None)
        .unwrap()
        .unwrap();
    assert_eq!(c.args, vec!["/x/BE.exe".to_string(), "-be".to_string()]);
    let log = battl_eye_command_log(None, None, &c);
    assert_eq!(log[0], "battl_eye_start=true");
    assert_eq!(log[1], "battl_eye_launch_mode=beforeMain");
    assert_eq!(log[2], "battl_eye.runner_kind=wine");
    let log = battl_eye_command_log(Some("battl_eye_install"), Some("main"), &c);
    assert_eq!(log[1], "battl_eye_install_launch_mode=main");
    assert_eq!(log[3], "battl_eye_install.program=/usr/bin/wine");
}

#[test]
fn battl_eye_preparation_steps() {
    let mut m = manifest();
    assert!(matches!(battl_eye_install_step(&m), BattlEyeInstall::Skip));
    let mut b = battl_eye();
    b.install_before_launch = true;
    m.launch.battl_eye = Some(b.clone());
    assert!(matches!(battl_eye_install_step(&m), BattlEyeInstall::SkipNoArgs));
    b.install_args = vec!["1".to_string()];
    m.launch.battl_eye = Some(b);
    assert!(matches!(battl_eye_install_step(&m), BattlEyeInstall::Run));
}

#[test]
fn external_updater_paths_and_command() {
    let mut m = manifest();
    assert_eq!(
        update_launch_paths("/d", "g", &m, "wine", "/g").err(),
        Some("Game não possui atualização por launcher externo configurada.".to_string())
    );
    m.update.strategy = "externalLauncher".to_string();
    assert_eq!(
        update_launch_paths("/d", "g", &m, "wine", "/g"),
        Ok(("/g/bin/game.exe".to_string(), "/g/bin".to_string()))
    );
    m.update.executable = Some("Launcher.exe".to_string());
    m.update.path_base = Some("compatPrefix".to_string());
    m.update.working_dir = Some("/tmp".to_string());
    assert_eq!(
        update_launch_paths("/d", "g", &m, "wine", "/g"),
        Ok(("/d/compat-data/g/wine/Launcher.exe".to_string(), "/tmp".to_string()))
    );
    m.update.executable = None;
    m.launch.executable = None;
    assert_eq!(
        update_launch_paths("/d", "g", &m, "wine", "/g").err(),
        Some("O update de Game não define executable, e launch.executable também está vazio.".to_string())
    );
    assert_eq!(
        update_runner_command(&m, &wine(), "/u/L.exe", "/u", false, None).err(),
        Some("Updater externo não encontrado para Game: /u/L.exe".to_string())
    );
    m.update.args = vec!["--update".to_string()];
    m.launch.env = vec![("A".to_string(), "1".to_string())];
    m.update.unset_env = vec!["A".to_string()];
    let c = update_runner_command(&m, &wine(), "/u/L.exe", "/u", true, None).unwrap();
    assert_eq!(c.args, vec!["/u/L.exe".to_string(), "--update".to_string()]);
    assert!(c.envs.is_empty());
    assert_eq!(c.unset_envs, vec!["A".to_string()]);
}

#[test]
fn archive_installs_need_the_executable() {
    let mut m = manifest();
    assert_eq!(archive_staged_executable(&m, "/s"), Ok("/s/bin/game.exe".to_string()));
    assert_eq!(
        check_staged_executable(&m, ArchiveFormat::Zip, "/s/bin/game.exe", true),
        Ok(())
    );
    assert_eq!(
        check_staged_executable(&m, ArchiveFormat::Zip, "/s/bin/game.exe", false),
        Err("O ZIP de Game foi extraído, mas o executável esperado não foi encontrado: /s/bin/game.exe".to_string())
    );
    assert_eq!(
        check_staged_executable(&m, ArchiveFormat::TarGz, "/s/bin/game.exe", false),
        Err("O arquivo de Game foi extraído, mas o executável esperado não foi encontrado: /s/bin/game.exe".to_string())
    );
    m.launch.executable = None;
    assert_eq!(
        archive_staged_executable(&m, "/s"),
        Err("O manifesto de Game não define launch.executable.".to_string())
    );
}
