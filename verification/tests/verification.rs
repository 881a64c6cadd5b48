use mmo_launcher::manifest::{
    BattlEyeConfig, GameManifest, InstallMethod, InstallationConfig, LaunchConfig, ManifestAssets,
    UpdateConfig, VerificationChecksumConfig, VerificationConfig,
};
use mmo_launcher::verification::{
    checksum_file_path, crc32_hex, effective_executable_path_for_verification,
    install_verification_result, missing_required_files, required_file_paths,
    verify_configured_checksums, ChecksumVerificationResult, FileReading,
};

fn manifest() -> GameManifest {
    GameManifest {
        schema_version: 1,
        id: "game".to_string(),
        name: "Game".to_string(),
        description: String::new(),
        assets: ManifestAssets {
            banner: "banner.png".to_string(),
            icon: "icon.png".to_string(),
        },
        installation: InstallationConfig { methods: vec![] },
        launch: LaunchConfig {
            runner: "wine".to_string(),
            executable: Some("bin/game.exe".to_string()),
            args: vec![],
            env: vec![],
            unset_env: vec![],
            battl_eye: None,
        },
        update: UpdateConfig {
            strategy: "none".to_string(),
            runner: None,
            compat_prefix: None,
            executable: None,
            args: vec![],
            path_base: None,
            working_dir: None,
            working_dir_base: None,
            env: vec![],
            unset_env: vec![],
            manifest_url: None,
            manifest_format: None,
            target_dir: None,
            target_dir_base: None,
            max_concurrent_downloads: None,
        },
        verification: VerificationConfig {
            required_files: vec![],
            checksums: vec![],
        },
    }
}

fn method(kind: &str) -> InstallMethod {
    InstallMethod {
        kind: kind.to_string(),
        label: kind.to_string(),
        url: None,
        runner: None,
        compat_prefix: None,
        install_path: None,
        launch_after_install: None,
        format: None,
        strip_top_level_dir: false,
        headers: vec![],
    }
}

fn checksum(path: &str, algorithm: &str, value: &str) -> VerificationChecksumConfig {
    VerificationChecksumConfig {
        path: path.to_string(),
        algorithm: algorithm.to_string(),
        value: value.to_string(),
    }
}

#[test]
fn detects_only_missing_required_files() {
    let required_files = vec!["game.bin".to_string(), "data".to_string(), "missing.pak".to_string()];
    let paths = required_file_paths("/tmp/install", &required_files);
    assert_eq!(paths, vec!["/tmp/install/game.bin", "/tmp/install/data", "/tmp/install/missing.pak"]);
    let missing = missing_required_files(true, &required_files, &vec![true, true, false]);
    assert_eq!(missing, vec!["missing.pak"]);
}

#[test]
fn reports_all_required_files_when_install_path_is_missing() {
    let required_files = vec!["game.bin".to_string(), "data".to_string()];
    let missing = missing_required_files(false, &required_files, &vec![true, true]);
    assert_eq!(missing, required_files);
}

#[test]
fn verifies_configured_crc32_checksums() {
    let checksums = vec![checksum("game.bin", "crc32", "d87f7e0c")];
    let readings = vec![FileReading::Contents(b"test".to_vec())];
    let results = verify_configured_checksums("/tmp/install", true, &checksums, &readings)
        .expect("verificar checksum");
    assert_eq!(results.len(), 1);
    assert!(results[0].valid);
    assert_eq!(results[0].actual.as_deref(), Some("d87f7e0c"));
}

#[test]
fn reports_divergent_and_missing_checksum_files() {
    let checksums = vec![
        checksum("game.bin", "crc32", "d87f7e0c"),
        checksum("missing.bin", "crc32", "00000000"),
    ];
    let readings = vec![FileReading::Contents(b"changed".to_vec()), FileReading::Missing];
    let results = verify_configured_checksums("/tmp/install", true, &checksums, &readings)
        .expect("verificar checksums");
    assert!(!results[0].valid);
    assert!(results[0].actual.is_some());
    assert!(!results[1].valid);
    assert!(results[1].actual.is_none());
}

#[test]
fn rejects_invalid_checksum_configuration() {
    let unsafe_path = vec![checksum("../outside.bin", "crc32", "00000000")];
    let unsupported_algorithm = vec![checksum("game.bin", "sha256", "00000000")];
    let invalid_value = vec![checksum("game.bin", "crc32", "not-a-crc")];
    let absolute_path = vec![checksum("/tmp/outside.bin", "crc32", "00000000")];
    let none = vec![FileReading::Missing];
    assert!(verify_configured_checksums("/tmp", true, &unsafe_path, &none).is_err());
    assert!(verify_configured_checksums("/tmp", true, &absolute_path, &none).is_err());
    assert!(verify_configured_checksums("/tmp", true, &unsupported_algorithm, &none).is_err());
    assert!(verify_configured_checksums("/tmp", true, &invalid_value, &none).is_err());
}

#[test]
fn checksum_configuration_errors_are_exact() {
    assert_eq!(
        checksum_file_path("/i", &checksum("a.bin", " SHA256 ", "00000000")),
        Err("Algoritmo de checksum não suportado para a.bin:  SHA256 ".to_string())
    );
    assert_eq!(
        checksum_file_path("/i", &checksum("a.bin", "CRC32", "123")),
        Err("Checksum CRC32 inválido para a.bin: 123".to_string())
    );
    assert_eq!(
        checksum_file_path("/i", &checksum("\\a.bin", "crc32", "0000000A")),
        Err("Caminho absoluto não permitido em verification.checksums: \\a.bin".to_string())
    );
    assert_eq!(
        checksum_file_path("/i", &checksum("x/../../a", "crc32", "00000000")),
        Err("Caminho inseguro em verification.checksums: x/../../a".to_string())
    );
    assert_eq!(
        checksum_file_path("/i", &checksum("data\\a.bin", " Crc32", " D87F7E0C ")),
        Ok("/i/data/a.bin".to_string())
    );
}

#[test]
fn checksum_results_normalise_and_compare_in_any_case() {
    let checksums = vec![checksum("a.bin", " CRC32 ", " D87F7E0C ")];
    let results = verify_configured_checksums(
        "/i",
        true,
        &checksums,
        &vec![FileReading::Contents(b"test".to_vec())],
    )
    .unwrap();
    assert_eq!(results[0].algorithm, "crc32");
    assert_eq!(results[0].expected, "d87f7e0c");
    assert!(results[0].valid);
    let skipped = verify_configured_checksums(
        "/i",
        false,
        &checksums,
        &vec![FileReading::Failed("x".to_string())],
    )
    .unwrap();
    assert!(skipped[0].actual.is_none());
    assert_eq!(
        verify_configured_checksums("/i", true, &checksums, &vec![FileReading::Failed("sem acesso".to_string())])
            .err(),
        Some("sem acesso".to_string())
    );
}

#[test]
fn crc32_is_written_as_eight_lowercase_digits() {
    assert_eq!(crc32_hex(b"test"), "d87f7e0c");
    assert_eq!(crc32_hex(b""), "00000000");
    assert_eq!(crc32_hex(b"a"), "e8b7be43");
}

fn result(valid: bool) -> ChecksumVerificationResult {
    ChecksumVerificationResult {
        path: "a".to_string(),
        algorithm: "crc32".to_string(),
        expected: "00000000".to_string(),
        actual: None,
        valid,
    }
}

#[test]
fn an_installation_is_valid_exactly_when_no_issue_is_listed() {
    let ok = install_verification_result(
        "g".to_string(),
        "/games/g".to_string(),
        true,
        Some("/games/g/g.exe".to_string()),
        true,
        vec![],
        vec![result(true)],
        Some("archive".to_string()),
    );
    assert!(ok.valid);
    assert!(ok.issues.is_empty());

    let bad = install_verification_result(
        "g".to_string(),
        "/games/g".to_string(),
        false,
        None,
        true,
        vec!["a".to_string(), "b".to_string()],
        vec![result(false), result(true), result(false)],
        None,
    );
    assert!(!bad.valid);
    assert!(!bad.executable_exists);
    assert_eq!(
        bad.issues,
        vec![
            "A pasta registrada não existe mais: /games/g".to_string(),
            "O manifesto não define um executável verificável.".to_string(),
            "2 arquivo(s) obrigatório(s) estão ausentes.".to_string(),
            "2 arquivo(s) possuem checksum ausente ou divergente.".to_string(),
        ]
    );

    let no_exe = install_verification_result(
        "g".to_string(),
        "/g".to_string(),
        true,
        Some("/g/x".to_string()),
        false,
        vec![],
        vec![],
        None,
    );
    assert!(!no_exe.valid);
    assert_eq!(no_exe.issues, vec!["O executável principal não foi encontrado: /g/x".to_string()]);
}

#[test]
fn verification_looks_for_battl_eye_when_it_replaces_the_game() {
    let mut m = manifest();
    assert_eq!(
        effective_executable_path_for_verification("/data", "game", &m, "/games/x"),
        Some("/games/x/bin/game.exe".to_string())
    );
    m.launch.battl_eye = Some(BattlEyeConfig {
        enabled: true,
        executable: "BEService.exe".to_string(),
        args: vec![],
        install_args: vec![],
        install_before_launch: false,
        launch_mode: Some("main".to_string()),
        path_base: Some("compatPrefix".to_string()),
        working_dir: None,
        working_dir_base: None,
        required: true,
    });
    assert_eq!(
        effective_executable_path_for_verification("/data", "game", &m, "/games/x"),
        Some("/data/compat-data/game/wine/BEService.exe".to_string())
    );
    m.launch.executable = None;
    m.launch.battl_eye = None;
    assert_eq!(effective_executable_path_for_verification("/data", "game", &m, "/games/x"), None);
}
