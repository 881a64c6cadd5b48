use mmo_launcher::remote_update::remote_update_target_dir;
use mmo_launcher::manifest::{
    GameManifest, InstallMethod, InstallationConfig, LaunchConfig, ManifestAssets, UpdateConfig,
    VerificationConfig,
};
use mmo_launcher::remote_update::{
    download_errors_message, download_worker_count, local_checksum_matches, local_size_matches,
    percent_encode_url_path_segment, plan_remote_file, progress_checkpoint, remote_file_destination,
    remote_file_list, remote_file_url, remote_manifest_decode_plan, remote_update_concurrency,
    remote_update_staging_dir, safe_remote_relative_path, zlib_decode_at, LegacyUpdateDir,
    RemoteBinaryEntry, RemoteFileEntry, RemoteUpdateManifest, UpdateCheck,
};
use mmo_launcher::remote_update::{update_transition, UpdateAction, UpdateEvent, UpdatePhase};
use std::io::Write;

fn manifest() -> GameManifest {
    GameManifest {
        schema_version: 1,
        id: "game".to_string(),
        name: "Game".to_string(),
        description: String::new(),
        assets: ManifestAssets {
            banner: "banner.png".to_string(),
            icon: "icon.png".to_string(),
        },
        installation: InstallationConfig { methods: vec![] },
        launch: LaunchConfig {
            runner: "wine".to_string(),
            executable: Some("bin/game.exe".to_string()),
            args: vec![],
            env: vec![],
            unset_env: vec![],
            battl_eye: None,
        },
        update: UpdateConfig {
            strategy: "none".to_string(),
            runner: None,
            compat_prefix: None,
            executable: None,
            args: vec![],
            path_base: None,
            working_dir: None,
            working_dir_base: None,
            env: vec![],
            unset_env: vec![],
            manifest_url: None,
            manifest_format: None,
            target_dir: None,
            target_dir_base: None,
            max_concurrent_downloads: None,
        },
        verification: VerificationConfig {
            required_files: vec![],
            checksums: vec![],
        },
    }
}

fn method(kind: &str) -> InstallMethod {
    InstallMethod {
        kind: kind.to_string(),
        label: kind.to_string(),
        url: None,
        runner: None,
        compat_prefix: None,
        install_path: None,
        launch_after_install: None,
        format: None,
        strip_top_level_dir: false,
        headers: vec![],
    }
}

fn entry(checksum: &str, size: u64) -> RemoteFileEntry {
    RemoteFileEntry {
        checksum: checksum.to_string(),
        size,
    }
}

#[test]
fn remote_paths_are_made_relative_and_checked() {
    assert_eq!(safe_remote_relative_path("/data/a.pak"), Ok("data/a.pak".to_string()));
    assert_eq!(safe_remote_relative_path("//x\\y.bin"), Ok("x/y.bin".to_string()));
    assert_eq!(
        safe_remote_relative_path("///"),
        Err("Caminho remoto vazio no manifesto de update.".to_string())
    );
    assert_eq!(
        safe_remote_relative_path("data\\..\\..\\etc"),
        Err("Caminho remoto inseguro no manifesto de update: data\\..\\..\\etc".to_string())
    );
}

#[test]
fn segments_are_percent_encoded_byte_by_byte() {
    assert_eq!(percent_encode_url_path_segment("Game File-1.0_x~"), "Game%20File-1.0_x~");
    assert_eq!(percent_encode_url_path_segment("ç/"), "%C3%A7%2F");
    assert_eq!(percent_encode_url_path_segment(""), "");
}

#[test]
fn file_urls_join_base_and_encoded_path() {
    assert_eq!(
        remote_file_url("https://cdn.test/client//", "/data/My File.pak"),
        "https://cdn.test/client/data/My%20File.pak"
    );
    assert_eq!(remote_file_url("https://cdn.test", "a//b"), "https://cdn.test/a//b");
}

#[test]
fn concurrency_defaults_and_is_clamped() {
    let mut m = manifest();
    assert_eq!(remote_update_concurrency(&m), 6);
    m.update.max_concurrent_downloads = Some(0);
    assert_eq!(remote_update_concurrency(&m), 1);
    m.update.max_concurrent_downloads = Some(64);
    assert_eq!(remote_update_concurrency(&m), 16);
    m.update.max_concurrent_downloads = Some(9);
    assert_eq!(remote_update_concurrency(&m), 9);
}

#[test]
fn file_list_is_sorted_and_binary_replaces_its_entry() {
    let manifest = RemoteUpdateManifest {
        url: "https://cdn.test".to_string(),
        fallback_url: None,
        binary: Some(RemoteBinaryEntry {
            file: "game.exe".to_string(),
            checksum: "bbbbbbbb".to_string(),
            size: 9,
        }),
        files: vec![
            ("zeta.pak".to_string(), entry("00000001", 1)),
            ("game.exe".to_string(), entry("aaaaaaaa", 8)),
            ("Data/b.pak".to_string(), entry("00000002", 2)),
            ("data/a.pak".to_string(), entry("00000003", 3)),
        ],
        keep_files: None,
        min_client_version: None,
    };
    let list = remote_file_list(&manifest);
    let paths: Vec<&str> = list.iter().map(|(p, _)| p.as_str()).collect();
    assert_eq!(paths, vec!["Data/b.pak", "data/a.pak", "game.exe", "zeta.pak"]);
    let exe = &list[2].1;
    assert_eq!(exe.checksum, "bbbbbbbb");
    assert_eq!(exe.size, 9);
}

#[test]
fn planning_a_divergent_file() {
    let planned = plan_remote_file(
        "https://cdn.test/files/",
        "/games/x",
        "/data/updates/x/staging",
        "/data/My File.pak",
        entry("abcdef01", 5),
    )
    .unwrap();
    assert_eq!(planned.destination, "/games/x/data/My File.pak");
    assert_eq!(planned.staging_destination, "/data/updates/x/staging/data/My File.pak");
    assert_eq!(planned.url, "https://cdn.test/files/data/My%20File.pak");
    assert_eq!(planned.remote_path, "/data/My File.pak");
    assert!(plan_remote_file("b", "/t", "/s", "../x", entry("", 0)).is_err());
    assert_eq!(remote_file_destination("/games/x", "a\\b.bin"), Ok("/games/x/a/b.bin".to_string()));
}

#[test]
fn local_files_match_by_size_and_checksum() {
    let e = entry("D87F7E0C", 4);
    assert!(local_size_matches(&e, Some(4)));
    assert!(!local_size_matches(&e, Some(5)));
    assert!(!local_size_matches(&e, None));
    assert!(local_checksum_matches(&e, b"test"));
    assert!(!local_checksum_matches(&e, b"tesT"));
}

#[test]
fn checkpoints_workers_and_errors() {
    assert!(progress_checkpoint(1, 100, 500));
    assert!(progress_checkpoint(200, 100, 500));
    assert!(progress_checkpoint(500, 100, 500));
    assert!(!progress_checkpoint(150, 100, 500));
    assert_eq!(download_worker_count(6, 2), 2);
    assert_eq!(download_worker_count(6, 0), 1);
    assert_eq!(download_worker_count(4, 10), 4);
    assert_eq!(download_errors_message(&vec![]), None);
    assert_eq!(
        download_errors_message(&vec!["primeiro".to_string(), "segundo".to_string()]),
        Some("Falha ao baixar/validar 2 arquivo(s). Primeiro erro: primeiro".to_string())
    );
}

fn legacy(name: &str, staging: &str, is_dir: bool) -> LegacyUpdateDir {
    LegacyUpdateDir {
        name: name.to_string(),
        staging: staging.to_string(),
        staging_is_dir: is_dir,
    }
}

#[test]
fn staging_prefers_stable_then_latest_legacy() {
    let dirs = vec![
        legacy("100", "/u/100/staging", true),
        legacy("300", "/u/300/staging", false),
        legacy("abc", "/u/abc/staging", true),
        legacy("200", "/u/200/staging", true),
        legacy("0200", "/u/0200/staging", true),
    ];
    assert_eq!(remote_update_staging_dir("/u/staging", true, &dirs), "/u/staging");
    assert_eq!(remote_update_staging_dir("/u/staging", false, &dirs), "/u/0200/staging");
    assert_eq!(remote_update_staging_dir("/u/staging", false, &vec![]), "/u/staging");
}

#[test]
fn remote_manifests_decode_from_zlib_at_an_offset() {
    assert_eq!(remote_manifest_decode_plan(Some("json")), (true, 16));
    assert_eq!(remote_manifest_decode_plan(Some("ravenquestZlib")), (false, 8));
    assert_eq!(remote_manifest_decode_plan(Some("zlibWithSizePrefix")), (false, 8));
    assert_eq!(remote_manifest_decode_plan(None), (false, 16));
    let mut encoder = flate2::write::ZlibEncoder::new(Vec::new(), flate2::Compression::default());
    encoder.write_all(b"{\"url\":\"x\"}").unwrap();
    let compressed = encoder.finish().unwrap();
    let mut framed = vec![1u8, 2, 3, 4];
    framed.extend_from_slice(&compressed);
    assert_eq!(zlib_decode_at(&framed, 4), Some(b"{\"url\":\"x\"}".to_vec()));
    assert_eq!(zlib_decode_at(&framed, 0), None);
}

#[test]
fn update_target_defaults_to_the_installation() {
    let mut m = manifest();
    assert_eq!(remote_update_target_dir("/d", "g", &m, "/games/g"), "/games/g");
    m.update.target_dir = Some("drive_c/Game".to_string());
    m.update.target_dir_base = Some("compatPrefix".to_string());
    assert_eq!(remote_update_target_dir("/d", "g", &m, "/games/g"), "/d/compat-data/g/wine/drive_c/Game");
}

#[test]
fn check_tally_skips_matching_files_and_plans_the_rest() {
    let plan = |path: &str| {
        plan_remote_file("https://cdn.example/g", "/games/g", "/stage", path, entry("0000000a", 1))
            .unwrap()
    };
    let mut tally = UpdateCheck::new();

    tally.record(plan("a.dat"), true);
    tally.record(plan("b.dat"), false);
    tally.record(plan("c.dat"), true);
    tally.record(plan("d.dat"), false);

    assert_eq!(tally.checked_files, 4);
    assert_eq!(tally.skipped_files, 2);
    assert_eq!(tally.planned.len(), 2);
    assert_eq!(tally.planned[0].remote_path, "b.dat");
    assert_eq!(tally.planned[1].remote_path, "d.dat");
    assert_eq!(tally.planned[1].destination, "/games/g/d.dat");
    assert_eq!(
        tally.checked_files,
        tally.skipped_files + tally.planned.len()
    );
}

#[test]
fn updates_apply_only_after_a_clean_staging() {
    assert_eq!(
        update_transition(UpdatePhase::Checking, UpdateEvent::CheckDone { planned: 0 }),
        (UpdatePhase::Finished, UpdateAction::Finish)
    );
    assert_eq!(
        update_transition(UpdatePhase::Checking, UpdateEvent::CheckDone { planned: 3 }),
        (UpdatePhase::Staging, UpdateAction::Stage)
    );
    assert_eq!(
        update_transition(UpdatePhase::Staging, UpdateEvent::StagingDone { all_valid: true }),
        (UpdatePhase::Applying, UpdateAction::Apply)
    );
    assert_eq!(
        update_transition(UpdatePhase::Staging, UpdateEvent::StagingDone { all_valid: false }),
        (UpdatePhase::Failed, UpdateAction::Abort)
    );
    assert_eq!(update_transition(UpdatePhase::Applying, UpdateEvent::ApplyDone), (UpdatePhase::Finished, UpdateAction::Finish));
    assert_eq!(
        update_transition(UpdatePhase::Checking, UpdateEvent::StagingDone { all_valid: true }),
        (UpdatePhase::Failed, UpdateAction::Abort)
    );
    assert_eq!(update_transition(UpdatePhase::Finished, UpdateEvent::ApplyDone), (UpdatePhase::Failed, UpdateAction::Abort));
}
