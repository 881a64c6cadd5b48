use mmo_launcher::download::{
    download_attempt_step, filename_from_url, sanitize_path_segment, temporary_download_path,
    DownloadStep,
};

#[test]
fn path_segments_are_sanitised() {
    assert_eq!(sanitize_path_segment("Raven Quest/1:2"), "Raven_Quest_1_2");
    assert_eq!(sanitize_path_segment("ok-1.0_x"), "ok-1.0_x");
    assert_eq!(sanitize_path_segment("é"), "_");
}

#[test]
fn file_names_come_from_the_last_url_segment() {
    assert_eq!(filename_from_url("https://x.test/files/Setup Game.exe?token=1"), "Setup_Game.exe");
    assert_eq!(filename_from_url("https://x.test/files/"), "installer.exe");
    assert_eq!(filename_from_url("https://x.test/files/?a=b"), "installer.exe");
    assert_eq!(filename_from_url("setup.msi"), "setup.msi");
}

#[test]
fn downloads_are_written_beside_their_destination() {
    assert_eq!(temporary_download_path("/tmp/game/setup.exe"), "/tmp/game/setup.exe.download");
    assert_eq!(temporary_download_path("setup.exe"), "setup.exe.download");
    assert_eq!(temporary_download_path("/"), "/download.tmp");
    assert_eq!(temporary_download_path("/tmp/.."), "/tmp/../download.tmp");
}

#[test]
fn failed_downloads_are_retried_twice() {
    assert!(matches!(download_attempt_step("u", 1, Ok(())), DownloadStep::Done));
    assert!(matches!(
        download_attempt_step("u", 1, Err("e".to_string())),
        DownloadStep::Retry { next_attempt: 2, delay_seconds: 2 }
    ));
    assert!(matches!(
        download_attempt_step("u", 2, Err("e".to_string())),
        DownloadStep::Retry { next_attempt: 3, delay_seconds: 4 }
    ));
    match download_attempt_step("https://x.test/a", 3, Err("timeout".to_string())) {
        DownloadStep::Fail(m) => assert_eq!(m, "Falha ao baixar https://x.test/a após 3 tentativa(s): timeout"),
        _ => panic!("the last try gives up"),
    }
}
