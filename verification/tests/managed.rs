use mmo_launcher::managed::{
    check_download_size, check_runner_removal, managed_runner_release, release_package_index,
    release_version_segment, runner_id, safe_segment, validate_archive_path,
};

#[test]
fn rejects_unsafe_archive_paths() {
    assert!(validate_archive_path("GE-Proton/proton").is_ok());
    assert!(validate_archive_path("../escape").is_err());
    assert!(validate_archive_path("/absolute/path").is_err());
}

#[test]
fn creates_stable_runner_id() {
    assert_eq!(runner_id("GE-Proton10-12"), "managed-proton-ge-ge-proton10-12");
}

#[test]
fn unsafe_package_paths_are_named_in_the_error() {
    assert_eq!(
        validate_archive_path("a/../../b"),
        Err("O pacote contém um caminho inseguro: a/../../b".to_string())
    );
    assert!(validate_archive_path("./GE-Proton/files/bin").is_ok());
}

#[test]
fn safe_segments_replace_and_trim() {
    assert_eq!(safe_segment("GE Proton/10:12"), "GE-Proton-10-12");
    assert_eq!(safe_segment("--v1.0_x--"), "v1.0_x");
    assert_eq!(safe_segment("///"), "");
    assert_eq!(safe_segment("ação"), "a--o");
}

#[test]
fn release_versions_need_a_safe_folder() {
    assert_eq!(release_version_segment("GE-Proton10-12"), Ok("GE-Proton10-12".to_string()));
    assert_eq!(
        release_version_segment("***"),
        Err("A versão retornada pelo GitHub não gera um diretório seguro.".to_string())
    );
}

#[test]
fn the_first_tar_gz_asset_is_the_package() {
    let names = vec![
        "GE-Proton10-12.sha512sum".to_string(),
        "GE-Proton10-12.tar.gz".to_string(),
        "other.tar.gz".to_string(),
    ];
    assert_eq!(release_package_index(&names), Ok(1));
    assert_eq!(
        release_package_index(&vec!["a.zip".to_string()]),
        Err("A release mais recente do Proton-GE não possui pacote .tar.gz.".to_string())
    );
}

#[test]
fn release_records_fall_back_to_the_tag() {
    let r = managed_runner_release("GE-Proton10-12", None, "https://h", "https://d", 42, false);
    assert_eq!(r.name, "GE-Proton10-12");
    assert_eq!(r.runner_id, "managed-proton-ge-ge-proton10-12");
    assert_eq!(r.size, 42);
    let named = managed_runner_release("v2", Some("Proton v2"), "h", "d", 0, true);
    assert_eq!(named.name, "Proton v2");
    assert!(named.installed);
}

#[test]
fn incomplete_downloads_are_refused() {
    assert_eq!(check_download_size(0, 7), Ok(()));
    assert_eq!(check_download_size(10, 10), Ok(()));
    assert_eq!(
        check_download_size(10, 7),
        Err("Download incompleto: esperado 10 bytes, recebido 7.".to_string())
    );
}

#[test]
fn only_launcher_runners_inside_the_root_are_removed() {
    assert_eq!(check_runner_removal("Launcher", "/data/runners", "/data/runners/proton-ge/v1"), Ok(()));
    assert_eq!(
        check_runner_removal("Steam", "/data/runners", "/data/runners/x"),
        Err("Somente runners instalados pelo launcher podem ser removidos.".to_string())
    );
    let outside = Err("O runner está fora da pasta gerenciada e não pode ser removido.".to_string());
    assert_eq!(check_runner_removal("Launcher", "/data/runners", "/data/runners"), outside);
    assert_eq!(check_runner_removal("Launcher", "/data/runners", "/data/other/x"), outside);
    assert_eq!(check_runner_removal("Launcher", "/data/runners", "/data/runners2/x"), outside);
}
