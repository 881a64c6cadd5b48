use mmo_launcher::progress::{
    parse_latest_update_progress_from_log, progress_message_from_log,
    update_stage_label_from_stage, update_status_from_stage,
};

#[test]
fn stage_labels_and_statuses() {
    assert_eq!(update_stage_label_from_stage("start"), "Preparar update");
    assert_eq!(update_stage_label_from_stage("checkingFiles"), "Verificar arquivos locais");
    assert_eq!(update_stage_label_from_stage("done"), "Concluído");
    assert_eq!(update_stage_label_from_stage("customStage"), "customStage");
    assert_eq!(update_status_from_stage("decodeRemoteManifest"), "manifest");
    assert_eq!(update_status_from_stage("planUpdate"), "checking");
    assert_eq!(update_status_from_stage("prepareStagingDir"), "downloading");
    assert_eq!(update_status_from_stage("validateStagedFiles"), "validating");
    assert_eq!(update_status_from_stage("applyDownloadedFile"), "applying");
    assert_eq!(update_status_from_stage("done"), "done");
    assert_eq!(update_status_from_stage("openDatabase"), "preparing");
}

#[test]
fn progress_messages() {
    assert_eq!(progress_message_from_log("done", "x", 0, 0, Some("f")), "Update concluído.");
    assert_eq!(progress_message_from_log("downloading", "x", 0, 0, Some("a/b.pak")), "Baixando a/b.pak");
    assert_eq!(
        progress_message_from_log("downloading", "x", 0, 0, None),
        "Baixando arquivos divergentes..."
    );
    assert_eq!(progress_message_from_log("validating", "x", 0, 0, None), "Validando staging do update...");
    assert_eq!(progress_message_from_log("applying", "x", 0, 0, Some("c")), "Aplicando c");
    assert_eq!(
        progress_message_from_log("checking", "x", 12, 340, None),
        "Verificando 12 de 340 arquivos..."
    );
    assert_eq!(progress_message_from_log("checking", "Verificar", 12, 0, None), "Verificar...");
    assert_eq!(progress_message_from_log("error", "Baixar", 1, 2, None), "Baixar...");
}

#[test]
fn logs_without_remote_update_give_nothing() {
    assert!(parse_latest_update_progress_from_log("g", "/l", "").is_none());
    assert!(parse_latest_update_progress_from_log("g", "/l", "action=launch\nprocess_pid=1\n").is_none());
    assert!(parse_latest_update_progress_from_log("g", "/l", "checked_files=3\nno equals here").is_none());
}

#[test]
fn reads_the_latest_remote_update() {
    let log = "\n=== launcher attempt 1 ===\naction=run_game_remote_update\nremote_update_stage=checkingFiles\nremote_update_stage_label=Verificar arquivos locais\nremote_file_count=340\nremote_update_progress=checking\nchecked_files=100\nupdated_files=0\ncurrent_file=data/a.pak\r\nupdate_target_dir=/games/x\n";
    let p = parse_latest_update_progress_from_log("ravenquest", "/logs/runner.log", log).unwrap();
    assert_eq!(p.game_id, "ravenquest");
    assert_eq!(p.status, "checking");
    assert_eq!(p.stage.as_deref(), Some("checkingFiles"));
    assert_eq!(p.stage_label.as_deref(), Some("Verificar arquivos locais"));
    assert_eq!(p.checked_files, 100);
    assert_eq!(p.updated_files, 0);
    assert_eq!(p.total_files, 340);
    assert_eq!(p.current_file.as_deref(), Some("data/a.pak"));
    assert_eq!(p.target_dir.as_deref(), Some("/games/x"));
    assert_eq!(p.log_path.as_deref(), Some("/logs/runner.log"));
    assert_eq!(p.message, "Verificando 100 de 340 arquivos...");
    assert!(p.error.is_none());
}

#[test]
fn a_new_update_resets_the_state() {
    let log = "action=run_game_remote_update\nchecked_files=5\nerror=boom\naction=run_game_remote_update\nremote_update_stage=downloadRemoteManifest\n";
    let p = parse_latest_update_progress_from_log("g", "l", log).unwrap();
    assert_eq!(p.status, "manifest");
    assert_eq!(p.stage.as_deref(), Some("downloadRemoteManifest"));
    assert_eq!(p.stage_label.as_deref(), Some("Baixar manifesto remoto"));
    assert_eq!(p.checked_files, 0);
    assert!(p.error.is_none());
    assert_eq!(p.message, "Baixar manifesto remoto...");
}

#[test]
fn finished_errors_and_bad_counts() {
    let done = parse_latest_update_progress_from_log(
        "g",
        "l",
        "remote_update_progress=downloading\ncurrent_file=x.bin\nremote_update_finished=true\n",
    )
    .unwrap();
    assert_eq!(done.status, "done");
    assert_eq!(done.stage.as_deref(), Some("done"));
    assert_eq!(done.stage_label.as_deref(), Some("Concluído"));
    assert_eq!(done.message, "Update concluído.");

    let failed = parse_latest_update_progress_from_log(
        "g",
        "l",
        "remote_update_stage=applyStagedFiles\nupdated_files=7\nupdated_files=not-a-number\nupdated_files=+8x\nerror=disk=full",
    )
    .unwrap();
    assert_eq!(failed.status, "error");
    assert_eq!(failed.updated_files, 7);
    assert_eq!(failed.error.as_deref(), Some("disk=full"));
    assert_eq!(failed.message, "Aplicar arquivos no jogo...");

    let plus = parse_latest_update_progress_from_log("g", "l", "remote_update_progress=x\ntotal_files=+12").unwrap();
    assert_eq!(plus.total_files, 12);
    assert_eq!(plus.status, "x");
    assert_eq!(plus.stage.as_deref(), Some("start"));
}
