use mmo_launcher::storage::{
    can_start_process, finalize_session_error, pending_migrations, session_end_reason,
    session_game_id, status_after_wait, stored_duration, ProcessStatus,
};

#[test]
fn migrations_bring_older_schemas_up_to_date() {
    assert_eq!(pending_migrations(0), Ok(vec![1, 2, 3, 4]));
    assert_eq!(pending_migrations(2), Ok(vec![3, 4]));
    assert_eq!(pending_migrations(4), Ok(vec![]));
    assert_eq!(pending_migrations(-3), Ok(vec![1, 2, 3, 4]));
    assert_eq!(
        pending_migrations(7),
        Err("O banco usa schema 7, mais novo que o suportado (4).".to_string())
    );
}

#[test]
fn play_sessions() {
    assert_eq!(session_game_id("  g "), Ok("g".to_string()));
    assert_eq!(
        session_game_id(" "),
        Err("ID do jogo não pode ser vazio ao iniciar uma sessão.".to_string())
    );
    assert_eq!(stored_duration(-5), 0);
    assert_eq!(stored_duration(90), 90);
    assert_eq!(finalize_session_error(3, true), "A sessão de tempo jogado 3 já foi finalizada.");
    assert_eq!(
        finalize_session_error(-2, false),
        "Sessão de tempo jogado -2 não encontrada para finalização."
    );
}

#[test]
fn one_launch_at_a_time_and_end_reasons() {
    assert!(can_start_process(None));
    assert!(!can_start_process(Some(ProcessStatus::Starting)));
    assert!(!can_start_process(Some(ProcessStatus::Running)));
    assert!(can_start_process(Some(ProcessStatus::Exited)));
    assert!(can_start_process(Some(ProcessStatus::Failed)));
    assert_eq!(session_end_reason(true, Some(0)), "normal");
    assert_eq!(session_end_reason(true, Some(1)), "nonzero_exit");
    assert_eq!(session_end_reason(true, None), "nonzero_exit");
    assert_eq!(session_end_reason(false, Some(0)), "wait_error");
    assert_eq!(status_after_wait(true), ProcessStatus::Exited);
    assert_eq!(status_after_wait(false), ProcessStatus::Failed);
}
