use mmo_launcher::settings::{empty_game_settings, requested_runner};

#[test]
fn empty_settings_only_name_the_game() {
    let s = empty_game_settings("ravenquest");
    assert_eq!(s.game_id, "ravenquest");
    assert!(s.runner_override.is_none());
    assert!(s.env_overrides.is_empty());
    assert!(s.created_at.is_none());
    assert!(s.updated_at.is_none());
}

#[test]
fn runner_precedence_follows_settings_then_install_then_manifest() {
    assert_eq!(requested_runner(Some("proton"), Some("wine"), "native"), "proton");
    assert_eq!(requested_runner(None, Some("wine"), "native"), "wine");
    assert_eq!(requested_runner(None, None, "native"), "native");
}
