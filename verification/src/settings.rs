//! A game's local settings and the runner a launch asks for.
use vstd::prelude::*;
use crate::text::{opt_str, owned};

verus! {

/// What the user set for one game on this machine.
#[derive(Clone, Debug)]
pub struct GameSettings {
    pub game_id: String,
    pub runner_override: Option<String>,
    pub env_overrides: Vec<(String, String)>,
    pub created_at: Option<String>,
    pub updated_at: Option<String>,
}

/// The settings of a game the user has not configured.
pub fn empty_game_settings(game_id: &str) -> (r: GameSettings)
    ensures
        r.game_id@ == game_id@,
        r.runner_override is None,
        r.env_overrides@.len() == 0,
        r.created_at is None,
        r.updated_at is None,
{
    GameSettings {
        game_id: owned(game_id),
        runner_override: None,
        env_overrides: Vec::new(),
        created_at: None,
        updated_at: None,
    }
}

/// The runner a launch asks for: the game's setting, else the override
/// stored with the installation, else the manifest's runner.
pub open spec fn runner_request(
    settings_override: Option<Seq<char>>,
    install_override: Option<Seq<char>>,
    launch_runner: Seq<char>,
) -> Seq<char> {
    match settings_override {
        Some(r) => r,
        None => match install_override {
            Some(r) => r,
            None => launch_runner,
        },
    }
}

/// The runner a launch asks for.
pub fn requested_runner(
    settings_override: Option<&str>,
    install_override: Option<&str>,
    launch_runner: &str,
) -> (r: String)
    ensures
        r@ == runner_request(opt_str(settings_override), opt_str(install_override), launch_runner@),
{
    match settings_override {
        Some(r) => owned(r),
        None => match install_override {
            Some(r) => owned(r),
            None => owned(launch_runner),
        },
    }
}

} // verus!
