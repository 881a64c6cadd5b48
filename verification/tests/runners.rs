use mmo_launcher::runners::{
    build_runner_command, discover_runners, format_runner_command_for_log, managed_runner_entry,
    path_to_string, resolve_runner, runner_info, steam_library_dirs, steam_proton_runner,
    ResolvedRunner, RunnerCommand,
};

fn resolved(kind: &str, path: Option<&str>) -> ResolvedRunner {
    ResolvedRunner {
        id: format!("system-{kind}"),
        kind: kind.to_string(),
        label: format!("Runner {kind}"),
        source: "PATH".to_string(),
        path: path.map(str::to_string),
    }
}

#[test]
fn native_and_wine_commands() {
    let args = vec!["-windowed".to_string()];
    let native = build_runner_command(&resolved("native", None), "/g/game", "/g", &args).unwrap();
    assert_eq!(native.program, "/g/game");
    assert_eq!(native.args, args);
    assert_eq!(native.working_dir, "/g");
    assert!(native.envs.is_empty() && native.unset_envs.is_empty());

    let wine = build_runner_command(&resolved("wine", Some("/usr/bin/wine")), "/g/game.exe", "/g", &args)
        .unwrap();
    assert_eq!(wine.runner_kind, "wine");
    assert_eq!(wine.program, "/usr/bin/wine");
    assert_eq!(wine.args, vec!["/g/game.exe".to_string(), "-windowed".to_string()]);

    assert_eq!(
        build_runner_command(&resolved("wine", None), "/g/game.exe", "/g", &args).err(),
        Some("Runner Wine 'Runner wine' foi resolvido sem caminho executável.".to_string())
    );
}

#[test]
fn proton_and_unknown_runners_are_refused() {
    let e = build_runner_command(&resolved("proton", None), "/g/x.exe", "/g", &vec![]).err().unwrap();
    assert_eq!(
        e,
        "Runner Proton 'Runner proton' foi resolvido em 'caminho não resolvido', mas a execução Proton ainda precisa de prefixo/STEAM_COMPAT_DATA_PATH gerenciado pelo launcher."
    );
    let u = build_runner_command(&resolved("dosbox", None), "/g/x", "/g", &vec![]).err().unwrap();
    assert_eq!(
        u,
        "Runner 'dosbox' foi resolvido, mas ainda não possui montagem de comando implementada."
    );
}

#[test]
fn commands_are_logged_line_by_line() {
    let c = RunnerCommand {
        runner_kind: "wine".to_string(),
        program: "/usr/bin/wine".to_string(),
        args: vec!["a b".to_string(), "q\"".to_string()],
        working_dir: "/g".to_string(),
        envs: vec![("WINEPREFIX".to_string(), "/p".to_string())],
        unset_envs: vec!["LD_PRELOAD".to_string()],
    };
    assert_eq!(
        format_runner_command_for_log(&c),
        vec![
            "runner_kind=wine".to_string(),
            "program=/usr/bin/wine".to_string(),
            "working_dir=/g".to_string(),
            "args=[\"a b\", \"q\\\"\"]".to_string(),
            "env.WINEPREFIX=/p".to_string(),
            "unset_env.LD_PRELOAD=true".to_string(),
        ]
    );
}

#[test]
fn runner_records_and_steam_folders() {
    assert_eq!(path_to_string("/usr/bin/wine"), "/usr/bin/wine");
    let r = runner_info("id", "wine", "Wine", "available", "PATH", Some("/w"), false, None);
    assert_eq!(r.path.as_deref(), Some("/w"));
    assert!(r.install_hint.is_none());
    assert_eq!(
        steam_library_dirs(Some("/home/ana")),
        vec![
            "/home/ana/.steam/steam".to_string(),
            "/home/ana/.steam/root".to_string(),
            "/home/ana/.local/share/Steam".to_string(),
        ]
    );
    assert!(steam_library_dirs(None).is_empty());
}

#[test]
fn discovered_runners_and_installable_offers() {
    let runners = discover_runners(None, None, None, None, &vec![], &vec![]);
    let ids: Vec<&str> = runners.iter().map(|r| r.id.as_str()).collect();
    assert_eq!(ids, vec!["native-system", "managed-wine-installable", "managed-proton-ge-installable"]);
    assert!(runners[1].installable);

    let steam = vec![steam_proton_runner("Proton 9.0", "/s/Proton 9.0/proton").unwrap()];
    let runners = discover_runners(Some("/usr/bin/wine"), None, None, Some("/usr/bin/umu-run"), &steam, &vec![]);
    let ids: Vec<&str> = runners.iter().map(|r| r.id.as_str()).collect();
    assert_eq!(ids, vec!["native-system", "system-wine", "system-umu-run", "steam-proton-Proton 9.0"]);
}

#[test]
fn steam_and_managed_entries() {
    assert!(steam_proton_runner("Steam Linux Runtime", "/x/proton").is_none());
    let s = steam_proton_runner("GE-PROTON8", "/c/GE-PROTON8/proton").unwrap();
    assert_eq!(s.kind, "proton");
    assert_eq!(s.source, "Steam");
    let p = managed_runner_entry("GE-Proton10-12", Some("/r/GE-Proton10-12/proton"), Some("/r/x/bin/wine")).unwrap();
    assert_eq!(p.id, "managed-proton-GE-Proton10-12");
    let w = managed_runner_entry("wine-9", None, Some("/r/wine-9/bin/wine")).unwrap();
    assert_eq!(w.id, "managed-wine-wine-9");
    assert_eq!(w.kind, "wine");
    assert!(managed_runner_entry("empty", None, None).is_none());
}

#[test]
fn requests_resolve_to_available_runners() {
    let runners = discover_runners(Some("/usr/bin/wine"), None, None, None, &vec![], &vec![]);
    let r = resolve_runner(&runners, "  WINE ").unwrap();
    assert_eq!(r.id, "system-wine");
    assert_eq!(r.path.as_deref(), Some("/usr/bin/wine"));
    assert_eq!(
        resolve_runner(&runners, "   ").err(),
        Some("Runner solicitado não pode ser vazio.".to_string())
    );
    assert_eq!(
        resolve_runner(&runners, "proton").err(),
        Some("Runner 'proton' não está disponível no sistema. Opção preparada: Proton-GE gerenciado pelo launcher. Opção planejada para baixar/registrar Proton-GE em uma pasta controlada pelo launcher.".to_string())
    );
    assert_eq!(
        resolve_runner(&runners, "dosbox").err(),
        Some("Nenhum runner compatível com 'dosbox' foi encontrado. Verifique o manifesto ou configure um runner suportado.".to_string())
    );
}

#[test]
fn an_exact_runner_id_selects_that_runner() {
    let runners = discover_runners(
        None,
        None,
        Some("/usr/bin/proton"),
        Some("/usr/bin/umu-run"),
        &vec![],
        &vec![],
    );
    let by_kind = resolve_runner(&runners, "proton").unwrap();
    assert_eq!(by_kind.id, "system-proton");
    let by_id = resolve_runner(&runners, " system-umu-run ").unwrap();
    assert_eq!(by_id.id, "system-umu-run");
    assert_eq!(by_id.kind, "proton");
    assert_eq!(by_id.path.as_deref(), Some("/usr/bin/umu-run"));
    assert!(resolve_runner(&runners, "managed-wine-installable").is_err());
}
