use mmo_launcher::catalog::{
    cached_manifest_path, catalog_manifest_url, check_body_size, check_content_length,
    embedded_games_error, enabled_entries, finish_cached_games, finish_manifests,
    no_catalog_error, push_manifest, sort_games_by_name, status_remote_url, CatalogGameEntry,
    CatalogIndex,
};
use mmo_launcher::manifest::{
    GameManifest, InstallMethod, InstallationConfig, LaunchConfig, ManifestAssets, UpdateConfig,
    VerificationConfig,
};

fn manifest() -> GameManifest {
    GameManifest {
        schema_version: 1,
        id: "game".to_string(),
        name: "Game".to_string(),
        description: String::new(),
        assets: ManifestAssets {
            banner: "banner.png".to_string(),
            icon: "icon.png".to_string(),
        },
        installation: InstallationConfig { methods: vec![] },
        launch: LaunchConfig {
            runner: "wine".to_string(),
            executable: Some("bin/game.exe".to_string()),
            args: vec![],
            env: vec![],
            unset_env: vec![],
            battl_eye: None,
        },
        update: UpdateConfig {
            strategy: "none".to_string(),
            runner: None,
            compat_prefix: None,
            executable: None,
            args: vec![],
            path_base: None,
            working_dir: None,
            working_dir_base: None,
            env: vec![],
            unset_env: vec![],
            manifest_url: None,
            manifest_format: None,
            target_dir: None,
            target_dir_base: None,
            max_concurrent_downloads: None,
        },
        verification: VerificationConfig {
            required_files: vec![],
            checksums: vec![],
        },
    }
}

fn method(kind: &str) -> InstallMethod {
    InstallMethod {
        kind: kind.to_string(),
        label: kind.to_string(),
        url: None,
        runner: None,
        compat_prefix: None,
        install_path: None,
        launch_after_install: None,
        format: None,
        strip_top_level_dir: false,
        headers: vec![],
    }
}

fn game(id: &str, name: &str) -> GameManifest {
    let mut m = manifest();
    m.id = id.to_string();
    m.name = name.to_string();
    m
}

fn ids(games: &[GameManifest]) -> Vec<&str> {
    games.iter().map(|g| g.id.as_str()).collect()
}

#[test]
fn games_are_sorted_by_name_keeping_ties_in_order() {
    let sorted = sort_games_by_name(vec![
        game("c", "Zeta"),
        game("a", "Alpha"),
        game("b1", "Beta"),
        game("b2", "Beta"),
        game("x", "alpha"),
    ]);
    assert_eq!(ids(&sorted), vec!["a", "b1", "b2", "c", "x"]);
    assert!(sort_games_by_name(vec![]).is_empty());
}

#[test]
fn manifest_folders_refuse_duplicates_and_emptiness() {
    let mut games = vec![];
    assert_eq!(push_manifest(&mut games, game("a", "A"), "/m"), Ok(()));
    assert_eq!(
        push_manifest(&mut games, game("a", "Other"), "/m"),
        Err("Manifesto duplicado para a em /m.".to_string())
    );
    assert_eq!(games.len(), 1);
    match finish_manifests("/m", vec![]) {
        Err(e) => assert_eq!(e, "Nenhum manifesto encontrado em /m."),
        Ok(_) => panic!("an empty folder is refused"),
    }
    let done = finish_manifests("/m", vec![game("b", "B"), game("a", "A")]).ok().unwrap();
    assert_eq!(ids(&done), vec!["a", "b"]);
    match finish_cached_games(vec![]) {
        Err(e) => assert_eq!(e, "O catálogo remoto em cache não possui jogos habilitados."),
        Ok(_) => panic!("no enabled game is refused"),
    }
}

#[test]
fn download_sizes_are_limited() {
    assert_eq!(check_content_length(None, 10, "catálogo"), Ok(()));
    assert_eq!(check_content_length(Some(10), 10, "catálogo"), Ok(()));
    assert_eq!(
        check_content_length(Some(11), 10, "catálogo"),
        Err("catálogo excede o limite de 10 bytes.".to_string())
    );
    assert_eq!(
        check_body_size(600_000, 524_288, "manifesto de x"),
        Err("manifesto de x excede o limite de 524288 bytes.".to_string())
    );
    assert_eq!(check_body_size(5, 5, "x"), Ok(()));
}

#[test]
fn manifest_urls_must_stay_https() {
    let entry = CatalogGameEntry {
        id: "g".to_string(),
        manifest: "manifests/g.json".to_string(),
        enabled: true,
    };
    assert_eq!(
        catalog_manifest_url("https://c.test/catalog/catalog.json", &entry),
        Ok("https://c.test/catalog/manifests/g.json".to_string())
    );
    let http = CatalogGameEntry {
        id: "g".to_string(),
        manifest: "http://c.test/g.json".to_string(),
        enabled: true,
    };
    assert_eq!(
        catalog_manifest_url("https://c.test/catalog.json", &http),
        Err("Manifesto remoto de g precisa usar HTTPS: http://c.test/g.json".to_string())
    );
}

#[test]
fn cached_catalog_helpers() {
    let index = CatalogIndex {
        schema_version: 1,
        catalog_version: "1".to_string(),
        generated_at: "now".to_string(),
        games: vec![
            CatalogGameEntry { id: "a".to_string(), manifest: "a.json".to_string(), enabled: false },
            CatalogGameEntry { id: "b".to_string(), manifest: "b.json".to_string(), enabled: true },
            CatalogGameEntry { id: "c".to_string(), manifest: "c.json".to_string(), enabled: true },
        ],
    };
    assert_eq!(enabled_entries(&index), vec![1, 2]);
    assert_eq!(cached_manifest_path("/cat/active", "b"), "/cat/active/manifests/b.json");
    assert_eq!(
        no_catalog_error("x", "y"),
        "Não foi possível carregar catálogo remoto nem fallback embutido. Cache: x Fallback: y"
    );
    assert_eq!(
        embedded_games_error(&vec![]),
        "Nenhum diretório de manifestos embutidos foi encontrado."
    );
    assert_eq!(embedded_games_error(&vec!["a.".to_string(), "b.".to_string()]), "a. b.");
    assert_eq!(status_remote_url("", "https://default"), "https://default");
    assert_eq!(status_remote_url("https://x", "https://default"), "https://x");
}
