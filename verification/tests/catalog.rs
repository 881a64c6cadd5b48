use mmo_launcher::catalog::{
    is_safe_id, is_safe_relative_path, now_timestamp, resolve_remote_asset_url,
    timestamp_from_seconds, validate_catalog_index, validate_https_url,
    validate_optional_relative_path, CatalogGameEntry, CatalogIndex,
};

fn entry(id: &str, manifest: &str, enabled: bool) -> CatalogGameEntry {
    CatalogGameEntry {
        id: id.to_string(),
        manifest: manifest.to_string(),
        enabled,
    }
}

fn index(games: Vec<CatalogGameEntry>) -> CatalogIndex {
    CatalogIndex {
        schema_version: 1,
        catalog_version: "0.1.0".to_string(),
        generated_at: "2026-07-23T00:00:00Z".to_string(),
        games,
    }
}

#[test]
fn catalog_rejects_duplicate_ids() {
    let index = CatalogIndex {
        schema_version: 1,
        catalog_version: "0.1.0".to_string(),
        generated_at: "2026-07-23T00:00:00Z".to_string(),
        games: vec![
            CatalogGameEntry {
                id: "medivia".to_string(),
                manifest: "manifests/medivia.json".to_string(),
                enabled: true,
            },
            CatalogGameEntry {
                id: "medivia".to_string(),
                manifest: "manifests/other.json".to_string(),
                enabled: true,
            },
        ],
    };

    assert!(validate_catalog_index(&index).is_err());
}

#[test]
fn catalog_paths_reject_traversal_and_absolute_paths() {
    assert!(is_safe_relative_path("manifests/medivia.json"));
    assert!(!is_safe_relative_path("../medivia.json"));
    assert!(!is_safe_relative_path("/tmp/medivia.json"));
    assert!(!is_safe_relative_path("C:\\medivia.json"));
}

#[test]
fn catalog_ids_accept_only_stable_safe_characters() {
    assert!(is_safe_id("grand-line-adventures"));
    assert!(is_safe_id("game_2"));
    assert!(!is_safe_id("Grand Line Adventures"));
    assert!(!is_safe_id("../game"));
}

#[test]
fn catalog_index_errors_name_the_first_broken_rule() {
    let mut wrong_schema = index(vec![entry("a", "manifests/a.json", true)]);
    wrong_schema.schema_version = 2;
    assert_eq!(
        validate_catalog_index(&wrong_schema),
        Err("Versão de schema do catálogo não suportada: 2. O launcher suporta 1.".to_string())
    );
    let mut blank_version = index(vec![]);
    blank_version.catalog_version = "  ".to_string();
    assert_eq!(
        validate_catalog_index(&blank_version),
        Err("O catálogo remoto não define catalogVersion.".to_string())
    );
    let too_many = index((0..501).map(|i| entry(&format!("g{i}"), "m.json", true)).collect());
    assert_eq!(
        validate_catalog_index(&too_many),
        Err("O catálogo remoto excede o limite de 500 jogos.".to_string())
    );
    assert_eq!(
        validate_catalog_index(&index(vec![entry("Bad", "m.json", true)])),
        Err("ID inválido no catálogo remoto: Bad".to_string())
    );
    assert_eq!(
        validate_catalog_index(&index(vec![
            entry("a", "a.json", true),
            entry("a", "b.json", false)
        ])),
        Err("ID duplicado no catálogo remoto: a".to_string())
    );
    assert_eq!(
        validate_catalog_index(&index(vec![entry("a", "../a.json", true)])),
        Err("Caminho de manifesto inseguro para a: ../a.json".to_string())
    );
    assert!(validate_catalog_index(&index(vec![entry("a", "../a.json", false)])).is_ok());
    assert!(validate_catalog_index(&index(vec![
        entry("medivia", "manifests/medivia.json", true),
        entry("ravenquest", "./manifests/ravenquest.json", true),
    ]))
    .is_ok());
}

#[test]
fn safe_paths_edge_cases() {
    assert!(is_safe_relative_path("  manifests/a.json  "));
    assert!(is_safe_relative_path("./a/./b"));
    assert!(!is_safe_relative_path("   "));
    assert!(!is_safe_relative_path("a/../b"));
    assert!(!is_safe_relative_path("a\0b"));
    assert!(!is_safe_relative_path("http://x"));
    assert!(!is_safe_id(""));
    assert!(!is_safe_id(&"a".repeat(81)));
    assert!(is_safe_id(&"a".repeat(80)));
}

#[test]
fn urls_must_be_https() {
    assert!(validate_https_url("https://example.com/a.zip", "f").is_ok());
    assert_eq!(
        validate_https_url("http://example.com/a.zip", "installation.methods[].url"),
        Err("A URL de installation.methods[].url precisa usar HTTPS: http://example.com/a.zip"
            .to_string())
    );
    let error = validate_https_url("not a url", "update.manifestUrl").unwrap_err();
    assert!(error.starts_with("URL inválida em update.manifestUrl: not a url ("));
    assert!(validate_optional_relative_path(None, "x").is_ok());
    assert_eq!(
        validate_optional_relative_path(Some("/abs"), "launch.executable"),
        Err("Caminho remoto inseguro em launch.executable: /abs".to_string())
    );
}

#[test]
fn assets_resolve_against_the_catalog_url() {
    let base = "https://raw.githubusercontent.com/org/catalog/main/catalog.json";
    assert_eq!(
        resolve_remote_asset_url(base, "assets/banner.png", "assets.banner"),
        Ok("https://raw.githubusercontent.com/org/catalog/main/assets/banner.png".to_string())
    );
    assert_eq!(
        resolve_remote_asset_url(base, "/assets/icon.png", "assets.icon"),
        Ok("https://raw.githubusercontent.com/org/catalog/main/assets/icon.png".to_string())
    );
    assert_eq!(
        resolve_remote_asset_url(base, " https://cdn.example.com/x.png ", "assets.icon"),
        Ok("https://cdn.example.com/x.png".to_string())
    );
    assert_eq!(
        resolve_remote_asset_url(base, "http://cdn.example.com/x.png", "assets.icon"),
        Err("Asset remoto precisa usar HTTPS em assets.icon: http://cdn.example.com/x.png"
            .to_string())
    );
    assert_eq!(
        resolve_remote_asset_url(base, "../x.png", "assets.icon"),
        Err("Caminho de asset inseguro em assets.icon: ../x.png".to_string())
    );
    assert_eq!(
        resolve_remote_asset_url(base, "  ", "assets.icon"),
        Err("Asset vazio em assets.icon.".to_string())
    );
}

#[test]
fn timestamps_saturate_and_default_to_zero() {
    assert_eq!(timestamp_from_seconds(None), 0);
    assert_eq!(timestamp_from_seconds(Some(1_700_000_000)), 1_700_000_000);
    assert_eq!(timestamp_from_seconds(Some(u64::MAX)), i64::MAX);
    assert!(now_timestamp() > 1_600_000_000);
}

