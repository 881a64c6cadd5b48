use mmo_launcher::archive::{plan_zip_install_entry, with_execute_bits};
use mmo_launcher::archive::{
    plan_tar_entry, plan_zip_entry, safe_relative_path, supported_formats_message,
    unsupported_format_error, ArchiveFormat, EntryPlan,
};

#[test]
fn parses_supported_aliases() {
    assert_eq!(
        ArchiveFormat::resolve(Some("zip"), "ignored"),
        Ok(ArchiveFormat::Zip)
    );
    assert_eq!(
        ArchiveFormat::resolve(Some("tgz"), "ignored"),
        Ok(ArchiveFormat::TarGz)
    );
    assert_eq!(
        ArchiveFormat::resolve(Some("tbz2"), "ignored"),
        Ok(ArchiveFormat::TarBz2)
    );
}

#[test]
fn infers_compound_extensions_before_simple_extensions() {
    assert_eq!(
        ArchiveFormat::resolve(None, "https://example.test/game.tar.gz?download=1"),
        Ok(ArchiveFormat::TarGz)
    );
    assert_eq!(
        ArchiveFormat::resolve(None, "client.TAR.BZ2#asset"),
        Ok(ArchiveFormat::TarBz2)
    );
}

#[test]
fn rejects_unknown_formats_with_actionable_message() {
    let error = ArchiveFormat::resolve(Some("7z"), "game.7z").unwrap_err();
    assert!(error.contains("7z"));
    assert!(error.contains("Formatos aceitos"));
}

#[test]
fn parse_normalizes_case_dots_and_separators() {
    assert_eq!(ArchiveFormat::parse("  .TAR_GZ "), Some(ArchiveFormat::TarGz));
    assert_eq!(ArchiveFormat::parse("tar-bz2"), Some(ArchiveFormat::TarBz2));
    assert_eq!(ArchiveFormat::parse("bz2"), Some(ArchiveFormat::TarBz2));
    assert_eq!(ArchiveFormat::parse("Zip"), Some(ArchiveFormat::Zip));
    assert_eq!(ArchiveFormat::parse("rar"), None);
}

#[test]
fn canonical_names_parse_back() {
    for format in [
        ArchiveFormat::Zip,
        ArchiveFormat::Tar,
        ArchiveFormat::TarGz,
        ArchiveFormat::TarBz2,
    ] {
        assert_eq!(ArchiveFormat::parse(format.canonical_name()), Some(format));
    }
    assert_eq!(ArchiveFormat::TarGz.canonical_name(), "tar.gz");
}

#[test]
fn blank_explicit_format_falls_back_to_inference() {
    assert_eq!(
        ArchiveFormat::resolve(Some("   "), "client.tgz"),
        Ok(ArchiveFormat::TarGz)
    );
    assert_eq!(ArchiveFormat::infer("pack.tar"), Some(ArchiveFormat::Tar));
    assert_eq!(ArchiveFormat::infer("pack.ZIP?x=1#y"), Some(ArchiveFormat::Zip));
    assert_eq!(ArchiveFormat::infer("pack.tbz"), Some(ArchiveFormat::TarBz2));
    assert_eq!(ArchiveFormat::infer("pack.7z"), None);
}

#[test]
fn uninferable_source_names_the_field_to_set() {
    let error = ArchiveFormat::resolve(None, "download").unwrap_err();
    assert_eq!(
        error,
        format!(
            "Não foi possível inferir o formato do arquivo por `download`. Defina installation.methods[].format. {}",
            supported_formats_message()
        )
    );
}

#[test]
fn unsupported_format_error_text() {
    assert_eq!(
        unsupported_format_error("7z"),
        "Formato de arquivo não suportado: `7z`. Formatos aceitos: zip, tar, tar.gz/tgz e tar.bz2/tbz2."
    );
}

#[test]
fn archive_paths_are_made_relative_and_safe() {
    assert_eq!(
        safe_relative_path("game/bin/app", false),
        Ok(Some("game/bin/app".to_string()))
    );
    assert_eq!(
        safe_relative_path("./game//bin/./app", true),
        Ok(Some("bin/app".to_string()))
    );
    assert_eq!(safe_relative_path("game/", true), Ok(None));
    assert_eq!(safe_relative_path(".", false), Ok(None));
    assert!(safe_relative_path("../escape", false).is_err());
    assert!(safe_relative_path("/etc/passwd", false).is_err());
    assert!(safe_relative_path("a/../../b", false).is_err());
}

#[test]
fn archive_entries_are_planned_by_kind() {
    match plan_tar_entry("top/data/file.bin", false, true, true, "/stage") {
        Ok(EntryPlan::WriteFile(path)) => assert_eq!(path, "/stage/data/file.bin"),
        _ => panic!("expected a file"),
    }
    match plan_tar_entry("top/data", true, false, false, "/stage/") {
        Ok(EntryPlan::CreateDir(path)) => assert_eq!(path, "/stage/top/data"),
        _ => panic!("expected a directory"),
    }
    assert!(matches!(plan_tar_entry("top", true, false, true, "/stage"), Ok(EntryPlan::Skip)));
    let refused = plan_tar_entry("top/link", false, false, false, "/stage");
    assert!(refused.is_err());
    assert!(plan_zip_entry(None, "../evil", false, false, "/stage")
        .err()
        .unwrap()
        .contains("../evil"));
    match plan_zip_entry(Some("a/b.txt"), "a/b.txt", false, false, "/stage") {
        Ok(EntryPlan::WriteFile(path)) => assert_eq!(path, "/stage/a/b.txt"),
        _ => panic!("expected a file"),
    }
}

#[test]
fn zip_install_entries_strip_the_first_component() {
    match plan_zip_install_entry(Some("Game/bin/game.x86_64"), "Game/bin/game.x86_64", false, true, "/s") {
        Ok(EntryPlan::WriteFile(p)) => assert_eq!(p, "/s/bin/game.x86_64"),
        _ => panic!("a file under the top folder is written"),
    }
    assert!(matches!(
        plan_zip_install_entry(Some("Game/"), "Game/", true, true, "/s"),
        Ok(EntryPlan::Skip)
    ));
    match plan_zip_install_entry(Some("data/a.pak"), "data/a.pak", false, false, "/s") {
        Ok(EntryPlan::WriteFile(p)) => assert_eq!(p, "/s/data/a.pak"),
        _ => panic!("a file is written"),
    }
    match plan_zip_install_entry(None, "../evil", false, false, "/s") {
        Err(e) => assert_eq!(e, "O ZIP contém um caminho inseguro: ../evil"),
        _ => panic!("an unsafe name is refused"),
    }
    assert_eq!(with_execute_bits(0o644), 0o755);
    assert_eq!(with_execute_bits(0o700), 0o711);
}

#[test]
fn dressed_canonical_names_parse_back() {
    for format in [
        ArchiveFormat::Zip,
        ArchiveFormat::Tar,
        ArchiveFormat::TarGz,
        ArchiveFormat::TarBz2,
    ] {
        let dressed = format!(
            " .{} ",
            format.canonical_name().to_ascii_uppercase().replace('.', "-")
        );
        assert_eq!(ArchiveFormat::parse(&dressed), Some(format));
    }
}

#[test]
fn inference_ignores_query_fragment_and_case() {
    for source in ["pkg.tar.gz", "pkg.tbz", "pkg.zip", "pkg.tar", "pkg.rar"] {
        let plain = ArchiveFormat::infer(source);
        assert_eq!(ArchiveFormat::infer(&format!("{source}?a=.zip")), plain);
        assert_eq!(ArchiveFormat::infer(&format!("{source}#x.tar")), plain);
        assert_eq!(ArchiveFormat::infer(&source.to_ascii_uppercase()), plain);
    }
    assert_eq!(ArchiveFormat::infer("pkg.tbz"), Some(ArchiveFormat::TarBz2));
}
