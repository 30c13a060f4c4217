use boiler::download::filename_from_headers_or_url;
use boiler::extract::archive_kind;
use boiler::extract::ArchiveKind;

#[test]
fn archive_kinds_by_suffix() {
    assert_eq!(archive_kind("pkg.zip"), Some(ArchiveKind::Zip));
    assert_eq!(archive_kind("pkg.tar.gz"), Some(ArchiveKind::TarGz));
    assert_eq!(archive_kind("pkg.tgz"), Some(ArchiveKind::TarGz));
    assert_eq!(archive_kind("pkg.tar"), Some(ArchiveKind::Tar));
}

#[test]
fn archive_kind_is_case_insensitive() {
    assert_eq!(archive_kind("PKG.ZIP"), Some(ArchiveKind::Zip));
    assert_eq!(archive_kind("Pkg.Tar.Gz"), Some(ArchiveKind::TarGz));
    assert_eq!(archive_kind("PKG.TGZ"), Some(ArchiveKind::TarGz));
}

#[test]
fn unsupported_suffixes_are_rejected() {
    assert_eq!(archive_kind("pkg.rar"), None);
    assert_eq!(archive_kind("pkg.tar.bz2"), None);
    assert_eq!(archive_kind("pkg"), None);
    assert_eq!(archive_kind(""), None);
}

#[test]
fn filename_from_content_disposition() {
    let cd = Some("attachment; filename=\"game-1.0.zip\"");
    assert_eq!(filename_from_headers_or_url(cd, "https://host/x"), "game-1.0.zip");
}

#[test]
fn filename_from_unquoted_content_disposition() {
    let cd = Some("attachment; filename=game.tar.gz ");
    assert_eq!(filename_from_headers_or_url(cd, "https://host/x"), "game.tar.gz");
}

#[test]
fn filename_falls_back_to_url_segment() {
    assert_eq!(
        filename_from_headers_or_url(None, "https://host/a/b/pkg.zip"),
        "pkg.zip"
    );
    let cd = Some("attachment");
    assert_eq!(filename_from_headers_or_url(cd, "https://host/a/asset.tar"), "asset.tar");
}

#[test]
fn empty_header_name_falls_back_to_url() {
    let cd = Some("attachment; filename=\"\"");
    assert_eq!(filename_from_headers_or_url(cd, "https://host/a/asset.tar"), "asset.tar");
}

#[test]
fn filename_falls_back_to_fixed_name() {
    assert_eq!(filename_from_headers_or_url(None, "mailto:someone"), "download.bin");
    assert_eq!(filename_from_headers_or_url(None, "not a url"), "download.bin");
}
