//! Tests for shell quoting, archive format detection, install-target choice
//! and version parsing.

use bootstrap_repo_cli::textutil::{
    determine_archive_format, determine_install_target, shell_escape_command, ArchiveFormat,
};
use bootstrap_repo_cli::version::{normalize_perl_version, version_from_output, Version};

#[test]
fn test_shell_escape_simple() {
    let cmd = vec!["echo".to_string(), "hello".to_string()];
    assert_eq!(shell_escape_command(&cmd), "echo hello");
}

#[test]
fn test_shell_escape_spaces() {
    let cmd = vec!["echo".to_string(), "hello world".to_string()];
    assert_eq!(shell_escape_command(&cmd), "echo 'hello world'");
}

#[test]
fn test_shell_escape_quotes() {
    let cmd = vec!["echo".to_string(), "hello'world".to_string()];
    assert_eq!(shell_escape_command(&cmd), "echo 'hello'\\''world'");
}

#[test]
fn safe_run_test_shell_escape_simple() {
    let cmd = vec!["echo".to_string(), "hello".to_string()];
    assert_eq!(shell_escape_command(&cmd), "echo hello");
}

#[test]
fn safe_run_test_shell_escape_spaces() {
    let cmd = vec!["echo".to_string(), "hello world".to_string()];
    assert_eq!(shell_escape_command(&cmd), "echo 'hello world'");
}

#[test]
fn safe_run_test_shell_escape_quotes() {
    let cmd = vec!["echo".to_string(), "hello'world".to_string()];
    assert_eq!(shell_escape_command(&cmd), "echo 'hello'\\''world'");
}

#[test]
fn test_shell_escape_dollar() {
    let cmd = vec!["echo".to_string(), "a$b".to_string()];
    assert_eq!(shell_escape_command(&cmd), "echo 'a$b'");
}

#[test]
fn test_determine_archive_format() {
    assert_eq!(
        determine_archive_format("test.tar.gz").unwrap(),
        ArchiveFormat::TarGz
    );
    assert_eq!(
        determine_archive_format("test.tgz").unwrap(),
        ArchiveFormat::TarGz
    );
    assert_eq!(
        determine_archive_format("test.tar.bz2").unwrap(),
        ArchiveFormat::TarBz2
    );
    assert_eq!(
        determine_archive_format("test.zip").unwrap(),
        ArchiveFormat::Zip
    );
    assert!(determine_archive_format("test.txt").is_err());
}

#[test]
fn test_determine_archive_format_case_insensitive() {
    assert_eq!(
        determine_archive_format("TEST.TAR.GZ").unwrap(),
        ArchiveFormat::TarGz
    );
    assert_eq!(
        determine_archive_format("Test.Zip").unwrap(),
        ArchiveFormat::Zip
    );
}

#[test]
fn test_determine_install_target() {
    assert_eq!(
        determine_install_target("/repo", true, true).unwrap(),
        "/repo/tools/repo_cli"
    );
    assert_eq!(
        determine_install_target("/repo", false, true).unwrap(),
        "/repo/tools/repo_cli"
    );
    assert_eq!(determine_install_target("/repo", true, false).unwrap(), "/repo");
    let err = determine_install_target("/repo", false, false).err().unwrap();
    assert!(err.contains("packaging metadata"));
}

#[test]
fn test_parse_version_from_output() {
    assert_eq!(
        version_from_output("black, 25.12.0"),
        Some(Version::new(25, 12, 0))
    );
    assert_eq!(
        version_from_output("ruff 0.14.10"),
        Some(Version::new(0, 14, 10))
    );
    assert_eq!(version_from_output("v1.2.3"), Some(Version::new(1, 2, 3)));
    assert_eq!(
        version_from_output("tool version 2.0.1 (build)"),
        Some(Version::new(2, 0, 1))
    );
    assert_eq!(version_from_output("no version here"), None);
}

#[test]
fn test_normalize_perl_version() {
    assert_eq!(normalize_perl_version("1.156"), "1.156.0");
    assert_eq!(normalize_perl_version("1.2.3"), "1.2.3");
    assert_eq!(normalize_perl_version("5"), "5");
}
