use tree_parser::format_duration;
use tree_parser::format_file_size;
use tree_parser::get_file_extension;
use tree_parser::get_file_name_without_extension;
use tree_parser::is_hidden_file;
use tree_parser::is_supported_extension;
use tree_parser::get_supported_extensions;
use tree_parser::matches_ignore_patterns;
use tree_parser::sanitize_path;

#[test]
fn test_format_file_size() {
    assert_eq!(format_file_size(512), "512 B");
    assert_eq!(format_file_size(1024), "1.00 KB");
    assert_eq!(format_file_size(1536), "1.50 KB");
    assert_eq!(format_file_size(1048576), "1.00 MB");
}

#[test]
fn test_format_file_size_edges() {
    assert_eq!(format_file_size(0), "0 B");
    assert_eq!(format_file_size(1023), "1023 B");
    assert_eq!(format_file_size(1024 * 1024 * 1024), "1.00 GB");
    assert_eq!(format_file_size(1024 * 1024 * 1024 * 1024), "1.00 TB");
    assert_eq!(format_file_size(1536 * 1024), "1.50 MB");
}

#[test]
fn test_format_duration() {
    assert_eq!(format_duration(500), "500ms");
    assert_eq!(format_duration(1500), "1.50s");
    assert_eq!(format_duration(65000), "1m 5.00s");
}

#[test]
fn test_format_duration_edges() {
    assert_eq!(format_duration(0), "0ms");
    assert_eq!(format_duration(999), "999ms");
    assert_eq!(format_duration(1000), "1.00s");
    assert_eq!(format_duration(120000), "2m 0.00s");
}

#[test]
fn test_file_extension() {
    assert_eq!(get_file_extension("test.py"), Some("py".to_string()));
    assert_eq!(get_file_extension("test.RS"), Some("rs".to_string()));
    assert_eq!(get_file_extension("test"), None);
}

#[test]
fn test_file_extension_paths() {
    assert_eq!(get_file_extension("path/to/file.js"), Some("js".to_string()));
    assert_eq!(get_file_extension(".bashrc"), None);
    assert_eq!(get_file_extension("archive.tar.gz"), Some("gz".to_string()));
}

#[test]
fn test_file_name_without_extension() {
    assert_eq!(
        get_file_name_without_extension("test.py"),
        Some("test".to_string())
    );
    assert_eq!(
        get_file_name_without_extension("path/to/file.rs"),
        Some("file".to_string())
    );
    assert_eq!(
        get_file_name_without_extension("no_extension"),
        Some("no_extension".to_string())
    );
}

#[test]
fn test_supported_extensions() {
    assert!(is_supported_extension("py"));
    assert!(is_supported_extension("rs"));
    assert!(is_supported_extension("js"));
    assert!(!is_supported_extension("xyz"));
}

#[test]
fn test_supported_extension_list() {
    let extensions = get_supported_extensions();
    assert!(extensions.contains(&"py".to_string()));
    assert!(extensions.contains(&"rs".to_string()));
    assert!(extensions.contains(&"toml".to_string()));
    assert!(!extensions.contains(&"exe".to_string()));
}

#[test]
fn test_hidden_files() {
    assert!(is_hidden_file(".gitignore"));
    assert!(is_hidden_file("dir/.hidden"));
    assert!(!is_hidden_file("visible.rs"));
    assert!(!is_hidden_file("dir.with.dots/file"));
}

#[test]
fn test_ignore_patterns() {
    let patterns = vec!["target".to_string(), "node_modules".to_string()];
    assert!(matches_ignore_patterns("src/target/debug", &patterns));
    assert!(matches_ignore_patterns("frontend/node_modules/react", &patterns));
    assert!(!matches_ignore_patterns("src/main.rs", &patterns));
    assert!(!matches_ignore_patterns("anything", &[]));
}

#[test]
fn test_path_probes() {
    assert!(!tree_parser::is_valid_file_path("definitely/not/a/real/path.xyz"));
    assert!(!tree_parser::is_valid_directory_path("definitely/not/a/real/dir"));
    assert!(tree_parser::is_valid_directory_path("."));
    assert!(tree_parser::is_valid_file_path("."));
}

#[test]
fn test_sanitize_path() {
    assert_eq!(sanitize_path("../../../etc/passwd"), "etc/passwd");
    assert_eq!(sanitize_path("src//main.rs"), "src/main.rs");
    assert_eq!(sanitize_path("/absolute/path"), "absolute/path");
    assert_eq!(sanitize_path("plain/path.rs"), "plain/path.rs");
}
