use tree_parser::Error;
use tree_parser::ErrorType;
use tree_parser::FileError;
use tree_parser::FileFilter;
use tree_parser::Language;
use tree_parser::ParseOptions;
use tree_parser::ParsedFile;
use tree_parser::ParserPool;
use tree_parser::assemble_project;
use tree_parser::compute_chunk_size;
use tree_parser::file_passes_filter;
use tree_parser::process_file;
use tree_parser::read_failed_error;
use tree_parser::should_include_file;

#[test]
fn test_process_file_detectable_and_undetectable() {
    let mut pool = ParserPool::new();
    let options = ParseOptions::default();

    let mut files: Vec<ParsedFile> = Vec::new();
    let mut errors: Vec<FileError> = Vec::new();

    match process_file(&mut pool, "ok.py", "x = 1\n", &options, false) {
        Ok(f) => files.push(f),
        Err(e) => errors.push(e),
    }
    match process_file(&mut pool, "strange.xyz", "x = 1\n", &options, false) {
        Ok(f) => files.push(f),
        Err(e) => errors.push(e),
    }

    let project = assemble_project("fixture-root", files, errors);
    assert_eq!(project.total_files_processed, 1);
    assert_eq!(project.error_files.len(), 1);
    assert_eq!(project.error_files[0].error_type, ErrorType::UnsupportedLanguage);
    assert_eq!(project.error_files[0].message, "Could not detect language");
    assert_eq!(project.root_path, "fixture-root");
}

#[test]
fn test_process_file_combined_detection_uses_content() {
    let mut pool = ParserPool::new();
    let mut options = ParseOptions::default();
    options.language_detection = tree_parser::LanguageDetection::Combined;
    let parsed = process_file(
        &mut pool,
        "script",
        "#!/usr/bin/env python\nx = 1\n",
        &options,
        false,
    )
    .expect("shebang should decide the language");
    assert_eq!(parsed.language, Language::Python);
}

#[test]
fn test_process_file_unsupported_grammar() {
    let mut pool = ParserPool::new();
    let options = ParseOptions::default();
    let result = process_file(&mut pool, "style.css", "a { color: red }", &options, false);
    match result {
        Err(e) => {
            assert_eq!(e.error_type, ErrorType::UnsupportedLanguage);
            assert_eq!(e.message, "Failed to get a suitable parser");
            assert_eq!(e.file_path, "style.css");
        }
        Ok(_) => panic!("a language without a grammar cannot parse"),
    }
}

#[test]
fn test_language_histogram() {
    let mut pool = ParserPool::new();
    let options = ParseOptions::default();
    let mut files: Vec<ParsedFile> = Vec::new();
    for (name, content) in [
        ("a.py", "x = 1\n"),
        ("b.py", "y = 2\n"),
        ("c.rs", "fn main() {}\n"),
    ] {
        files.push(process_file(&mut pool, name, content, &options, false).unwrap());
    }
    let project = assemble_project("root", files, Vec::new());
    assert_eq!(project.total_files_processed, 3);
    let dist = &project.language_distribution;
    assert_eq!(dist.len(), 2);
    let python = dist.iter().find(|e| e.0 == Language::Python).unwrap();
    let rust = dist.iter().find(|e| e.0 == Language::Rust).unwrap();
    assert_eq!(python.1, 2);
    assert_eq!(rust.1, 1);
}

#[test]
fn test_read_failure_classification() {
    let err = read_failed_error("gone.py", "No such file or directory (os error 2)");
    assert_eq!(err.error_type, ErrorType::IoError);
    assert_eq!(err.message, "IO error: No such file or directory (os error 2)");

    let err = read_failed_error("gone.xyz", "No such file or directory (os error 2)");
    assert_eq!(err.error_type, ErrorType::UnsupportedLanguage);
    assert_eq!(err.message, "Could not detect language");
}

#[test]
fn test_missing_root_error() {
    match tree_parser::missing_root_error("/no/such/root") {
        Error::Io(message) => assert_eq!(message, "Directory does not exist: /no/such/root"),
        _ => panic!("expected the hard traversal failure"),
    }
}

#[test]
fn test_chunk_size() {
    assert_eq!(compute_chunk_size(10, 3), 3);
    assert_eq!(compute_chunk_size(1, 8), 1);
    assert_eq!(compute_chunk_size(0, 4), 1);
    assert_eq!(compute_chunk_size(16, 4), 4);
}

#[test]
fn test_split_into_chunks() {
    let files: Vec<String> = (0..7).map(|i| format!("f{i}")).collect();
    let chunks = tree_parser::split_into_chunks(files.clone(), 3);
    assert_eq!(chunks.len(), 3);
    assert_eq!(chunks[0], vec!["f0", "f1", "f2"]);
    assert_eq!(chunks[1], vec!["f3", "f4", "f5"]);
    assert_eq!(chunks[2], vec!["f6"]);

    let exact = tree_parser::split_into_chunks(files, 7);
    assert_eq!(exact.len(), 1);
    assert_eq!(exact[0].len(), 7);

    let none = tree_parser::split_into_chunks(Vec::new(), 2);
    assert!(none.is_empty());
}

#[test]
fn test_should_include_file() {
    let options = ParseOptions::default();
    assert!(should_include_file("src/main.rs", false, Some(100), &options));
    assert!(!should_include_file("src", true, None, &options));
    assert!(!should_include_file(".hidden.rs", false, Some(10), &options));
    assert!(!should_include_file("target/out.rs", false, Some(10), &options));
    assert!(!should_include_file("big.rs", false, Some(11 * 1024 * 1024), &options));
    assert!(
        should_include_file("notes.unknown", false, Some(10), &options),
        "an unrecognized file is still taken, to be reported as unsupported"
    );

    let mut inclusive = ParseOptions::default();
    inclusive.include_hidden_files = true;
    assert!(should_include_file(".hidden.rs", false, Some(10), &inclusive));
}

#[test]
fn test_file_filter() {
    let filter = FileFilter {
        extensions: Some(vec!["rs".to_string()]),
        languages: Some(vec![Language::Rust]),
        min_size_bytes: Some(10),
        max_size_bytes: Some(1000),
    };
    assert!(file_passes_filter("lib.rs", Some(100), &filter));
    assert!(!file_passes_filter("lib.py", Some(100), &filter));
    assert!(!file_passes_filter("lib.rs", Some(5), &filter));
    assert!(!file_passes_filter("lib.rs", Some(5000), &filter));

    let open = FileFilter {
        extensions: None,
        languages: None,
        min_size_bytes: None,
        max_size_bytes: None,
    };
    assert!(file_passes_filter("anything.py", None, &open));
}

#[test]
fn test_default_options() {
    let options = ParseOptions::default();
    assert!(options.max_concurrent_files >= 2);
    assert!(!options.include_hidden_files);
    assert_eq!(options.max_file_size_mb, 10);
    assert!(options.recursive);
    assert_eq!(
        options.ignore_patterns,
        vec!["node_modules", ".git", "target", "build"]
    );
    assert!(options.enable_caching);
    assert!(options.thread_pool_size.is_none());
}

#[test]
fn test_error_messages() {
    assert_eq!(Error::Io("boom".to_string()).message(), "IO error: boom");
    assert_eq!(Error::Parse("bad".to_string()).message(), "Parse error: bad");
    assert_eq!(
        Error::UnsupportedLanguage("Css".to_string()).message(),
        "Unsupported language: Css"
    );
    assert_eq!(Error::FileTooLarge(42).message(), "File too large: 42 bytes");
    assert_eq!(
        Error::PermissionDenied("secret".to_string()).message(),
        "Permission denied: secret"
    );
    assert_eq!(Error::InvalidQuery("oops".to_string()).message(), "Invalid query: oops");
}
