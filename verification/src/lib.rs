//! Extraction and search of structured code constructs from source files
//! across many programming languages, on top of an external grammar engine.
//!
//! Source text is parsed into a concrete syntax tree by the grammar engine;
//! the library walks that tree, keeps the nodes whose kinds are allow-listed
//! for the file's language, arranges them into a parent/children hierarchy,
//! and flattens the hierarchy into one ordered, duplicate-free list of
//! constructs that the search layer then filters.

use vstd::prelude::*;

pub mod languages;
pub mod model;
pub mod parser;
pub mod search;
pub mod strutil;
pub mod utils;

pub use languages::detect_language;
pub use languages::detect_language_by_content;
pub use languages::detect_language_by_extension;
pub use languages::detect_language_by_shebang;
pub use languages::get_supported_node_types;
pub use languages::get_tree_sitter_language;
pub use languages::language_from_string;
pub use languages::language_to_string;
pub use parser::ParserPool;
pub use parser::SyntaxNode;
pub use parser::assemble_project;
pub use parser::compute_chunk_size;
pub use parser::extract_constructs;
pub use parser::extract_metadata;
pub use parser::file_passes_filter;
pub use parser::flatten_constructs;
pub use parser::missing_root_error;
pub use parser::parse_source;
pub use parser::parse_with;
pub use parser::process_file;
pub use parser::read_failed_error;
pub use parser::should_include_file;
pub use parser::split_into_chunks;
pub use search::CompiledPattern;
pub use search::construct_from_node;
pub use search::constructs_from_captures;
pub use search::search_by_multiple_node_types;
pub use search::search_by_node_type;
pub use search::search_by_query;
pub use search::search_classes;
pub use search::search_functions;
pub use search::search_imports;
pub use search::search_variables;
pub use utils::basename_of;
pub use utils::format_duration;
pub use utils::format_file_size;
pub use utils::get_file_extension;
pub use utils::get_file_name_without_extension;
pub use utils::get_supported_extensions;
pub use utils::is_hidden_file;
pub use utils::is_supported_extension;
pub use utils::is_valid_directory_path;
pub use utils::is_valid_file_path;
pub use utils::matches_ignore_patterns;
pub use utils::sanitize_path;

use strutil::decimal_chars;
use strutil::push_decimal;
use vstd::string::*;

verus! {

/// Every failure the library reports, with a human-readable payload.
#[derive(Debug, Clone)]
pub enum Error {
    Io(String),
    Parse(String),
    UnsupportedLanguage(String),
    FileTooLarge(usize),
    PermissionDenied(String),
    InvalidQuery(String),
}

/// The rendered message of an error, used where a plain string is wanted.
pub open spec fn error_message_spec(e: Error) -> Seq<char> {
    match e {
        Error::Io(m) => "IO error: "@ + m@,
        Error::Parse(m) => "Parse error: "@ + m@,
        Error::UnsupportedLanguage(m) => "Unsupported language: "@ + m@,
        Error::FileTooLarge(n) => "File too large: "@ + decimal_chars(n as nat) + " bytes"@,
        Error::PermissionDenied(m) => "Permission denied: "@ + m@,
        Error::InvalidQuery(m) => "Invalid query: "@ + m@,
    }
}

impl Error {
    /// Renders the error as a message string.
    pub fn message(&self) -> (r: String)
        ensures
            r@ == error_message_spec(*self),
    {
        match self {
            Error::Io(m) => {
                let mut s = String::from_str("IO error: ");
                s.append(m.as_str());
                s
            },
            Error::Parse(m) => {
                let mut s = String::from_str("Parse error: ");
                s.append(m.as_str());
                s
            },
            Error::UnsupportedLanguage(m) => {
                let mut s = String::from_str("Unsupported language: ");
                s.append(m.as_str());
                s
            },
            Error::FileTooLarge(n) => {
                let mut s = String::from_str("File too large: ");
                push_decimal(&mut s, *n as u64);
                s.append(" bytes");
                s
            },
            Error::PermissionDenied(m) => {
                let mut s = String::from_str("Permission denied: ");
                s.append(m.as_str());
                s
            },
            Error::InvalidQuery(m) => {
                let mut s = String::from_str("Invalid query: ");
                s.append(m.as_str());
                s
            },
        }
    }
}

/// Coarse classification of per-file failures.
#[derive(Debug, Clone, Copy, PartialEq, Eq, Structural)]
pub enum ErrorType {
    ParseError,
    IoError,
    UnsupportedLanguage,
    FileTooLarge,
    PermissionDenied,
}

/// A failure tied to one file encountered during a traversal.
#[derive(Debug, Clone)]
pub struct FileError {
    pub file_path: String,
    pub error_type: ErrorType,
    pub message: String,
}

/// The closed set of source languages the library knows about.
#[derive(Debug, Clone, Copy, PartialEq, Eq, Hash, Structural)]
pub enum Language {
    Python,
    Rust,
    JavaScript,
    TypeScript,
    Java,
    C,
    Cpp,
    Go,
    CSharp,
    Php,
    Ruby,
    Swift,
    Kotlin,
    Scala,
    Haskell,
    Lua,
    Perl,
    R,
    Bash,
    PowerShell,
    Html,
    Css,
    Sql,
    Json,
    Yaml,
    Toml,
    Xml,
}

/// How the language of a file is determined.
#[derive(Debug, Clone, Copy, PartialEq, Eq, Structural)]
pub enum LanguageDetection {
    ByExtension,
    ByContent,
    ByShebang,
    Combined,
}

/// One parameter of a function-like construct.
#[derive(Debug, Clone)]
pub struct Parameter {
    pub name: String,
    pub param_type: Option<String>,
    pub default_value: Option<String>,
    pub is_variadic: bool,
}

/// Opportunistically collected facts about a construct; may be entirely empty.
#[derive(Debug, Clone)]
pub struct ConstructMetadata {
    pub visibility: Option<String>,
    pub modifiers: Vec<String>,
    pub parameters: Vec<Parameter>,
    pub return_type: Option<String>,
    pub inheritance: Vec<String>,
    pub annotations: Vec<String>,
    pub documentation: Option<String>,
}

/// One extracted code element: its kind, best-effort name, verbatim text,
/// location, nearest enclosing construct, and directly nested constructs.
#[derive(Debug)]
pub struct CodeConstruct {
    pub node_type: String,
    pub name: Option<String>,
    pub source_code: String,
    pub start_line: usize,
    pub end_line: usize,
    pub start_byte: usize,
    pub end_byte: usize,
    pub parent: Option<Box<CodeConstruct>>,
    pub children: Vec<CodeConstruct>,
    pub metadata: ConstructMetadata,
}

/// One successfully parsed source file: its paths, language, flattened
/// construct list, optionally the engine's retained syntax tree, and size.
pub struct ParsedFile {
    pub file_path: String,
    pub relative_path: String,
    pub language: Language,
    pub constructs: Vec<CodeConstruct>,
    pub syntax_tree: Option<tree_sitter::Tree>,
    pub file_size_bytes: usize,
}

/// The aggregated outcome of one directory traversal: the parsed files, the
/// count of successes, a per-language histogram, and every per-file failure.
pub struct ParsedProject {
    pub root_path: String,
    pub files: Vec<ParsedFile>,
    pub total_files_processed: usize,
    pub language_distribution: Vec<(Language, usize)>,
    pub error_files: Vec<FileError>,
}

/// Criteria for selecting files during a directory traversal;
/// all present criteria must hold at once.
#[derive(Debug, Clone)]
pub struct FileFilter {
    /// File extensions to include (without the dot); `None` admits every extension.
    pub extensions: Option<Vec<String>>,
    /// Languages to include; `None` admits every language.
    pub languages: Option<Vec<Language>>,
    /// Smallest admitted file size in bytes.
    pub min_size_bytes: Option<usize>,
    /// Largest admitted file size in bytes.
    pub max_size_bytes: Option<usize>,
}

/// Configuration of a directory traversal.
#[derive(Debug, Clone)]
pub struct ParseOptions {
    /// Upper bound on concurrently processed files; must be positive.
    pub max_concurrent_files: usize,
    /// Whether files whose name starts with a dot are taken.
    pub include_hidden_files: bool,
    /// Largest file size in whole megabytes that is still parsed.
    pub max_file_size_mb: usize,
    /// Whether subdirectories are visited.
    pub recursive: bool,
    /// Path substrings that exclude a file.
    pub ignore_patterns: Vec<String>,
    /// Strategy for determining a file's language.
    pub language_detection: LanguageDetection,
    /// Whether parser instances are reused within a traversal.
    pub enable_caching: bool,
    /// Optional thread-count hint; `None` leaves the choice to the runtime.
    pub thread_pool_size: Option<usize>,
}

/// Relies on num_cpus::get: the number of logical CPUs of this machine,
/// which is always at least one. Nothing more is promised: the value is
/// machine-dependent.
#[verifier::external_body]
fn available_cpus() -> (r: usize)
    ensures
        1 <= r,
{
    num_cpus::get()
}

impl Default for ParseOptions {
    /// The default traversal configuration: concurrency of twice the CPUs,
    /// hidden files excluded, files over 10 MB skipped, recursion on, the
    /// usual dependency and build directories ignored, detection by
    /// extension, caching on, and no thread-count hint.
    fn default() -> (r: ParseOptions)
        ensures
            r.max_concurrent_files >= 2,
            r.include_hidden_files == false,
            r.max_file_size_mb == 10,
            r.recursive == true,
            r.ignore_patterns@.map_values(|s: String| s@) =~= seq![
                "node_modules"@,
                ".git"@,
                "target"@,
                "build"@,
            ],
            r.language_detection == LanguageDetection::ByExtension,
            r.enable_caching == true,
            r.thread_pool_size is None,
    {
        let cpus: usize = available_cpus();
        let max_concurrent_files: usize = if cpus <= usize::MAX / 2 {
            cpus * 2
        } else {
            usize::MAX
        };
        let ignore_patterns: Vec<String> = vec![
            String::from_str("node_modules"),
            String::from_str(".git"),
            String::from_str("target"),
            String::from_str("build"),
        ];
        proof {
            assert(ignore_patterns@.map_values(|s: String| s@) =~= seq![
                "node_modules"@,
                ".git"@,
                "target"@,
                "build"@,
            ]);
        }
        ParseOptions {
            max_concurrent_files,
            include_hidden_files: false,
            max_file_size_mb: 10,
            recursive: true,
            ignore_patterns,
            language_detection: LanguageDetection::ByExtension,
            enable_caching: true,
            thread_pool_size: Option::None,
        }
    }
}

} // verus!
