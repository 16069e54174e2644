use tree_parser::Language;
use tree_parser::detect_language;
use tree_parser::detect_language_by_content;
use tree_parser::detect_language_by_extension;
use tree_parser::detect_language_by_shebang;
use tree_parser::language_from_string;
use tree_parser::language_to_string;

#[test]
fn test_language_detection() {
    assert_eq!(detect_language_by_extension("test.py"), Some(Language::Python));
    assert_eq!(detect_language_by_extension("test.rs"), Some(Language::Rust));
    assert_eq!(detect_language_by_extension("test.js"), Some(Language::JavaScript));
}

#[test]
fn test_language_detection_more_extensions() {
    assert_eq!(detect_language_by_extension("a.tsx.ts"), Some(Language::TypeScript));
    assert_eq!(detect_language_by_extension("A.JAVA"), Some(Language::Java));
    assert_eq!(detect_language_by_extension("x.c++"), Some(Language::Cpp));
    assert_eq!(detect_language_by_extension("x.go"), Some(Language::Go));
    assert_eq!(detect_language_by_extension("conf.yml"), Some(Language::Yaml));
    assert_eq!(detect_language_by_extension("no_extension"), None);
    assert_eq!(detect_language_by_extension("file.unknown"), None);
}

#[test]
fn test_language_conversion() {
    assert_eq!(language_from_string("python"), Some(Language::Python));
    assert_eq!(language_from_string("rust"), Some(Language::Rust));
    assert_eq!(language_from_string("invalid"), None);

    assert_eq!(language_to_string(&Language::Python), "Python");
    assert_eq!(language_to_string(&Language::Rust), "Rust");
}

#[test]
fn test_language_round_trip_all_tags() {
    let tags = [
        Language::Python,
        Language::Rust,
        Language::JavaScript,
        Language::TypeScript,
        Language::Java,
        Language::C,
        Language::Cpp,
        Language::Go,
        Language::CSharp,
        Language::Php,
        Language::Ruby,
        Language::Swift,
        Language::Kotlin,
        Language::Scala,
        Language::Haskell,
        Language::Lua,
        Language::Perl,
        Language::R,
        Language::Bash,
        Language::PowerShell,
        Language::Html,
        Language::Css,
        Language::Sql,
        Language::Json,
        Language::Yaml,
        Language::Toml,
        Language::Xml,
    ];
    for tag in tags {
        let name = language_to_string(&tag);
        assert_eq!(language_from_string(&name), Some(tag));
    }
}

#[test]
fn test_language_aliases_case_insensitive() {
    assert_eq!(language_from_string("PYTHON"), Some(Language::Python));
    assert_eq!(language_from_string("Py"), Some(Language::Python));
    assert_eq!(language_from_string("RUST"), Some(Language::Rust));
    assert_eq!(language_from_string("js"), Some(Language::JavaScript));
    assert_eq!(language_from_string("C++"), Some(Language::Cpp));
    assert_eq!(language_from_string("golang"), Some(Language::Go));
    assert_eq!(language_from_string("c#"), Some(Language::CSharp));
}

#[test]
fn test_shebang_detection() {
    assert_eq!(
        detect_language_by_shebang("#!/usr/bin/env python3\nprint('hi')\n"),
        Some(Language::Python)
    );
    assert_eq!(
        detect_language_by_shebang("#!/usr/bin/env node\n"),
        Some(Language::JavaScript)
    );
    assert_eq!(detect_language_by_shebang("#!/bin/sh\n"), Some(Language::Bash));
    assert_eq!(detect_language_by_shebang("#!/usr/bin/ruby\r\nputs 1\n"), Some(Language::Ruby));
    assert_eq!(detect_language_by_shebang("print('no shebang')\n"), None);
    assert_eq!(detect_language_by_shebang(""), None);
}

#[test]
fn test_content_detection() {
    assert_eq!(
        detect_language_by_content("import os\ndef main():\n    pass\n"),
        Some(Language::Python)
    );
    assert_eq!(
        detect_language_by_content("use std::io;\nfn main() {}\n"),
        Some(Language::Rust)
    );
    assert_eq!(
        detect_language_by_content("#include <stdio.h>\nint main() { return 0; }\n"),
        Some(Language::C)
    );
    assert_eq!(detect_language_by_content("nothing recognizable"), None);
}

#[test]
fn test_combined_detection() {
    assert_eq!(
        detect_language("script", Some("#!/usr/bin/env python\n")),
        Some(Language::Python)
    );
    assert_eq!(detect_language("main.rs", None), Some(Language::Rust));
    assert_eq!(
        detect_language("mystery", Some("import os\ndef f():\n    pass\n")),
        Some(Language::Python)
    );
    assert_eq!(detect_language("mystery", None), None);
}
