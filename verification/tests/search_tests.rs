use tree_parser::Error;
use tree_parser::Language;
use tree_parser::ParsedFile;
use tree_parser::ParserPool;
use tree_parser::parse_source;
use tree_parser::search_by_multiple_node_types;
use tree_parser::search_by_node_type;
use tree_parser::search_by_query;
use tree_parser::search_classes;
use tree_parser::search_functions;
use tree_parser::search_imports;
use tree_parser::search_variables;

const PY_SOURCE: &str = "import os\n\nclass A:\n    def test_one(self):\n        pass\n    def helper(self):\n        pass\n\nclass B:\n    def test_two(self):\n        pass\n";

fn parsed_python(retain_tree: bool) -> ParsedFile {
    let mut pool = ParserPool::new();
    parse_source(&mut pool, "sample.py", PY_SOURCE, Language::Python, retain_tree)
        .expect("python source should parse")
}

#[test]
fn test_search_by_node_type_exact() {
    let parsed = parsed_python(false);
    let functions = search_by_node_type(&parsed, "function_definition", None);
    assert_eq!(functions.len(), 3);
    let classes = search_by_node_type(&parsed, "class_definition", None);
    assert_eq!(classes.len(), 2);
    let nothing = search_by_node_type(&parsed, "impl_item", None);
    assert!(nothing.is_empty());
}

#[test]
fn test_search_with_name_pattern() {
    let parsed = parsed_python(false);
    let tests = search_by_node_type(&parsed, "function_definition", Some(r"^test_"));
    assert_eq!(tests.len(), 2);
    assert_eq!(tests[0].name.as_deref(), Some("test_one"));
    assert_eq!(tests[1].name.as_deref(), Some("test_two"));
}

#[test]
fn test_search_invalid_pattern_yields_empty() {
    let parsed = parsed_python(false);
    let broken = search_by_node_type(&parsed, "function_definition", Some("["));
    assert!(broken.is_empty());
    let broken_multi =
        search_by_multiple_node_types(&parsed, &["function_definition"], Some("(unclosed"));
    assert!(broken_multi.is_empty());
}

#[test]
fn test_search_multiple_node_types_union() {
    let parsed = parsed_python(false);
    let both = search_by_multiple_node_types(
        &parsed,
        &["function_definition", "class_definition"],
        None,
    );
    assert_eq!(both.len(), 5, "the union of three functions and two classes");

    let duplicated_request = search_by_multiple_node_types(
        &parsed,
        &["function_definition", "function_definition"],
        None,
    );
    assert_eq!(duplicated_request.len(), 3, "each location appears at most once");
}

#[test]
fn test_convenience_categories() {
    let parsed = parsed_python(false);
    assert_eq!(search_functions(&parsed, None).len(), 3);
    assert_eq!(search_functions(&parsed, Some(r"^test_")).len(), 2);
    assert_eq!(search_classes(&parsed, None).len(), 2);
    assert_eq!(search_imports(&parsed).len(), 1);
    assert!(search_variables(&parsed, None).is_empty());
}

#[test]
fn test_constructs_from_captures() {
    let node = tree_parser::SyntaxNode {
        kind: "function_definition".to_string(),
        text: "def f(): pass".to_string(),
        start_byte: 0,
        end_byte: 13,
        start_row: 0,
        end_row: 0,
        children: Vec::new(),
    };
    let out = tree_parser::constructs_from_captures(&vec![node]);
    assert_eq!(out.len(), 1);
    assert_eq!(out[0].node_type, "function_definition");
    assert_eq!(out[0].source_code, "def f(): pass");
    assert!(out[0].parent.is_none());
    assert!(out[0].children.is_empty());
}

#[test]
fn test_query_search() {
    let parsed = parsed_python(true);
    let results = search_by_query(
        &parsed,
        "(function_definition name: (identifier) @name)",
        PY_SOURCE,
    )
    .expect("valid query should run");
    assert_eq!(results.len(), 3);
    assert_eq!(results[0].node_type, "identifier");
    assert_eq!(results[0].source_code, "test_one");
    assert!(results[0].parent.is_none());
    assert!(results[0].children.is_empty());
}

#[test]
fn test_query_search_invalid_pattern() {
    let parsed = parsed_python(true);
    let result = search_by_query(&parsed, "(not_a_real_node_kind) @x", PY_SOURCE);
    assert!(matches!(result, Err(Error::InvalidQuery(_))));
}

#[test]
fn test_query_search_without_tree() {
    let parsed = parsed_python(false);
    let result = search_by_query(&parsed, "(function_definition) @f", PY_SOURCE);
    match result {
        Err(Error::Parse(message)) => assert_eq!(message, "No syntax tree available"),
        _ => panic!("expected the no-syntax-tree failure"),
    }
}
