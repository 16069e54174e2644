use tree_parser::CodeConstruct;
use tree_parser::SyntaxNode;
use tree_parser::construct_from_node;
use tree_parser::extract_constructs;
use tree_parser::Language;
use tree_parser::ParserPool;
use tree_parser::parse_source;

fn parse(source: &str, language: Language, name: &str) -> Vec<CodeConstruct> {
    let mut pool = ParserPool::new();
    let parsed = parse_source(&mut pool, name, source, language, false)
        .expect("source should parse");
    parsed.constructs
}

#[test]
fn test_parent_child_relationships() {
    let source = "class TestClass:\n    def test_method(self):\n        pass";
    let constructs = parse(source, Language::Python, "test.py");

    let class_construct = constructs.iter().find(|c| c.node_type == "class_definition");
    let method_construct = constructs.iter().find(|c| c.node_type == "function_definition");

    assert!(class_construct.is_some(), "Should find class construct");
    assert!(method_construct.is_some(), "Should find method construct");

    let method = method_construct.unwrap();

    assert!(method.parent.is_some(), "Method should have a parent");

    if let Some(parent) = &method.parent {
        assert_eq!(parent.node_type, "class_definition", "Method's parent should be the class");
    }

    let class = class_construct.unwrap();
    assert!(!class.children.is_empty(), "Class should have children");

    let child_method = class.children.iter().find(|c| c.node_type == "function_definition");
    assert!(child_method.is_some(), "Class should contain the method as a child");
}

/// Checks the nested-pair shape: exactly two flattened constructs, the inner
/// one's parent naming the outer one, the outer one's children holding
/// exactly the inner one.
fn check_nested_pair(source: &str, language: Language, name: &str, outer: &str, inner: &str) {
    let constructs = parse(source, language, name);
    assert_eq!(constructs.len(), 2, "expected exactly two constructs");
    assert_eq!(constructs[0].node_type, outer);
    assert_eq!(constructs[1].node_type, inner);
    let inner_c = &constructs[1];
    let parent = inner_c.parent.as_ref().expect("inner construct should have a parent");
    assert_eq!(parent.node_type, outer);
    let outer_c = &constructs[0];
    assert_eq!(outer_c.children.len(), 1);
    assert_eq!(outer_c.children[0].node_type, inner);
}

#[test]
fn test_nested_pair_python() {
    check_nested_pair(
        "class A:\n    def m(self):\n        pass\n",
        Language::Python,
        "a.py",
        "class_definition",
        "function_definition",
    );
}

#[test]
fn test_nested_pair_rust() {
    check_nested_pair(
        "mod m { fn f() {} }\n",
        Language::Rust,
        "a.rs",
        "mod_item",
        "function_item",
    );
}

#[test]
fn test_nested_pair_javascript() {
    check_nested_pair(
        "class A { m() {} }\n",
        Language::JavaScript,
        "a.js",
        "class_declaration",
        "method_definition",
    );
}

#[test]
fn test_nested_pair_typescript() {
    check_nested_pair(
        "class A { m() {} }\n",
        Language::TypeScript,
        "a.ts",
        "class_declaration",
        "method_definition",
    );
}

#[test]
fn test_nested_pair_java() {
    check_nested_pair(
        "class A { void m() {} }\n",
        Language::Java,
        "A.java",
        "class_declaration",
        "method_declaration",
    );
}

#[test]
fn test_nested_pair_c() {
    check_nested_pair(
        "int main() { int x; }\n",
        Language::C,
        "a.c",
        "function_definition",
        "declaration",
    );
}

#[test]
fn test_nested_pair_cpp() {
    check_nested_pair(
        "int main() { int x; }\n",
        Language::Cpp,
        "a.cpp",
        "function_definition",
        "declaration",
    );
}

#[test]
fn test_nested_pair_go() {
    check_nested_pair(
        "func f() { var x = 1 }\n",
        Language::Go,
        "a.go",
        "function_declaration",
        "var_declaration",
    );
}

#[test]
fn test_flatten_duplicate_free_with_identical_nesting() {
    let source = "class A:\n    def m(self):\n        pass\n\nclass B:\n    def m(self):\n        pass\n";
    let constructs = parse(source, Language::Python, "dup.py");
    assert_eq!(constructs.len(), 4, "two classes and two methods, each exactly once");

    let methods: Vec<&CodeConstruct> = constructs
        .iter()
        .filter(|c| c.node_type == "function_definition")
        .collect();
    assert_eq!(methods.len(), 2);
    assert_eq!(methods[0].name.as_deref(), Some("m"));
    assert_eq!(methods[1].name.as_deref(), Some("m"));

    let parent_a = methods[0].parent.as_ref().expect("first method has a parent");
    let parent_b = methods[1].parent.as_ref().expect("second method has a parent");
    assert_eq!(parent_a.name.as_deref(), Some("A"));
    assert_eq!(parent_b.name.as_deref(), Some("B"));
}

#[test]
fn test_construct_spans_and_lines() {
    let source = "def f():\n    pass\n";
    let constructs = parse(source, Language::Python, "f.py");
    assert_eq!(constructs.len(), 1);
    let c = &constructs[0];
    assert_eq!(c.node_type, "function_definition");
    assert_eq!(c.name.as_deref(), Some("f"));
    assert_eq!(c.start_line, 1);
    assert_eq!(c.end_line, 2);
    assert!(c.start_byte <= c.end_byte);
    assert!(c.end_byte <= source.len());
    assert_eq!(c.source_code, "def f():\n    pass");
}

#[test]
fn test_empty_source_yields_no_constructs() {
    let constructs = parse("", Language::Python, "empty.py");
    assert!(constructs.is_empty());
}

#[test]
fn test_unsupported_language_is_rejected() {
    let mut pool = ParserPool::new();
    let result = parse_source(&mut pool, "style.css", "a { color: red }", Language::Css, false);
    assert!(matches!(result, Err(tree_parser::Error::UnsupportedLanguage(_))));
}

#[test]
fn test_parser_pool_reuses_bindings() {
    let mut pool = ParserPool::new();
    let first = pool.acquire(Language::Python).expect("grammar exists");
    let second = pool.acquire(Language::Python).expect("grammar exists");
    assert_eq!(first, second, "the same grammar binding is reused");
    let other = pool.acquire(Language::Rust).expect("grammar exists");
    assert_ne!(first, other);
    assert!(matches!(
        pool.acquire(Language::Html),
        Err(tree_parser::Error::UnsupportedLanguage(_))
    ));
}

#[test]
fn test_extract_constructs_on_plain_nodes() {
    let ident = SyntaxNode {
        kind: "identifier".to_string(),
        text: "f".to_string(),
        start_byte: 4,
        end_byte: 5,
        start_row: 0,
        end_row: 0,
        children: Vec::new(),
    };
    let function = SyntaxNode {
        kind: "function_definition".to_string(),
        text: "def f(): pass".to_string(),
        start_byte: 0,
        end_byte: 13,
        start_row: 0,
        end_row: 0,
        children: vec![ident],
    };
    let root = SyntaxNode {
        kind: "module".to_string(),
        text: "def f(): pass".to_string(),
        start_byte: 0,
        end_byte: 13,
        start_row: 0,
        end_row: 0,
        children: vec![function],
    };
    let constructs = extract_constructs(&root, &Language::Python);
    assert_eq!(constructs.len(), 1, "the module node is transparent");
    let c = &constructs[0];
    assert_eq!(c.node_type, "function_definition");
    assert_eq!(c.name.as_deref(), Some("f"));
    assert_eq!(c.start_line, 1);
    assert_eq!(c.end_line, 1);
    assert_eq!(c.start_byte, 0);
    assert_eq!(c.end_byte, 13);
    assert!(c.parent.is_none());
    assert!(c.children.is_empty());
    assert!(c.metadata.modifiers.is_empty());
    assert!(c.metadata.visibility.is_none());
}

#[test]
fn test_construct_from_node_shape() {
    let name_child = SyntaxNode {
        kind: "name".to_string(),
        text: "Widget".to_string(),
        start_byte: 6,
        end_byte: 12,
        start_row: 2,
        end_row: 2,
        children: Vec::new(),
    };
    let node = SyntaxNode {
        kind: "class_declaration".to_string(),
        text: "class Widget {}".to_string(),
        start_byte: 0,
        end_byte: 15,
        start_row: 2,
        end_row: 4,
        children: vec![name_child],
    };
    let c = construct_from_node(&node);
    assert_eq!(c.node_type, "class_declaration");
    assert_eq!(c.name.as_deref(), Some("Widget"));
    assert_eq!(c.start_line, 3);
    assert_eq!(c.end_line, 5);
    assert!(c.parent.is_none());
    assert!(c.children.is_empty());
}

#[test]
fn test_parse_is_deterministic_across_pools() {
    let source = "class A:\n    def m(self):\n        pass\n";
    let first = parse(source, Language::Python, "one.py");
    let second = parse(source, Language::Python, "two.py");
    assert_eq!(first.len(), second.len());
    for (a, b) in first.iter().zip(second.iter()) {
        assert_eq!(a.node_type, b.node_type);
        assert_eq!(a.name, b.name);
        assert_eq!(a.source_code, b.source_code);
        assert_eq!(a.start_byte, b.start_byte);
        assert_eq!(a.end_byte, b.end_byte);
    }
}

#[test]
fn test_retained_syntax_tree_flag() {
    let mut pool = ParserPool::new();
    let without = parse_source(&mut pool, "a.py", "x = 1\n", Language::Python, false).unwrap();
    assert!(without.syntax_tree.is_none());
    let with = parse_source(&mut pool, "a.py", "x = 1\n", Language::Python, true).unwrap();
    assert!(with.syntax_tree.is_some());
    assert_eq!(with.file_size_bytes, 6);
    assert_eq!(with.relative_path, "a.py");
    assert_eq!(with.language, Language::Python);
}
