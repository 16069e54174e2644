//! The search layer: exact and multi node-kind search with an optional
//! name-pattern filter over a parsed file's flattened constructs, structural
//! pattern queries over a retained syntax tree, and per-language convenience
//! categories.

use vstd::prelude::*;
use vstd::string::*;

use streaming_iterator::StreamingIterator;
use tree_sitter::Node;
use tree_sitter::Query;
use tree_sitter::QueryCursor;

use crate::parser::convert_node;

use crate::CodeConstruct;
use crate::Error;
use crate::Language;
use crate::ParsedFile;
use crate::languages::get_tree_sitter_language;
use crate::languages::language_supported;
use crate::model::ConstructModel;
use crate::model::cc_seq_view;
use crate::model::cc_view;
use crate::model::clone_construct;
use crate::model::lemma_cc_seq_view;
use crate::model::lemma_cc_seq_view_push;
use crate::parser::NodeModel;
use crate::parser::SyntaxNode;
use crate::parser::make_shell;
use crate::parser::node_rows_ok;
use crate::parser::node_view;
use crate::strutil::str_eq;

verus! {

/// Whether a regular-expression pattern is syntactically valid; what
/// `regex::Regex::new` accepts, named rather than spelled out.
pub uninterp spec fn regex_compiles(pattern: Seq<char>) -> bool;

/// Whether a valid pattern matches somewhere in a text; what
/// `regex::Regex::is_match` returns, named rather than spelled out.
pub uninterp spec fn regex_match(pattern: Seq<char>, text: Seq<char>) -> bool;

/// Whether a structural pattern compiles against a language's grammar; what
/// `tree_sitter::Query::new` accepts, named rather than spelled out.
pub uninterp spec fn ts_query_ok(lang: Language, query: Seq<char>) -> bool;

#[verifier::external_type_specification]
#[verifier::external_body]
pub struct ExRegex(regex::Regex);

/// A compiled regular expression kept together with the pattern text it was
/// compiled from, so contracts can speak of the pattern.
pub struct CompiledPattern {
    regex: regex::Regex,
    pattern: String,
}

impl CompiledPattern {
    /// The pattern this value was compiled from.
    pub closed spec fn pattern_view(&self) -> Seq<char> {
        self.pattern@
    }

    /// Relies on `regex::Regex::new`: compiles the pattern, succeeding
    /// exactly when the pattern is syntactically valid; validity depends on
    /// the pattern alone.
    #[verifier::external_body]
    pub fn compile(pattern: &str) -> (r: Option<CompiledPattern>)
        ensures
            r is Some <==> regex_compiles(pattern@),
            r matches Some(cp) ==> cp.pattern_view() == pattern@,
    {
        match regex::Regex::new(pattern) {
            Ok(re) => Some(CompiledPattern { regex: re, pattern: pattern.to_string() }),
            Err(_) => None,
        }
    }

    /// Relies on `regex::Regex::is_match`: whether the pattern matches
    /// anywhere in `text`; the result depends on the pattern and the text
    /// alone.
    #[verifier::external_body]
    pub fn is_match(&self, text: &str) -> (r: bool)
        ensures
            r == regex_match(self.pattern_view(), text@),
    {
        self.regex.is_match(text)
    }
}

/// Whether a construct passes the optional name filter: no filter admits
/// every construct; a pattern admits exactly the named constructs whose name
/// it matches.
pub open spec fn name_matches(pattern: Option<Seq<char>>, c: ConstructModel) -> bool {
    match pattern {
        Option::None => true,
        Option::Some(p) => c.name matches Option::Some(n) && regex_match(p, n),
    }
}

/// The constructs of `cs` from index `i` on whose kind is one of `kinds` and
/// whose name passes the filter, in order, each position taken at most once.
pub open spec fn search_from(
    cs: Seq<ConstructModel>,
    kinds: Seq<Seq<char>>,
    pattern: Option<Seq<char>>,
    i: int,
) -> Seq<ConstructModel>
    decreases cs.len() - i,
{
    if i < 0 || i >= cs.len() {
        Seq::empty()
    } else {
        let rest = search_from(cs, kinds, pattern, i + 1);
        if kinds.contains(cs[i].node_type) && name_matches(pattern, cs[i]) {
            seq![cs[i]] + rest
        } else {
            rest
        }
    }
}

/// Multi-kind search is the union of the kinds' matches: a construct model
/// stands in the result exactly when it stands in the searched sequence with
/// an admitted kind and name — and the result never holds more entries than
/// the searched sequence, so no position is reported twice, however many of
/// the requested kinds overlap.
pub proof fn lemma_search_union(
    cs: Seq<ConstructModel>,
    kinds: Seq<Seq<char>>,
    pattern: Option<Seq<char>>,
    i: int,
)
    requires
        0 <= i <= cs.len(),
    ensures
        search_from(cs, kinds, pattern, i).len() <= cs.len() - i,
        forall|x: ConstructModel|
            #[trigger] search_from(cs, kinds, pattern, i).contains(x) <==> exists|j: int|
                i <= j < cs.len() && cs[j] == x && kinds.contains(x.node_type) && name_matches(
                    pattern,
                    x,
                ),
    decreases cs.len() - i,
{
    if i < cs.len() {
        lemma_search_union(cs, kinds, pattern, i + 1);
        let rest = search_from(cs, kinds, pattern, i + 1);
        if kinds.contains(cs[i].node_type) && name_matches(pattern, cs[i]) {
            let whole = seq![cs[i]] + rest;
            assert forall|x: ConstructModel| #[trigger] whole.contains(x) implies exists|j: int|
                i <= j < cs.len() && cs[j] == x && kinds.contains(x.node_type) && name_matches(
                    pattern,
                    x,
                ) by {
                let k = choose|k: int| 0 <= k < whole.len() && whole[k] == x;
                if k == 0 {
                    assert(cs[i] == x);
                } else {
                    assert(rest[k - 1] == x);
                    assert(rest.contains(x));
                }
            }
            assert forall|x: ConstructModel|
                exists|j: int|
                    i <= j < cs.len() && cs[j] == x && kinds.contains(x.node_type) && name_matches(
                        pattern,
                        x,
                    ) implies #[trigger] whole.contains(x) by {
                let j = choose|j: int|
                    i <= j < cs.len() && cs[j] == x && kinds.contains(x.node_type) && name_matches(
                        pattern,
                        x,
                    );
                if j == i {
                    assert(whole[0] == x);
                } else {
                    assert(rest.contains(x));
                    let k = choose|k: int| 0 <= k < rest.len() && rest[k] == x;
                    assert(whole[k + 1] == x);
                }
            }
        } else {
            assert forall|x: ConstructModel|
                exists|j: int|
                    i <= j < cs.len() && cs[j] == x && kinds.contains(x.node_type) && name_matches(
                        pattern,
                        x,
                    ) implies #[trigger] rest.contains(x) by {
                let j = choose|j: int|
                    i <= j < cs.len() && cs[j] == x && kinds.contains(x.node_type) && name_matches(
                        pattern,
                        x,
                    );
                assert(j != i);
            }
        }
    }
}

/// Whether a slice of kind names holds the characters of `s`.
fn slice_contains_str(kinds: &[&str], s: &str) -> (r: bool)
    ensures
        r == kinds@.map_values(|x: &str| x@).contains(s@),
{
    let ghost ks = kinds@.map_values(|x: &str| x@);
    let mut i: usize = 0;
    while i < kinds.len()
        invariant
            ks == kinds@.map_values(|x: &str| x@),
            i <= kinds@.len(),
            forall|j: int| 0 <= j < i ==> ks[j] != s@,
        decreases kinds@.len() - i,
    {
        if str_eq(kinds[i], s) {
            assert(ks[i as int] == s@);
            return true;
        }
        i += 1;
    }
    assert(forall|j: int| 0 <= j < ks.len() ==> ks[j] != s@);
    false
}

/// Pushes clones of the constructs of `parsed_file` whose kind is one of
/// `kinds` and whose name the compiled pattern admits.
fn collect_matches(
    parsed_file: &ParsedFile,
    kinds: &[&str],
    compiled: &Option<CompiledPattern>,
    Ghost(pattern): Ghost<Option<Seq<char>>>,
) -> (r: Vec<CodeConstruct>)
    requires
        match *compiled {
            Option::Some(cp) => pattern == Option::Some(cp.pattern_view()),
            Option::None => pattern is None,
        },
    ensures
        cc_seq_view(r@, 0) =~= search_from(
            cc_seq_view(parsed_file.constructs@, 0),
            kinds@.map_values(|x: &str| x@),
            pattern,
            0,
        ),
{
    let ghost cs = cc_seq_view(parsed_file.constructs@, 0);
    let ghost ks = kinds@.map_values(|x: &str| x@);
    proof {
        lemma_cc_seq_view(parsed_file.constructs@, 0);
    }
    let mut out: Vec<CodeConstruct> = Vec::new();
    let mut i: usize = 0;
    while i < parsed_file.constructs.len()
        invariant
            cs == cc_seq_view(parsed_file.constructs@, 0),
            ks == kinds@.map_values(|x: &str| x@),
            cs.len() == parsed_file.constructs@.len(),
            forall|j: int| 0 <= j < cs.len() ==> cs[j] == cc_view(parsed_file.constructs@[j]),
            match *compiled {
                Option::Some(cp) => pattern == Option::Some(cp.pattern_view()),
                Option::None => pattern is None,
            },
            i <= cs.len(),
            cc_seq_view(out@, 0) + search_from(cs, ks, pattern, i as int) =~= search_from(
                cs,
                ks,
                pattern,
                0,
            ),
        decreases cs.len() - i,
    {
        let c: &CodeConstruct = &parsed_file.constructs[i];
        let kind_hit: bool = slice_contains_str(kinds, c.node_type.as_str());
        let taken: bool = if kind_hit {
            match compiled {
                Option::Some(cp) => {
                    match &c.name {
                        Option::Some(n) => cp.is_match(n.as_str()),
                        Option::None => false,
                    }
                },
                Option::None => true,
            }
        } else {
            false
        };
        proof {
            assert(taken == (ks.contains(cs[i as int].node_type) && name_matches(
                pattern,
                cs[i as int],
            )));
        }
        if taken {
            let ghost before = out@;
            out.push(clone_construct(c));
            proof {
                lemma_cc_seq_view_push(before, out@[out@.len() - 1]);
            }
        }
        proof {
            assert(search_from(cs, ks, pattern, i as int) == if ks.contains(cs[i as int].node_type)
                && name_matches(pattern, cs[i as int]) {
                seq![cs[i as int]] + search_from(cs, ks, pattern, i + 1)
            } else {
                search_from(cs, ks, pattern, i + 1)
            });
            assert(cc_seq_view(out@, 0) + search_from(cs, ks, pattern, i + 1) =~= search_from(
                cs,
                ks,
                pattern,
                0,
            ));
        }
        i += 1;
    }
    proof {
        assert(search_from(cs, ks, pattern, cs.len() as int) == Seq::<ConstructModel>::empty());
        assert(cc_seq_view(out@, 0) + Seq::<ConstructModel>::empty() =~= cc_seq_view(out@, 0));
    }
    out
}

/// Searches a parsed file's flattened constructs for one node kind, each
/// occurrence reported once; a name pattern restricts the result to named
/// constructs the pattern matches, and an invalid pattern yields an empty
/// result instead of an error.
pub fn search_by_node_type(
    parsed_file: &ParsedFile,
    node_type: &str,
    name_pattern: Option<&str>,
) -> (r: Vec<CodeConstruct>)
    ensures
        ({
            let cs = cc_seq_view(parsed_file.constructs@, 0);
            match name_pattern {
                Option::None => cc_seq_view(r@, 0) =~= search_from(
                    cs,
                    seq![node_type@],
                    Option::None,
                    0,
                ),
                Option::Some(p) => {
                    &&& (!regex_compiles(p@) ==> r@.len() == 0)
                    &&& (regex_compiles(p@) ==> cc_seq_view(r@, 0) =~= search_from(
                        cs,
                        seq![node_type@],
                        Option::Some(p@),
                        0,
                    ))
                },
            }
        }),
{
    let kinds: [&str; 1] = [node_type];
    match name_pattern {
        Option::None => {
            let r = collect_matches(parsed_file, kinds.as_slice(), &Option::None, Ghost(Option::None));
            proof {
                assert(kinds@.map_values(|x: &str| x@) =~= seq![node_type@]);
            }
            r
        },
        Option::Some(p) => {
            match CompiledPattern::compile(p) {
                Option::None => Vec::new(),
                Option::Some(cp) => {
                    let ghost pv = Option::Some(cp.pattern_view());
                    let r = collect_matches(parsed_file, kinds.as_slice(), &Option::Some(cp), Ghost(pv));
                    proof {
                        assert(kinds@.map_values(|x: &str| x@) =~= seq![node_type@]);
                    }
                    r
                },
            }
        },
    }
}

/// Searches a parsed file's flattened constructs for any of several node
/// kinds at once: the union of the kinds' matches, each occurrence reported
/// at most once; an invalid name pattern yields an empty result.
pub fn search_by_multiple_node_types(
    parsed_file: &ParsedFile,
    node_types: &[&str],
    name_pattern: Option<&str>,
) -> (r: Vec<CodeConstruct>)
    ensures
        ({
            let cs = cc_seq_view(parsed_file.constructs@, 0);
            let ks = node_types@.map_values(|x: &str| x@);
            match name_pattern {
                Option::None => cc_seq_view(r@, 0) =~= search_from(cs, ks, Option::None, 0),
                Option::Some(p) => {
                    &&& (!regex_compiles(p@) ==> r@.len() == 0)
                    &&& (regex_compiles(p@) ==> cc_seq_view(r@, 0) =~= search_from(
                        cs,
                        ks,
                        Option::Some(p@),
                        0,
                    ))
                },
            }
        }),
{
    match name_pattern {
        Option::None => collect_matches(parsed_file, node_types, &Option::None, Ghost(Option::None)),
        Option::Some(p) => {
            match CompiledPattern::compile(p) {
                Option::None => Vec::new(),
                Option::Some(cp) => {
                    let ghost pv = Option::Some(cp.pattern_view());
                    collect_matches(parsed_file, node_types, &Option::Some(cp), Ghost(pv))
                },
            }
        },
    }
}

/// The function-like node kinds of each language.
pub open spec fn function_kinds(lang: Language) -> Seq<Seq<char>> {
    match lang {
        Language::Python => seq!["function_definition"@],
        Language::Rust => seq!["function_item"@],
        Language::JavaScript => seq![
            "function_declaration"@,
            "function_expression"@,
            "arrow_function"@,
        ],
        Language::TypeScript => seq![
            "function_declaration"@,
            "function_expression"@,
            "arrow_function"@,
        ],
        Language::Java => seq!["method_declaration"@, "constructor_declaration"@],
        Language::C => seq!["function_definition"@],
        Language::Cpp => seq!["function_definition"@],
        Language::Go => seq!["function_declaration"@, "method_declaration"@],
        _ => Seq::empty(),
    }
}

/// The type-like node kinds of each language.
pub open spec fn class_kinds(lang: Language) -> Seq<Seq<char>> {
    match lang {
        Language::Python => seq!["class_definition"@],
        Language::Rust => seq!["struct_item"@, "enum_item"@],
        Language::JavaScript => seq!["class_declaration"@],
        Language::TypeScript => seq!["class_declaration"@, "interface_declaration"@],
        Language::Java => seq!["class_declaration"@, "interface_declaration"@],
        Language::C => seq!["struct_specifier"@, "union_specifier"@, "enum_specifier"@],
        Language::Cpp => seq![
            "class_specifier"@,
            "struct_specifier"@,
            "union_specifier"@,
            "enum_specifier"@,
        ],
        Language::Go => seq!["type_declaration"@],
        _ => Seq::empty(),
    }
}

/// The import-like node kinds of each language.
pub open spec fn import_kinds(lang: Language) -> Seq<Seq<char>> {
    match lang {
        Language::Python => seq!["import_statement"@, "import_from_statement"@],
        Language::Rust => seq!["use_declaration"@],
        Language::JavaScript => seq!["import_statement"@],
        Language::TypeScript => seq!["import_statement"@],
        Language::Java => seq!["import_declaration"@],
        Language::C => seq!["preproc_include"@],
        Language::Cpp => seq!["preproc_include"@],
        Language::Go => seq!["import_declaration"@],
        _ => Seq::empty(),
    }
}

/// The variable-like node kinds of each language.
pub open spec fn variable_kinds(lang: Language) -> Seq<Seq<char>> {
    match lang {
        Language::Python => seq!["assignment"@],
        Language::Rust => seq!["const_item"@, "static_item"@],
        Language::JavaScript => seq!["variable_declaration"@],
        Language::TypeScript => seq!["variable_declaration"@],
        Language::Java => seq!["field_declaration"@],
        Language::C => seq!["declaration"@],
        Language::Cpp => seq!["declaration"@],
        Language::Go => seq!["var_declaration"@, "const_declaration"@],
        _ => Seq::empty(),
    }
}

/// Finds the function-like constructs of a parsed file, under the file's
/// language; a name pattern restricts the result, and an invalid pattern
/// yields an empty result.
pub fn search_functions(parsed_file: &ParsedFile, name_pattern: Option<&str>) -> (r: Vec<
    CodeConstruct,
>)
    ensures
        ({
            let cs = cc_seq_view(parsed_file.constructs@, 0);
            let ks = function_kinds(parsed_file.language);
            match name_pattern {
                Option::None => cc_seq_view(r@, 0) =~= search_from(cs, ks, Option::None, 0),
                Option::Some(p) => {
                    &&& (!regex_compiles(p@) ==> r@.len() == 0)
                    &&& (regex_compiles(p@) ==> cc_seq_view(r@, 0) =~= search_from(
                        cs,
                        ks,
                        Option::Some(p@),
                        0,
                    ))
                },
            }
        }),
{
    let kinds: Vec<&str> = match parsed_file.language {
        Language::Python => vec!["function_definition"],
        Language::Rust => vec!["function_item"],
        Language::JavaScript => vec!["function_declaration", "function_expression", "arrow_function"],
        Language::TypeScript => vec!["function_declaration", "function_expression", "arrow_function"],
        Language::Java => vec!["method_declaration", "constructor_declaration"],
        Language::C => vec!["function_definition"],
        Language::Cpp => vec!["function_definition"],
        Language::Go => vec!["function_declaration", "method_declaration"],
        _ => Vec::new(),
    };
    proof {
        assert(kinds@.map_values(|x: &str| x@) =~= function_kinds(parsed_file.language));
    }
    search_by_multiple_node_types(parsed_file, kinds.as_slice(), name_pattern)
}

/// Finds the class- and type-like constructs of a parsed file, under the
/// file's language; a name pattern restricts the result, and an invalid
/// pattern yields an empty result.
pub fn search_classes(parsed_file: &ParsedFile, name_pattern: Option<&str>) -> (r: Vec<
    CodeConstruct,
>)
    ensures
        ({
            let cs = cc_seq_view(parsed_file.constructs@, 0);
            let ks = class_kinds(parsed_file.language);
            match name_pattern {
                Option::None => cc_seq_view(r@, 0) =~= search_from(cs, ks, Option::None, 0),
                Option::Some(p) => {
                    &&& (!regex_compiles(p@) ==> r@.len() == 0)
                    &&& (regex_compiles(p@) ==> cc_seq_view(r@, 0) =~= search_from(
                        cs,
                        ks,
                        Option::Some(p@),
                        0,
                    ))
                },
            }
        }),
{
    let kinds: Vec<&str> = match parsed_file.language {
        Language::Python => vec!["class_definition"],
        Language::Rust => vec!["struct_item", "enum_item"],
        Language::JavaScript => vec!["class_declaration"],
        Language::TypeScript => vec!["class_declaration", "interface_declaration"],
        Language::Java => vec!["class_declaration", "interface_declaration"],
        Language::C => vec!["struct_specifier", "union_specifier", "enum_specifier"],
        Language::Cpp => vec!["class_specifier", "struct_specifier", "union_specifier", "enum_specifier"],
        Language::Go => vec!["type_declaration"],
        _ => Vec::new(),
    };
    proof {
        assert(kinds@.map_values(|x: &str| x@) =~= class_kinds(parsed_file.language));
    }
    search_by_multiple_node_types(parsed_file, kinds.as_slice(), name_pattern)
}

/// Finds the import-like constructs of a parsed file, under the file's
/// language.
pub fn search_imports(parsed_file: &ParsedFile) -> (r: Vec<CodeConstruct>)
    ensures
        cc_seq_view(r@, 0) =~= search_from(
            cc_seq_view(parsed_file.constructs@, 0),
            import_kinds(parsed_file.language),
            Option::None,
            0,
        ),
{
    let kinds: Vec<&str> = match parsed_file.language {
        Language::Python => vec!["import_statement", "import_from_statement"],
        Language::Rust => vec!["use_declaration"],
        Language::JavaScript => vec!["import_statement"],
        Language::TypeScript => vec!["import_statement"],
        Language::Java => vec!["import_declaration"],
        Language::C => vec!["preproc_include"],
        Language::Cpp => vec!["preproc_include"],
        Language::Go => vec!["import_declaration"],
        _ => Vec::new(),
    };
    proof {
        assert(kinds@.map_values(|x: &str| x@) =~= import_kinds(parsed_file.language));
    }
    search_by_multiple_node_types(parsed_file, kinds.as_slice(), Option::None)
}

/// Finds the variable- and constant-like constructs of a parsed file, under
/// the file's language; a name pattern restricts the result, and an invalid
/// pattern yields an empty result.
pub fn search_variables(parsed_file: &ParsedFile, name_pattern: Option<&str>) -> (r: Vec<
    CodeConstruct,
>)
    ensures
        ({
            let cs = cc_seq_view(parsed_file.constructs@, 0);
            let ks = variable_kinds(parsed_file.language);
            match name_pattern {
                Option::None => cc_seq_view(r@, 0) =~= search_from(cs, ks, Option::None, 0),
                Option::Some(p) => {
                    &&& (!regex_compiles(p@) ==> r@.len() == 0)
                    &&& (regex_compiles(p@) ==> cc_seq_view(r@, 0) =~= search_from(
                        cs,
                        ks,
                        Option::Some(p@),
                        0,
                    ))
                },
            }
        }),
{
    let kinds: Vec<&str> = match parsed_file.language {
        Language::Python => vec!["assignment"],
        Language::Rust => vec!["const_item", "static_item"],
        Language::JavaScript => vec!["variable_declaration"],
        Language::TypeScript => vec!["variable_declaration"],
        Language::Java => vec!["field_declaration"],
        Language::C => vec!["declaration"],
        Language::Cpp => vec!["declaration"],
        Language::Go => vec!["var_declaration", "const_declaration"],
        _ => Vec::new(),
    };
    proof {
        assert(kinds@.map_values(|x: &str| x@) =~= variable_kinds(parsed_file.language));
    }
    search_by_multiple_node_types(parsed_file, kinds.as_slice(), name_pattern)
}

/// Relies on `tree_sitter::Query::new`, `QueryCursor::new` and
/// `QueryCursor::matches`: compiles the structural pattern against the
/// language's grammar — acceptance depends on the grammar and the pattern
/// alone — and collects every capture of every match, in match order, as a
/// plain node copy whose rows are ordered 32-bit values. Both the query's
/// text predicates and the copied node texts slice `source` with bounds
/// checking, so a tree whose spans outrun the supplied text (the file changed
/// since the parse) yields empty text instead of a panic.
#[verifier::external_body]
fn run_query(tree: &tree_sitter::Tree, lang: Language, query: &str, source: &str) -> (r: Result<
    Vec<SyntaxNode>,
    Error,
>)
    requires
        language_supported(lang),
    ensures
        r is Ok <==> ts_query_ok(lang, query@),
        r matches Err(e) ==> e matches Error::InvalidQuery(_),
        r matches Ok(v) ==> forall|i: int| 0 <= i < v@.len() ==> node_rows_ok(node_view(v@[i])),
{
    let grammar = match get_tree_sitter_language(&lang) { Ok(l) => l, Err(e) => return Err(e) };
    let q = match Query::new(&grammar, query) {
        Ok(q) => q,
        Err(e) => return Err(Error::InvalidQuery(e.to_string())),
    };
    let mut cursor = QueryCursor::new();
    let mut out = Vec::new();
    let mut ms = cursor.matches(&q, tree.root_node(), |n: Node<'_>|
        std::iter::once(source.as_bytes().get(n.start_byte()..n.end_byte()).unwrap_or(b"")));
    while let Some(m) = ms.next() {
        for capture in m.captures() {
            out.push(convert_node(capture.node, source));
        }
    }
    Ok(out)
}

/// Builds the construct a structural-query capture reports: the node's kind,
/// name, text and spans, with no enclosure and no nested constructs.
pub fn construct_from_node(node: &SyntaxNode) -> (r: CodeConstruct)
    requires
        node_rows_ok(node_view(*node)),
    ensures
        cc_view(r) == make_shell(node_view(*node), Option::None),
{
    crate::parser::create_construct(node, Option::None)
}

/// Builds the construct list a capture list reports: one construct per
/// captured node, in order, each the shell of its node — kind, name, text
/// and spans, with no enclosure and no nested constructs.
pub fn constructs_from_captures(nodes: &Vec<SyntaxNode>) -> (r: Vec<CodeConstruct>)
    requires
        forall|i: int| 0 <= i < nodes@.len() ==> node_rows_ok(node_view(#[trigger] nodes@[i])),
    ensures
        cc_seq_view(r@, 0).len() == nodes@.len(),
        forall|i: int|
            0 <= i < nodes@.len() ==> cc_seq_view(r@, 0)[i] == make_shell(
                node_view(#[trigger] nodes@[i]),
                Option::None,
            ),
{
    let mut results: Vec<CodeConstruct> = Vec::new();
    let mut i: usize = 0;
    while i < nodes.len()
        invariant
            forall|j: int| 0 <= j < nodes@.len() ==> node_rows_ok(node_view(#[trigger] nodes@[j])),
            i <= nodes@.len(),
            cc_seq_view(results@, 0).len() == i,
            forall|j: int|
                0 <= j < i ==> cc_seq_view(results@, 0)[j] == make_shell(
                    node_view(#[trigger] nodes@[j]),
                    Option::None,
                ),
        decreases nodes@.len() - i,
    {
        let ghost before = results@;
        let c: CodeConstruct = construct_from_node(&nodes[i]);
        results.push(c);
        proof {
            lemma_cc_seq_view_push(before, c);
            lemma_cc_seq_view(results@, 0);
        }
        i += 1;
    }
    results
}

/// Runs a structural pattern over a parsed file's retained syntax tree,
/// against the current text of the file supplied by the caller. Fails when no
/// tree was retained, when the file's language has no grammar, and when the
/// pattern does not compile; otherwise each capture yields one construct.
pub fn search_by_query(parsed_file: &ParsedFile, tree_sitter_query: &str, source: &str) -> (r:
    Result<Vec<CodeConstruct>, Error>)
    ensures
        parsed_file.syntax_tree is None ==> (r matches Err(e) && e matches Error::Parse(m) && m@
            == "No syntax tree available"@),
        parsed_file.syntax_tree is Some && !language_supported(parsed_file.language) ==> (
        r matches Err(e) && e matches Error::UnsupportedLanguage(_)),
        parsed_file.syntax_tree is Some && language_supported(parsed_file.language) ==> {
            &&& (r is Ok <==> ts_query_ok(parsed_file.language, tree_sitter_query@))
            &&& (r matches Err(e) ==> e matches Error::InvalidQuery(_))
        },
        r matches Ok(v) ==> exists|nodes: Seq<NodeModel>|
            #![trigger nodes.len()]
            cc_seq_view(v@, 0).len() == nodes.len() && forall|i: int|
                0 <= i < nodes.len() ==> node_rows_ok(#[trigger] nodes[i]) && cc_seq_view(v@, 0)[i]
                    == make_shell(nodes[i], Option::None),
{
    let tree: &tree_sitter::Tree = match &parsed_file.syntax_tree {
        Option::Some(t) => t,
        Option::None => {
            return Err(Error::Parse(String::from_str("No syntax tree available")));
        },
    };
    match get_tree_sitter_language(&parsed_file.language) {
        Ok(_) => (),
        Err(e) => {
            return Err(e);
        },
    };
    let nodes: Vec<SyntaxNode> = match run_query(
        tree,
        parsed_file.language,
        tree_sitter_query,
        source,
    ) {
        Ok(n) => n,
        Err(e) => {
            return Err(e);
        },
    };
    let results: Vec<CodeConstruct> = constructs_from_captures(&nodes);
    proof {
        let models = Seq::new(nodes@.len(), |j: int| node_view(nodes@[j]));
        assert(cc_seq_view(results@, 0).len() == models.len());
        assert(forall|j: int|
            0 <= j < models.len() ==> node_rows_ok(#[trigger] models[j]) && cc_seq_view(
                results@,
                0,
            )[j] == make_shell(models[j], Option::None));
    }
    Ok(results)
}

} // verus!
