//! The parsing pipeline: a pool of grammar-bound parser instances, the plain
//! syntax-node copy of the engine's tree, the construct-extraction engine with
//! its hierarchy and flattening, and the per-file processing decisions of a
//! directory traversal.

use vstd::prelude::*;
use vstd::string::*;
use vstd::utf8::encode_utf8;

use crate::CodeConstruct;
use crate::ConstructMetadata;
use crate::Error;
use crate::ErrorType;
use crate::FileError;
use crate::FileFilter;
use crate::Language;
use crate::LanguageDetection;
use crate::ParseOptions;
use crate::ParsedFile;
use crate::ParsedProject;
use crate::languages::allowed_kinds;
use crate::languages::combined_language;
use crate::languages::detect_language;
use crate::languages::detect_language_by_extension;
use crate::languages::get_supported_node_types;
use crate::languages::get_tree_sitter_language;
use crate::languages::kind_allowed;
use crate::languages::language_supported;
use crate::languages::path_language;
use crate::model::ConstructModel;
use crate::model::cc_seq_view;
use crate::model::cc_view;
use crate::model::clone_construct;
use crate::model::empty_metadata_model;
use crate::model::lemma_cc_seq_view;
use crate::model::lemma_cc_seq_view_push;
use crate::model::md_view;
use crate::model::opt_str_view;
use crate::strutil::lower_chars;
use crate::strutil::str_eq;
use crate::utils::basename_chars;
use crate::utils::basename_of;
use crate::utils::extension_chars;
use crate::utils::get_file_extension;
use crate::utils::is_hidden_chars;
use crate::utils::is_hidden_file;
use crate::utils::matches_ignore_patterns;
use crate::utils::matches_patterns_spec;
use tree_sitter::Language as GrammarHandle;

verus! {

#[verifier::external_type_specification]
#[verifier::external_body]
pub struct ExTsLanguage(GrammarHandle);

#[verifier::external_type_specification]
#[verifier::external_body]
pub struct ExTsParser(tree_sitter::Parser);

#[verifier::external_type_specification]
#[verifier::external_body]
pub struct ExTsTree(tree_sitter::Tree);

#[verifier::external_type_specification]
#[verifier::external_body]
pub struct ExTsNode<'a>(tree_sitter::Node<'a>);

/// One node of a concrete syntax tree, copied out of the grammar engine into
/// plain values: kind, verbatim text, byte span, row span, and children.
#[derive(Debug)]
pub struct SyntaxNode {
    pub kind: String,
    pub text: String,
    pub start_byte: usize,
    pub end_byte: usize,
    pub start_row: usize,
    pub end_row: usize,
    pub children: Vec<SyntaxNode>,
}

/// Model of a `SyntaxNode`.
#[verifier::ext_equal]
pub ghost struct NodeModel {
    pub kind: Seq<char>,
    pub text: Seq<char>,
    pub start_byte: nat,
    pub end_byte: nat,
    pub start_row: nat,
    pub end_row: nat,
    pub children: Seq<NodeModel>,
}

/// View of a `SyntaxNode`.
pub open spec fn node_view(n: SyntaxNode) -> NodeModel
    decreases n,
{
    NodeModel {
        kind: n.kind@,
        text: n.text@,
        start_byte: n.start_byte as nat,
        end_byte: n.end_byte as nat,
        start_row: n.start_row as nat,
        end_row: n.end_row as nat,
        children: node_seq_view(n.children@, 0),
    }
}

/// View of a suffix of a sequence of syntax nodes, starting at index `i`.
pub open spec fn node_seq_view(s: Seq<SyntaxNode>, i: int) -> Seq<NodeModel>
    decreases s, s.len() - i,
{
    if i < 0 || i >= s.len() {
        Seq::empty()
    } else {
        seq![node_view(s[i])] + node_seq_view(s, i + 1)
    }
}

/// `node_seq_view(s, i)` maps the elements of `s` from `i` on, in order.
pub proof fn lemma_node_seq_view(s: Seq<SyntaxNode>, i: int)
    requires
        0 <= i <= s.len(),
    ensures
        node_seq_view(s, i).len() == s.len() - i,
        forall|j: int| i <= j < s.len() ==> node_seq_view(s, i)[j - i] == node_view(s[j]),
    decreases s.len() - i,
{
    if i < s.len() {
        lemma_node_seq_view(s, i + 1);
    }
}

/// Row sanity of a node tree: rows are ordered and small enough that the
/// 1-based line conversion cannot overflow.
pub open spec fn node_rows_ok(n: NodeModel) -> bool
    decreases n, 0int,
{
    &&& n.start_row <= n.end_row
    &&& n.end_row < usize::MAX as nat
    &&& rows_ok_from(n.children, 0)
}

/// Row sanity of every node of a sequence from index `i` on.
pub open spec fn rows_ok_from(s: Seq<NodeModel>, i: int) -> bool
    decreases s, s.len() - i, 1int,
{
    if i < 0 || i >= s.len() {
        true
    } else {
        node_rows_ok(s[i]) && rows_ok_from(s, i + 1)
    }
}

/// Byte-span sanity of a node tree against the length of the parsed text:
/// spans are ordered and lie within the text.
pub open spec fn node_spans_within(n: NodeModel, limit: nat) -> bool
    decreases n, 0int,
{
    &&& n.start_byte <= n.end_byte <= limit
    &&& spans_within_from(n.children, limit, 0)
}

/// Byte-span sanity of every node of a sequence from index `i` on.
pub open spec fn spans_within_from(s: Seq<NodeModel>, limit: nat, i: int) -> bool
    decreases s, s.len() - i, 1int,
{
    if i < 0 || i >= s.len() {
        true
    } else {
        node_spans_within(s[i], limit) && spans_within_from(s, limit, i + 1)
    }
}

/// Relies on `Node::kind`, `Node::start_byte`, `Node::end_byte`,
/// `Node::start_position`, `Node::end_position`, `Node::child` and
/// `Node::child_count`: copies one node of the engine's tree, children
/// included, into plain values. The text is sliced from `source` with bounds
/// checking, so a span beyond `source` (a stale tree) yields an empty text
/// rather than a panic. Only called from the bodies of the parsing wrappers,
/// which state what holds of the copy.
#[verifier::external_body]
pub(crate) fn convert_node(node: tree_sitter::Node<'_>, source: &str) -> SyntaxNode {
    let mut children = Vec::new();
    for i in 0..node.child_count() {
        if let Some(child) = node.child(i) { children.push(convert_node(child, source)); }
    }
    let (a, b) = (node.start_byte(), node.end_byte());
    let raw = source.as_bytes().get(a..b).unwrap_or(b"");
    SyntaxNode {
        kind: node.kind().to_string(),
        text: String::from_utf8_lossy(raw).into_owned(),
        start_byte: a,
        end_byte: b,
        start_row: node.start_position().row,
        end_row: node.end_position().row,
        children,
    }
}

/// Relies on `Parser::new` and `Parser::set_language`, together with the
/// grammar constants of the library's own grammar crates: creating a parser
/// and binding one of the eight vendored grammars always succeeds, because
/// each vendored grammar's ABI version (14 or 15) lies inside the engine's
/// accepted range (13 to 15) and every native grammar is parseable.
#[verifier::external_body]
fn ts_parser_for(lang: &Language) -> tree_sitter::Parser
    requires
        language_supported(*lang),
{
    let grammar: GrammarHandle = get_tree_sitter_language(lang).unwrap();
    let mut parser = tree_sitter::Parser::new();
    parser.set_language(&grammar).unwrap();
    parser
}

/// The concrete syntax tree the grammar engine produces for a text under a
/// language's grammar, as a plain node model, or nothing when the engine
/// yields no tree; what `Parser::parse` returns, named rather than spelled
/// out. A fresh parse with no edits, cancellation or timeout is a function of
/// the language and the text alone.
pub uninterp spec fn parse_model_of(lang: Language, content: Seq<char>) -> Option<NodeModel>;

/// Text sanity of a node tree against the bytes it was parsed from: every
/// node's verbatim text is the content at its byte span.
pub open spec fn node_text_within(n: NodeModel, bytes: Seq<u8>) -> bool
    decreases n, 0int,
{
    &&& encode_utf8(n.text) == bytes.subrange(n.start_byte as int, n.end_byte as int)
    &&& text_within_from(n.children, bytes, 0)
}

/// Text sanity of every node of a sequence from index `i` on.
pub open spec fn text_within_from(s: Seq<NodeModel>, bytes: Seq<u8>, i: int) -> bool
    decreases s, s.len() - i, 1int,
{
    if i < 0 || i >= s.len() {
        true
    } else {
        node_text_within(s[i], bytes) && text_within_from(s, bytes, i + 1)
    }
}

/// Relies on `Parser::parse`: parses UTF-8 text into a concrete syntax tree.
/// The pool keeps `parsers` and `tags` in step, and every pooled parser was
/// bound by `ts_parser_for` to the grammar of its tag — nothing else touches
/// the two vectors — so the parse at `idx` is the engine's parse of `content`
/// under the grammar of `tags[idx]`, deterministic in the tag and the text
/// alone, named `parse_model_of`. The copied nodes carry ordered spans that
/// lie within the parsed text (the engine reports positions inside its input,
/// in 32 bits), and each node's text is the content at its span (the engine
/// lexes whole characters, so spans fall on character boundaries).
#[verifier::external_body]
fn ts_parse_at(
    parsers: &mut Vec<tree_sitter::Parser>,
    tags: &Vec<Language>,
    idx: usize,
    content: &str,
) -> (r: Option<(tree_sitter::Tree, SyntaxNode)>)
    requires
        idx < old(parsers)@.len(),
        idx < tags@.len(),
    ensures
        final(parsers)@.len() == old(parsers)@.len(),
        r is Some <==> parse_model_of(tags@[idx as int], content@) is Some,
        r matches Some(t) ==> parse_model_of(tags@[idx as int], content@) == Some(node_view(t.1))
            && node_rows_ok(node_view(t.1)) && node_spans_within(
            node_view(t.1),
            content.spec_bytes().len(),
        ) && node_text_within(node_view(t.1), content.spec_bytes()),
{
    match parsers[idx].parse(content, None) {
        Some(tree) => {
            let root = convert_node(tree.root_node(), content);
            Some((tree, root))
        },
        None => None,
    }
}

/// A per-traversal cache of parser instances, one per language bound so far.
/// The pool tracks alongside each parser the language tag its grammar serves,
/// so a lookup never asks the engine.
pub struct ParserPool {
    parsers: Vec<tree_sitter::Parser>,
    tags: Vec<Language>,
}

impl ParserPool {
    /// One parser per tag, in step; only supported languages are bound, and
    /// no language is bound twice.
    pub closed spec fn wf(&self) -> bool {
        &&& self.tags@.len() == self.parsers@.len()
        &&& forall|i: int| 0 <= i < self.tags@.len() ==> language_supported(#[trigger] self.tags@[i])
        &&& forall|i: int, j: int|
            0 <= i < j < self.tags@.len() ==> self.tags@[i] != self.tags@[j]
    }

    /// The language tags of the pooled parsers, in creation order.
    pub closed spec fn tags_view(&self) -> Seq<Language> {
        self.tags@
    }

    /// An empty pool.
    pub fn new() -> (r: ParserPool)
        ensures
            r.wf(),
            r.tags_view() == Seq::<Language>::empty(),
    {
        ParserPool { parsers: Vec::new(), tags: Vec::new() }
    }

    /// Finds the pooled parser bound to `lang`, creating and binding one on
    /// the language's first use; returns its index. An already-pooled
    /// language is reused, never bound again. Fails, with the
    /// unsupported-language error, exactly when no grammar exists for `lang`.
    pub fn acquire(&mut self, lang: Language) -> (r: Result<usize, Error>)
        requires
            old(self).wf(),
        ensures
            final(self).wf(),
            r is Ok <==> language_supported(lang),
            r matches Ok(i) ==> i < final(self).tags_view().len() && final(self).tags_view()[i as int] == lang,
            old(self).tags_view().contains(lang) ==> final(self).tags_view() == old(self).tags_view(),
            r is Ok && !old(self).tags_view().contains(lang) ==> final(self).tags_view() == old(self).tags_view().push(lang),
            r is Err ==> final(self).tags_view() == old(self).tags_view(),
            r matches Err(e) ==> e matches Error::UnsupportedLanguage(m) && m@ == crate::languages::language_variant_name(lang),
    {
        let mut i: usize = 0;
        while i < self.tags.len()
            invariant
                self.wf(),
                i <= self.tags@.len(),
                forall|k: int| 0 <= k < i ==> self.tags@[k] != lang,
            decreases self.tags@.len() - i,
        {
            if self.tags[i] == lang {
                return Ok(i);
            }
            i += 1;
        }
        proof {
            assert(!self.tags@.contains(lang));
        }
        match get_tree_sitter_language(&lang) {
            Ok(_) => (),
            Err(e) => {
                return Err(e);
            },
        }
        let parser: tree_sitter::Parser = ts_parser_for(&lang);
        let ghost old_tags = self.tags@;
        self.parsers.push(parser);
        self.tags.push(lang);
        proof {
            assert forall|a: int, b: int| 0 <= a < b < self.tags@.len() implies self.tags@[a]
                != self.tags@[b] by {
                if b == old_tags.len() {
                    assert(self.tags@[a] == old_tags[a]);
                } else {
                    assert(self.tags@[a] == old_tags[a]);
                    assert(self.tags@[b] == old_tags[b]);
                }
            }
        }
        Ok(self.tags.len() - 1)
    }

    /// Parses `content` with the pooled parser at `idx`. Returns the engine's
    /// tree together with its plain copy: the engine's parse of `content`
    /// under the grammar of the language tagged at `idx`, whose spans and
    /// texts lie within `content`.
    pub fn parse_at(&mut self, idx: usize, content: &str) -> (r: Option<
        (tree_sitter::Tree, SyntaxNode),
    >)
        requires
            old(self).wf(),
            idx < old(self).tags_view().len(),
        ensures
            final(self).wf(),
            final(self).tags_view() == old(self).tags_view(),
            r is Some <==> parse_model_of(old(self).tags_view()[idx as int], content@) is Some,
            r matches Some(t) ==> parse_model_of(old(self).tags_view()[idx as int], content@)
                == Some(node_view(t.1)) && node_rows_ok(node_view(t.1)) && node_spans_within(
                node_view(t.1),
                content.spec_bytes().len(),
            ) && node_text_within(node_view(t.1), content.spec_bytes()),
    {
        let tags = &self.tags;
        ts_parse_at(&mut self.parsers, tags, idx, content)
    }
}

/// The model of the construct a node materialises into, before its children
/// are attached: the node's kind, its best-effort name (the text of its first
/// direct child of kind `identifier` or `name`), its verbatim text, 1-based
/// lines, byte span, the enclosing construct, and empty metadata.
pub open spec fn make_shell(n: NodeModel, parent: Option<ConstructModel>) -> ConstructModel {
    ConstructModel {
        node_type: n.kind,
        name: child_name_from(n.children, 0),
        source_code: n.text,
        start_line: n.start_row + 1,
        end_line: n.end_row + 1,
        start_byte: n.start_byte,
        end_byte: n.end_byte,
        parent: match parent {
            Option::None => Option::None,
            Option::Some(p) => Option::Some(Box::new(p)),
        },
        children: Seq::empty(),
        metadata: empty_metadata_model(),
    }
}

/// The text of the first node of kind `identifier` or `name` from index `i` on.
pub open spec fn child_name_from(s: Seq<NodeModel>, i: int) -> Option<Seq<char>>
    decreases s.len() - i,
{
    if i < 0 || i >= s.len() {
        Option::None
    } else if s[i].kind == "identifier"@ || s[i].kind == "name"@ {
        Option::Some(s[i].text)
    } else {
        child_name_from(s, i + 1)
    }
}

/// The construct hierarchy one node yields: an allow-listed node materialises
/// one construct whose children come from its subtree, and every other node
/// passes through transparently, handing its children to the same enclosure.
pub open spec fn hier_node(n: NodeModel, lang: Language, parent: Option<ConstructModel>) -> Seq<
    ConstructModel,
>
    decreases n, 0int, 0int,
{
    if kind_allowed(lang, n.kind) {
        let shell = make_shell(n, parent);
        let kids = hier_seq(n.children, lang, Option::Some(shell), 0);
        seq![ConstructModel { children: kids, ..shell }]
    } else {
        hier_seq(n.children, lang, parent, 0)
    }
}

/// The construct hierarchies of the nodes of `s` from index `i` on, in order.
pub open spec fn hier_seq(
    s: Seq<NodeModel>,
    lang: Language,
    parent: Option<ConstructModel>,
    i: int,
) -> Seq<ConstructModel>
    decreases s, s.len() - i, 1int,
{
    if i < 0 || i >= s.len() {
        Seq::empty()
    } else {
        hier_node(s[i], lang, parent) + hier_seq(s, lang, parent, i + 1)
    }
}

/// The flattening of one construct: the construct itself, immediately
/// followed by the flattening of its children.
pub open spec fn flatten_one(c: ConstructModel) -> Seq<ConstructModel>
    decreases c, 0int,
{
    seq![c] + flatten_models(c.children, 0)
}

/// The flattening of the constructs of `s` from index `i` on, in order.
pub open spec fn flatten_models(s: Seq<ConstructModel>, i: int) -> Seq<ConstructModel>
    decreases s, s.len() - i, 1int,
{
    if i < 0 || i >= s.len() {
        Seq::empty()
    } else {
        flatten_one(s[i]) + flatten_models(s, i + 1)
    }
}

/// How many allow-listed nodes a node's subtree holds.
pub open spec fn count_allowed(n: NodeModel, lang: Language) -> nat
    decreases n, 0int, 0int,
{
    (if kind_allowed(lang, n.kind) {
        1nat
    } else {
        0nat
    }) + count_allowed_seq(n.children, lang, 0)
}

/// How many allow-listed nodes the subtrees of `s` hold, from index `i` on.
pub open spec fn count_allowed_seq(s: Seq<NodeModel>, lang: Language, i: int) -> nat
    decreases s, s.len() - i, 1int,
{
    if i < 0 || i >= s.len() {
        0nat
    } else {
        count_allowed(s[i], lang) + count_allowed_seq(s, lang, i + 1)
    }
}

/// The view of a construct an extraction step passes down as the enclosure.
pub open spec fn parent_view(p: Option<&CodeConstruct>) -> Option<ConstructModel> {
    match p {
        Option::None => Option::None,
        Option::Some(c) => Option::Some(cc_view(*c)),
    }
}

/// Row sanity holds at each member of a row-sane suffix.
proof fn lemma_rows_ok_at(s: Seq<NodeModel>, i: int, j: int)
    requires
        rows_ok_from(s, i),
        0 <= i <= j < s.len(),
    ensures
        node_rows_ok(s[j]),
    decreases j - i,
{
    if i < j {
        lemma_rows_ok_at(s, i + 1, j);
    }
}

/// Whether `v` holds a string whose characters equal `s`.
fn contains_string(v: &Vec<String>, s: &str) -> (r: bool)
    ensures
        r == v.deep_view().contains(s@),
{
    let mut i: usize = 0;
    while i < v.len()
        invariant
            i <= v@.len(),
            forall|j: int| 0 <= j < i ==> v.deep_view()[j] != s@,
        decreases v@.len() - i,
    {
        if str_eq(v[i].as_str(), s) {
            assert(v.deep_view()[i as int] == s@);
            return true;
        }
        i += 1;
    }
    assert(forall|j: int| 0 <= j < v.deep_view().len() ==> v.deep_view()[j] != s@);
    false
}

/// An empty metadata record for a node; nothing is collected for any
/// language at present.
pub fn extract_metadata(node: &SyntaxNode, language: &Language) -> (r: ConstructMetadata)
    ensures
        md_view(r) == empty_metadata_model(),
{
    let r = ConstructMetadata {
        visibility: Option::None,
        modifiers: Vec::new(),
        parameters: Vec::new(),
        return_type: Option::None,
        inheritance: Vec::new(),
        annotations: Vec::new(),
        documentation: Option::None,
    };
    proof {
        assert(md_view(r) =~= empty_metadata_model());
    }
    r
}

/// The text of the first direct child of kind `identifier` or `name`, if any.
fn find_child_name(children: &Vec<SyntaxNode>) -> (r: Option<String>)
    ensures
        opt_str_view(r) == child_name_from(node_seq_view(children@, 0), 0),
{
    let ghost ms = node_seq_view(children@, 0);
    proof {
        lemma_node_seq_view(children@, 0);
    }
    let mut i: usize = 0;
    while i < children.len()
        invariant
            ms == node_seq_view(children@, 0),
            ms.len() == children@.len(),
            forall|j: int| 0 <= j < ms.len() ==> ms[j] == node_view(children@[j]),
            i <= children@.len(),
            child_name_from(ms, 0) == child_name_from(ms, i as int),
        decreases children@.len() - i,
    {
        let kind: &str = children[i].kind.as_str();
        if str_eq(kind, "identifier") || str_eq(kind, "name") {
            return Option::Some(children[i].text.clone());
        }
        i += 1;
    }
    Option::None
}

/// Materialises the construct of an allow-listed node, children not yet
/// attached: a shell holding the node's spans, name, text, and enclosure.
pub(crate) fn create_construct(node: &SyntaxNode, parent: Option<&CodeConstruct>) -> (r: CodeConstruct)
    requires
        node_rows_ok(node_view(*node)),
    ensures
        cc_view(r) == make_shell(node_view(*node), parent_view(parent)),
{
    let name: Option<String> = find_child_name(&node.children);
    let boxed_parent: Option<Box<CodeConstruct>> = match parent {
        Option::None => Option::None,
        Option::Some(p) => Option::Some(Box::new(clone_construct(p))),
    };
    let r = CodeConstruct {
        node_type: node.kind.clone(),
        name,
        source_code: node.text.clone(),
        start_line: node.start_row + 1,
        end_line: node.end_row + 1,
        start_byte: node.start_byte,
        end_byte: node.end_byte,
        parent: boxed_parent,
        children: Vec::new(),
        metadata: extract_metadata(node, &Language::Python),
    };
    proof {
        assert(cc_seq_view(r.children@, 0) =~= Seq::<ConstructModel>::empty());
        assert(cc_view(r) =~= make_shell(node_view(*node), parent_view(parent)));
    }
    r
}

/// Walks one node: an allow-listed node materialises a construct, collects
/// its subtree's constructs as children, and is appended to `constructs`;
/// any other node hands its children to the same enclosure.
fn extract_hierarchical(
    node: &SyntaxNode,
    lang: Language,
    kinds: &Vec<String>,
    constructs: &mut Vec<CodeConstruct>,
    parent: Option<&CodeConstruct>,
)
    requires
        node_rows_ok(node_view(*node)),
        kinds.deep_view() == allowed_kinds(lang),
    ensures
        cc_seq_view(final(constructs)@, 0) =~= cc_seq_view(old(constructs)@, 0) + hier_node(
            node_view(*node),
            lang,
            parent_view(parent),
        ),
    decreases *node,
{
    let ghost nm = node_view(*node);
    let ghost ms = node_seq_view(node.children@, 0);
    proof {
        lemma_node_seq_view(node.children@, 0);
    }
    let allowed: bool = contains_string(kinds, node.kind.as_str());
    if allowed {
        let mut construct: CodeConstruct = create_construct(node, parent);
        let ghost shell = make_shell(nm, parent_view(parent));
        let mut child_out: Vec<CodeConstruct> = Vec::new();
        let mut i: usize = 0;
        while i < node.children.len()
            invariant
                node_rows_ok(nm),
                nm == node_view(*node),
                ms == node_seq_view(node.children@, 0),
                ms.len() == node.children@.len(),
                forall|j: int| 0 <= j < ms.len() ==> ms[j] == node_view(node.children@[j]),
                kinds.deep_view() == allowed_kinds(lang),
                cc_view(construct) == shell,
                i <= node.children@.len(),
                cc_seq_view(child_out@, 0) + hier_seq(nm.children, lang, Option::Some(shell), i as int)
                    =~= hier_seq(nm.children, lang, Option::Some(shell), 0),
            decreases node.children@.len() - i,
        {
            proof {
                lemma_rows_ok_at(nm.children, 0, i as int);
            }
            let ghost before = cc_seq_view(child_out@, 0);
            extract_hierarchical(&node.children[i], lang, kinds, &mut child_out, Option::Some(&construct));
            proof {
                assert(hier_seq(nm.children, lang, Option::Some(shell), i as int) == hier_node(
                    nm.children[i as int],
                    lang,
                    Option::Some(shell),
                ) + hier_seq(nm.children, lang, Option::Some(shell), i + 1));
                assert(cc_seq_view(child_out@, 0) + hier_seq(nm.children, lang, Option::Some(shell), i + 1)
                    =~= hier_seq(nm.children, lang, Option::Some(shell), 0));
            }
            i += 1;
        }
        proof {
            assert(hier_seq(nm.children, lang, Option::Some(shell), ms.len() as int)
                == Seq::<ConstructModel>::empty());
            assert(cc_seq_view(child_out@, 0) + Seq::<ConstructModel>::empty() =~= cc_seq_view(
                child_out@,
                0,
            ));
            assert(cc_seq_view(child_out@, 0) =~= hier_seq(nm.children, lang, Option::Some(shell), 0));
        }
        construct.children = child_out;
        proof {
            assert(cc_view(construct) =~= (ConstructModel {
                children: hier_seq(nm.children, lang, Option::Some(shell), 0),
                ..shell
            }));
        }
        let ghost before_push = constructs@;
        constructs.push(construct);
        proof {
            lemma_cc_seq_view_push(before_push, construct);
            assert(cc_seq_view(constructs@, 0) =~= cc_seq_view(old(constructs)@, 0) + hier_node(
                nm,
                lang,
                parent_view(parent),
            ));
        }
    } else {
        let mut i: usize = 0;
        while i < node.children.len()
            invariant
                node_rows_ok(nm),
                nm == node_view(*node),
                ms == node_seq_view(node.children@, 0),
                ms.len() == node.children@.len(),
                forall|j: int| 0 <= j < ms.len() ==> ms[j] == node_view(node.children@[j]),
                kinds.deep_view() == allowed_kinds(lang),
                i <= node.children@.len(),
                cc_seq_view(constructs@, 0) + hier_seq(nm.children, lang, parent_view(parent), i as int)
                    =~= cc_seq_view(old(constructs)@, 0) + hier_seq(nm.children, lang, parent_view(parent), 0),
                parent_view(parent) == match parent {
                    Option::None => Option::<ConstructModel>::None,
                    Option::Some(c) => Option::Some(cc_view(*c)),
                },
            decreases node.children@.len() - i,
        {
            proof {
                lemma_rows_ok_at(nm.children, 0, i as int);
            }
            extract_hierarchical(&node.children[i], lang, kinds, constructs, parent);
            proof {
                assert(hier_seq(nm.children, lang, parent_view(parent), i as int) == hier_node(
                    nm.children[i as int],
                    lang,
                    parent_view(parent),
                ) + hier_seq(nm.children, lang, parent_view(parent), i + 1));
                assert(cc_seq_view(constructs@, 0) + hier_seq(nm.children, lang, parent_view(parent), i + 1)
                    =~= cc_seq_view(old(constructs)@, 0) + hier_seq(
                    nm.children,
                    lang,
                    parent_view(parent),
                    0,
                ));
            }
            i += 1;
        }
        proof {
            assert(hier_seq(nm.children, lang, parent_view(parent), ms.len() as int)
                == Seq::<ConstructModel>::empty());
            assert(cc_seq_view(constructs@, 0) + Seq::<ConstructModel>::empty() =~= cc_seq_view(
                constructs@,
                0,
            ));
        }
    }
}

/// Emits each construct of `constructs`, in order, immediately followed by
/// its children, appending to `flattened`.
pub fn flatten_constructs(constructs: &Vec<CodeConstruct>, flattened: &mut Vec<CodeConstruct>)
    ensures
        cc_seq_view(final(flattened)@, 0) =~= cc_seq_view(old(flattened)@, 0) + flatten_models(
            cc_seq_view(constructs@, 0),
            0,
        ),
    decreases constructs@,
{
    let ghost cms = cc_seq_view(constructs@, 0);
    proof {
        lemma_cc_seq_view(constructs@, 0);
    }
    let mut i: usize = 0;
    while i < constructs.len()
        invariant
            cms == cc_seq_view(constructs@, 0),
            cms.len() == constructs@.len(),
            forall|j: int| 0 <= j < cms.len() ==> cms[j] == cc_view(constructs@[j]),
            i <= constructs@.len(),
            cc_seq_view(flattened@, 0) + flatten_models(cms, i as int) =~= cc_seq_view(
                old(flattened)@,
                0,
            ) + flatten_models(cms, 0),
        decreases constructs@.len() - i,
    {
        let c: &CodeConstruct = &constructs[i];
        let ghost before_push = flattened@;
        let copy: CodeConstruct = clone_construct(c);
        flattened.push(copy);
        proof {
            lemma_cc_seq_view_push(before_push, copy);
        }
        flatten_constructs(&c.children, flattened);
        proof {
            assert(flatten_models(cms, i as int) == flatten_one(cms[i as int]) + flatten_models(
                cms,
                i + 1,
            ));
            assert(flatten_one(cms[i as int]) == seq![cms[i as int]] + flatten_models(
                cms[i as int].children,
                0,
            ));
            assert(cms[i as int].children == cc_seq_view(c.children@, 0));
            assert(cc_seq_view(flattened@, 0) + flatten_models(cms, i + 1) =~= cc_seq_view(
                old(flattened)@,
                0,
            ) + flatten_models(cms, 0));
        }
        i += 1;
    }
    proof {
        assert(flatten_models(cms, cms.len() as int) == Seq::<ConstructModel>::empty());
        assert(cc_seq_view(flattened@, 0) + Seq::<ConstructModel>::empty() =~= cc_seq_view(
            flattened@,
            0,
        ));
    }
}

/// Extracts the ordered, duplicate-free flattened construct list of one
/// syntax tree: the hierarchy is built over the allow-listed nodes, then
/// emitted in pre-order, each construct exactly once.
pub fn extract_constructs(root: &SyntaxNode, language: &Language) -> (r: Vec<CodeConstruct>)
    requires
        node_rows_ok(node_view(*root)),
    ensures
        cc_seq_view(r@, 0) =~= flatten_models(
            hier_node(node_view(*root), *language, Option::None),
            0,
        ),
        r@.len() == count_allowed(node_view(*root), *language),
{
    let kinds: Vec<String> = get_supported_node_types(language);
    let mut roots: Vec<CodeConstruct> = Vec::new();
    extract_hierarchical(root, *language, &kinds, &mut roots, Option::None);
    proof {
        assert(Seq::<ConstructModel>::empty() + hier_node(node_view(*root), *language, Option::None)
            =~= hier_node(node_view(*root), *language, Option::None));
    }
    let mut flattened: Vec<CodeConstruct> = Vec::new();
    flatten_constructs(&roots, &mut flattened);
    proof {
        assert(Seq::<ConstructModel>::empty() + flatten_models(cc_seq_view(roots@, 0), 0)
            =~= flatten_models(cc_seq_view(roots@, 0), 0));
        lemma_flatten_count(node_view(*root), *language, Option::None);
        lemma_cc_seq_view(flattened@, 0);
    }
    flattened
}

/// Flattening a suffix starting past a concatenation's first part flattens
/// the corresponding suffix of the second part.
proof fn lemma_flatten_offset(a: Seq<ConstructModel>, b: Seq<ConstructModel>, j: int)
    requires
        0 <= j <= b.len(),
    ensures
        flatten_models(a + b, a.len() + j) =~= flatten_models(b, j),
    decreases b.len() - j,
{
    if j == b.len() {
        assert(flatten_models(a + b, a.len() + j) == Seq::<ConstructModel>::empty());
    } else {
        assert((a + b)[a.len() + j] == b[j]);
        lemma_flatten_offset(a, b, j + 1);
        assert(a.len() + j + 1 == a.len() + (j + 1));
    }
}

/// Flattening distributes over concatenation.
proof fn lemma_flatten_concat(a: Seq<ConstructModel>, b: Seq<ConstructModel>, i: int)
    requires
        0 <= i <= a.len(),
    ensures
        flatten_models(a + b, i) =~= flatten_models(a, i) + flatten_models(b, 0),
    decreases a.len() - i,
{
    if i == a.len() {
        lemma_flatten_offset(a, b, 0);
        assert(flatten_models(a, i) == Seq::<ConstructModel>::empty());
        assert(Seq::<ConstructModel>::empty() + flatten_models(b, 0) =~= flatten_models(b, 0));
        assert(a.len() + 0 == i);
    } else {
        lemma_flatten_concat(a, b, i + 1);
        assert((a + b)[i] == a[i]);
        assert(flatten_one(a[i]) + (flatten_models(a, i + 1) + flatten_models(b, 0)) =~= (
        flatten_one(a[i]) + flatten_models(a, i + 1)) + flatten_models(b, 0));
    }
}

/// Every construct flattens to at least itself.
proof fn lemma_flatten_lower(s: Seq<ConstructModel>, i: int)
    requires
        0 <= i <= s.len(),
    ensures
        flatten_models(s, i).len() >= s.len() - i,
    decreases s.len() - i,
{
    if i < s.len() {
        lemma_flatten_lower(s, i + 1);
        assert(flatten_models(s, i) == flatten_one(s[i]) + flatten_models(s, i + 1));
        assert(flatten_one(s[i]) == seq![s[i]] + flatten_models(s[i].children, 0));
        assert(flatten_one(s[i]).len() >= 1);
    }
}

/// Flattening is duplicate-free in count: the flattened list of the hierarchy
/// one node yields has exactly one entry per allow-listed node of the node's
/// subtree, whatever the enclosure.
pub proof fn lemma_flatten_count(n: NodeModel, lang: Language, parent: Option<ConstructModel>)
    ensures
        flatten_models(hier_node(n, lang, parent), 0).len() == count_allowed(n, lang),
    decreases n, 0int, 0int,
{
    if kind_allowed(lang, n.kind) {
        let shell = make_shell(n, parent);
        let kids = hier_seq(n.children, lang, Option::Some(shell), 0);
        let cm = ConstructModel { children: kids, ..shell };
        let h = hier_node(n, lang, parent);
        assert(h == seq![cm]);
        assert(flatten_models(h, 0) == flatten_one(h[0]) + flatten_models(h, 1));
        assert(flatten_models(h, 1) == Seq::<ConstructModel>::empty());
        assert(flatten_one(cm) == seq![cm] + flatten_models(kids, 0));
        lemma_flatten_count_seq(n.children, lang, Option::Some(shell), 0);
        assert(flatten_models(h, 0).len() == 1 + flatten_models(kids, 0).len());
    } else {
        lemma_flatten_count_seq(n.children, lang, parent, 0);
    }
}

/// The sequence form of `lemma_flatten_count`, over nodes from index `i` on.
pub proof fn lemma_flatten_count_seq(
    s: Seq<NodeModel>,
    lang: Language,
    parent: Option<ConstructModel>,
    i: int,
)
    requires
        0 <= i,
    ensures
        flatten_models(hier_seq(s, lang, parent, i), 0).len() == count_allowed_seq(s, lang, i),
    decreases s, s.len() - i, 1int,
{
    if i < s.len() {
        lemma_flatten_count(s[i], lang, parent);
        lemma_flatten_count_seq(s, lang, parent, i + 1);
        lemma_flatten_concat(
            hier_node(s[i], lang, parent),
            hier_seq(s, lang, parent, i + 1),
            0,
        );
    }
}

/// The boxed form of an optional enclosing construct, as a shell stores it.
pub open spec fn boxed_parent(p: Option<ConstructModel>) -> Option<Box<ConstructModel>> {
    match p {
        Option::None => Option::None,
        Option::Some(x) => Option::Some(Box::new(x)),
    }
}

/// Every construct at the top level of the hierarchy one node yields carries
/// the enclosure it was built under as its parent, and an allow-listed kind.
pub proof fn lemma_hier_node_top(n: NodeModel, lang: Language, p: Option<ConstructModel>)
    ensures
        forall|k: int|
            0 <= k < hier_node(n, lang, p).len() ==> (#[trigger] hier_node(n, lang, p)[k]).parent
                == boxed_parent(p) && kind_allowed(lang, hier_node(n, lang, p)[k].node_type),
    decreases n, 0int, 0int,
{
    if kind_allowed(lang, n.kind) {
    } else {
        lemma_hier_seq_top(n.children, lang, p, 0);
    }
}

/// The sequence form of `lemma_hier_node_top`, over nodes from index `i` on.
pub proof fn lemma_hier_seq_top(
    s: Seq<NodeModel>,
    lang: Language,
    p: Option<ConstructModel>,
    i: int,
)
    requires
        0 <= i,
    ensures
        forall|k: int|
            0 <= k < hier_seq(s, lang, p, i).len() ==> (#[trigger] hier_seq(s, lang, p, i)[k]).parent
                == boxed_parent(p) && kind_allowed(lang, hier_seq(s, lang, p, i)[k].node_type),
    decreases s, s.len() - i, 1int,
{
    if 0 <= i < s.len() {
        lemma_hier_node_top(s[i], lang, p);
        lemma_hier_seq_top(s, lang, p, i + 1);
        let first = hier_node(s[i], lang, p);
        let rest = hier_seq(s, lang, p, i + 1);
        assert forall|k: int| 0 <= k < hier_seq(s, lang, p, i).len() implies (#[trigger] hier_seq(
            s,
            lang,
            p,
            i,
        )[k]).parent == boxed_parent(p) && kind_allowed(
            lang,
            hier_seq(s, lang, p, i)[k].node_type,
        ) by {
            if k < first.len() {
                assert(hier_seq(s, lang, p, i)[k] == first[k]);
            } else {
                assert(hier_seq(s, lang, p, i)[k] == rest[k - first.len()]);
            }
        }
    }
}

/// The data-model invariant of one extracted construct: its kind is
/// allow-listed for the language, its byte span is ordered and lies within
/// the file, its lines are 1-based and ordered, and its verbatim text is the
/// file content at its byte span.
pub open spec fn construct_invariant(c: ConstructModel, lang: Language, bytes: Seq<u8>) -> bool {
    &&& kind_allowed(lang, c.node_type)
    &&& c.start_byte <= c.end_byte <= bytes.len()
    &&& 1 <= c.start_line <= c.end_line
    &&& encode_utf8(c.source_code) == bytes.subrange(c.start_byte as int, c.end_byte as int)
}

/// The invariant holding of a construct and, recursively, of its children.
pub open spec fn construct_tree_invariant(c: ConstructModel, lang: Language, bytes: Seq<u8>) -> bool
    decreases c, 0int,
{
    &&& construct_invariant(c, lang, bytes)
    &&& constructs_tree_invariant(c.children, lang, bytes, 0)
}

/// The tree invariant over a sequence of constructs from index `i` on.
pub open spec fn constructs_tree_invariant(
    s: Seq<ConstructModel>,
    lang: Language,
    bytes: Seq<u8>,
    i: int,
) -> bool
    decreases s, s.len() - i, 1int,
{
    if i < 0 || i >= s.len() {
        true
    } else {
        construct_tree_invariant(s[i], lang, bytes) && constructs_tree_invariant(
            s,
            lang,
            bytes,
            i + 1,
        )
    }
}

/// Span sanity restated at one member of a sequence.
proof fn lemma_spans_within_at(s: Seq<NodeModel>, limit: nat, i: int, j: int)
    requires
        spans_within_from(s, limit, i),
        0 <= i <= j < s.len(),
    ensures
        node_spans_within(s[j], limit),
    decreases j - i,
{
    if i < j {
        lemma_spans_within_at(s, limit, i + 1, j);
    }
}

/// Text sanity restated at one member of a sequence.
proof fn lemma_text_within_at(s: Seq<NodeModel>, bytes: Seq<u8>, i: int, j: int)
    requires
        text_within_from(s, bytes, i),
        0 <= i <= j < s.len(),
    ensures
        node_text_within(s[j], bytes),
    decreases j - i,
{
    if i < j {
        lemma_text_within_at(s, bytes, i + 1, j);
    }
}

/// The tree invariant restated at one member of a sequence.
proof fn lemma_tree_invariant_at(
    s: Seq<ConstructModel>,
    lang: Language,
    bytes: Seq<u8>,
    i: int,
    j: int,
)
    requires
        constructs_tree_invariant(s, lang, bytes, i),
        0 <= i <= j < s.len(),
    ensures
        construct_tree_invariant(s[j], lang, bytes),
    decreases j - i,
{
    if i < j {
        lemma_tree_invariant_at(s, lang, bytes, i + 1, j);
    }
}

/// Every construct of the hierarchy a well-formed node yields satisfies the
/// tree invariant.
pub proof fn lemma_hier_invariant(
    n: NodeModel,
    lang: Language,
    parent: Option<ConstructModel>,
    bytes: Seq<u8>,
)
    requires
        node_rows_ok(n),
        node_spans_within(n, bytes.len()),
        node_text_within(n, bytes),
    ensures
        constructs_tree_invariant(hier_node(n, lang, parent), lang, bytes, 0),
    decreases n, 0int, 0int,
{
    if kind_allowed(lang, n.kind) {
        let shell = make_shell(n, parent);
        let kids = hier_seq(n.children, lang, Option::Some(shell), 0);
        let cm = ConstructModel { children: kids, ..shell };
        lemma_hier_seq_invariant(n.children, lang, Option::Some(shell), bytes, 0);
        let h = hier_node(n, lang, parent);
        assert(h == seq![cm]);
        assert(construct_invariant(cm, lang, bytes));
        assert(construct_tree_invariant(cm, lang, bytes));
        assert(constructs_tree_invariant(h, lang, bytes, 1));
        assert(constructs_tree_invariant(h, lang, bytes, 0));
    } else {
        lemma_hier_seq_invariant(n.children, lang, parent, bytes, 0);
    }
}

/// The sequence form of `lemma_hier_invariant`, over nodes from index `i` on.
pub proof fn lemma_hier_seq_invariant(
    s: Seq<NodeModel>,
    lang: Language,
    parent: Option<ConstructModel>,
    bytes: Seq<u8>,
    i: int,
)
    requires
        rows_ok_from(s, 0),
        spans_within_from(s, bytes.len(), 0),
        text_within_from(s, bytes, 0),
        0 <= i,
    ensures
        constructs_tree_invariant(hier_seq(s, lang, parent, i), lang, bytes, 0),
    decreases s, s.len() - i, 1int,
{
    if i < s.len() {
        lemma_rows_ok_at(s, 0, i);
        lemma_spans_within_at(s, bytes.len(), 0, i);
        lemma_text_within_at(s, bytes, 0, i);
        lemma_hier_invariant(s[i], lang, parent, bytes);
        lemma_hier_seq_invariant(s, lang, parent, bytes, i + 1);
        lemma_tree_invariant_concat(
            hier_node(s[i], lang, parent),
            hier_seq(s, lang, parent, i + 1),
            lang,
            bytes,
        );
    }
}

/// The tree invariant over a concatenation follows from the parts.
proof fn lemma_tree_invariant_concat(
    a: Seq<ConstructModel>,
    b: Seq<ConstructModel>,
    lang: Language,
    bytes: Seq<u8>,
)
    requires
        constructs_tree_invariant(a, lang, bytes, 0),
        constructs_tree_invariant(b, lang, bytes, 0),
    ensures
        constructs_tree_invariant(a + b, lang, bytes, 0),
{
    assert forall|j: int| 0 <= j < (a + b).len() implies construct_tree_invariant(
        #[trigger] (a + b)[j],
        lang,
        bytes,
    ) by {
        if j < a.len() {
            lemma_tree_invariant_at(a, lang, bytes, 0, j);
            assert((a + b)[j] == a[j]);
        } else {
            lemma_tree_invariant_at(b, lang, bytes, 0, j - a.len());
            assert((a + b)[j] == b[j - a.len()]);
        }
    }
    lemma_tree_invariant_members_rec(a + b, lang, bytes, 0);
}

/// A sequence whose members each satisfy the tree invariant satisfies it as
/// a sequence.
proof fn lemma_tree_invariant_members_rec(
    s: Seq<ConstructModel>,
    lang: Language,
    bytes: Seq<u8>,
    i: int,
)
    requires
        0 <= i <= s.len(),
        forall|j: int| i <= j < s.len() ==> construct_tree_invariant(#[trigger] s[j], lang, bytes),
    ensures
        constructs_tree_invariant(s, lang, bytes, i),
    decreases s.len() - i,
{
    if i < s.len() {
        lemma_tree_invariant_members_rec(s, lang, bytes, i + 1);
    }
}

/// Flattening keeps the invariant: every entry of the flattened list of an
/// invariant-satisfying construct sequence satisfies the plain invariant.
pub proof fn lemma_flatten_invariant(s: Seq<ConstructModel>, lang: Language, bytes: Seq<u8>, i: int)
    requires
        constructs_tree_invariant(s, lang, bytes, 0),
        0 <= i <= s.len(),
    ensures
        forall|k: int|
            0 <= k < flatten_models(s, i).len() ==> construct_invariant(
                #[trigger] flatten_models(s, i)[k],
                lang,
                bytes,
            ),
    decreases s, s.len() - i, 1int,
{
    if i < s.len() {
        lemma_tree_invariant_at(s, lang, bytes, 0, i);
        lemma_flatten_invariant(s[i].children, lang, bytes, 0);
        lemma_flatten_invariant(s, lang, bytes, i + 1);
        let first = flatten_one(s[i]);
        let rest = flatten_models(s, i + 1);
        assert(flatten_models(s, i) == first + rest);
        assert(first == seq![s[i]] + flatten_models(s[i].children, 0));
        assert forall|k: int| 0 <= k < flatten_models(s, i).len() implies construct_invariant(
            #[trigger] flatten_models(s, i)[k],
            lang,
            bytes,
        ) by {
            if k < first.len() {
                assert(flatten_models(s, i)[k] == first[k]);
                if k == 0 {
                    assert(first[0] == s[i]);
                } else {
                    assert(first[k] == flatten_models(s[i].children, 0)[k - 1]);
                }
            } else {
                assert(flatten_models(s, i)[k] == rest[k - first.len()]);
            }
        }
    }
}

/// The extraction invariant: every construct of the flattened list a
/// well-formed node yields has an allow-listed kind, an ordered byte span
/// within the parsed text, ordered 1-based lines, and as its verbatim text
/// exactly the parsed text at its byte span.
pub proof fn lemma_extraction_invariant(n: NodeModel, lang: Language, bytes: Seq<u8>)
    requires
        node_rows_ok(n),
        node_spans_within(n, bytes.len()),
        node_text_within(n, bytes),
    ensures
        forall|k: int|
            0 <= k < flatten_models(hier_node(n, lang, Option::None), 0).len()
                ==> construct_invariant(
                #[trigger] flatten_models(hier_node(n, lang, Option::None), 0)[k],
                lang,
                bytes,
            ),
{
    lemma_hier_invariant(n, lang, Option::None, bytes);
    lemma_flatten_invariant(hier_node(n, lang, Option::None), lang, bytes, 0);
}

/// The model of a construct with its children removed: the shell it was
/// materialised from, carrying its kind, name, text, spans and parent.
pub open spec fn shell_of(c: ConstructModel) -> ConstructModel {
    ConstructModel { children: Seq::empty(), ..c }
}

/// Local consistency of an extracted hierarchy: every directly nested
/// construct's parent reference is the shell of the construct it nests in,
/// recursively.
pub open spec fn hier_consistent(c: ConstructModel) -> bool
    decreases c, 0int,
{
    &&& forall|k: int|
        0 <= k < c.children.len() ==> (#[trigger] c.children[k]).parent == Option::Some(
            Box::new(shell_of(c)),
        )
    &&& hier_consistent_from(c.children, 0)
}

/// Local consistency of every construct of a sequence from index `i` on.
pub open spec fn hier_consistent_from(s: Seq<ConstructModel>, i: int) -> bool
    decreases s, s.len() - i, 1int,
{
    if i < 0 || i >= s.len() {
        true
    } else {
        hier_consistent(s[i]) && hier_consistent_from(s, i + 1)
    }
}

/// Local consistency restated at one member of a sequence.
proof fn lemma_consistent_at(s: Seq<ConstructModel>, i: int, j: int)
    requires
        hier_consistent_from(s, i),
        0 <= i <= j < s.len(),
    ensures
        hier_consistent(s[j]),
    decreases j - i,
{
    if i < j {
        lemma_consistent_at(s, i + 1, j);
    }
}

/// A sequence whose members are each locally consistent is so as a sequence.
proof fn lemma_consistent_members_rec(s: Seq<ConstructModel>, i: int)
    requires
        0 <= i <= s.len(),
        forall|j: int| i <= j < s.len() ==> hier_consistent(#[trigger] s[j]),
    ensures
        hier_consistent_from(s, i),
    decreases s.len() - i,
{
    if i < s.len() {
        lemma_consistent_members_rec(s, i + 1);
    }
}

/// Local consistency over a concatenation follows from the parts.
proof fn lemma_consistent_concat(a: Seq<ConstructModel>, b: Seq<ConstructModel>)
    requires
        hier_consistent_from(a, 0),
        hier_consistent_from(b, 0),
    ensures
        hier_consistent_from(a + b, 0),
{
    assert forall|j: int| 0 <= j < (a + b).len() implies hier_consistent(
        #[trigger] (a + b)[j],
    ) by {
        if j < a.len() {
            lemma_consistent_at(a, 0, j);
            assert((a + b)[j] == a[j]);
        } else {
            lemma_consistent_at(b, 0, j - a.len());
            assert((a + b)[j] == b[j - a.len()]);
        }
    }
    lemma_consistent_members_rec(a + b, 0);
}

/// Every construct of an extracted hierarchy is locally consistent: its
/// nested constructs carry its own shell as their parent reference.
pub proof fn lemma_hier_consistent(n: NodeModel, lang: Language, parent: Option<ConstructModel>)
    ensures
        hier_consistent_from(hier_node(n, lang, parent), 0),
    decreases n, 0int, 0int,
{
    if kind_allowed(lang, n.kind) {
        let shell = make_shell(n, parent);
        let kids = hier_seq(n.children, lang, Option::Some(shell), 0);
        let cm = ConstructModel { children: kids, ..shell };
        lemma_hier_seq_consistent(n.children, lang, Option::Some(shell), 0);
        lemma_hier_seq_top(n.children, lang, Option::Some(shell), 0);
        assert(shell_of(cm) =~= shell);
        assert(hier_consistent(cm));
        let h = hier_node(n, lang, parent);
        assert(h == seq![cm]);
        assert(hier_consistent_from(h, 1));
        assert(hier_consistent_from(h, 0));
    } else {
        lemma_hier_seq_consistent(n.children, lang, parent, 0);
    }
}

/// The sequence form of `lemma_hier_consistent`, over nodes from index `i` on.
pub proof fn lemma_hier_seq_consistent(
    s: Seq<NodeModel>,
    lang: Language,
    parent: Option<ConstructModel>,
    i: int,
)
    requires
        0 <= i,
    ensures
        hier_consistent_from(hier_seq(s, lang, parent, i), 0),
    decreases s, s.len() - i, 1int,
{
    if i < s.len() {
        lemma_hier_consistent(s[i], lang, parent);
        lemma_hier_seq_consistent(s, lang, parent, i + 1);
        lemma_consistent_concat(hier_node(s[i], lang, parent), hier_seq(s, lang, parent, i + 1));
    }
}

/// Flattening keeps local consistency: every entry of the flattened list of
/// a consistent construct sequence is itself consistent.
pub proof fn lemma_flatten_consistent(s: Seq<ConstructModel>, i: int)
    requires
        hier_consistent_from(s, 0),
        0 <= i <= s.len(),
    ensures
        forall|k: int|
            0 <= k < flatten_models(s, i).len() ==> hier_consistent(
                #[trigger] flatten_models(s, i)[k],
            ),
    decreases s, s.len() - i, 1int,
{
    if i < s.len() {
        lemma_consistent_at(s, 0, i);
        lemma_flatten_consistent(s[i].children, 0);
        lemma_flatten_consistent(s, i + 1);
        let first = flatten_one(s[i]);
        let rest = flatten_models(s, i + 1);
        assert(flatten_models(s, i) == first + rest);
        assert(first == seq![s[i]] + flatten_models(s[i].children, 0));
        assert forall|k: int| 0 <= k < flatten_models(s, i).len() implies hier_consistent(
            #[trigger] flatten_models(s, i)[k],
        ) by {
            if k < first.len() {
                assert(flatten_models(s, i)[k] == first[k]);
                if k == 0 {
                    assert(first[0] == s[i]);
                } else {
                    assert(first[k] == flatten_models(s[i].children, 0)[k - 1]);
                }
            } else {
                assert(flatten_models(s, i)[k] == rest[k - first.len()]);
            }
        }
    }
}

/// The parent law of the flattened list: every construct extraction emits —
/// however many structurally identical twins stand under different
/// enclosures — carries, in each of its nested constructs, its own shell as
/// the parent reference; two equal-looking constructs under different
/// enclosures thus point back at their respective enclosures.
pub proof fn lemma_extraction_parents(n: NodeModel, lang: Language)
    ensures
        forall|k: int|
            0 <= k < flatten_models(hier_node(n, lang, Option::None), 0).len() ==> hier_consistent(
                #[trigger] flatten_models(hier_node(n, lang, Option::None), 0)[k],
            ),
{
    lemma_hier_consistent(n, lang, Option::None);
    lemma_flatten_consistent(hier_node(n, lang, Option::None), 0);
}

/// One construct nested inside another, anywhere in the tree: when the tree
/// holds exactly two allow-listed nodes and its hierarchy has exactly one
/// top-level construct (the two are nested, not siblings), the flattened list
/// is exactly the outer construct followed by the inner one; the outer's
/// children list holds exactly the inner, and the inner's parent is the
/// outer's shell — carrying the outer's kind and name.
pub proof fn lemma_nested_pair(n: NodeModel, lang: Language)
    requires
        count_allowed(n, lang) == 2,
        hier_node(n, lang, Option::None).len() == 1,
    ensures
        ({
            let h = hier_node(n, lang, Option::None);
            let outer = h[0];
            let flat = flatten_models(h, 0);
            &&& flat.len() == 2
            &&& outer.children.len() == 1
            &&& flat =~= seq![outer, outer.children[0]]
            &&& outer.children[0].parent == Option::Some(Box::new(shell_of(outer)))
            &&& shell_of(outer).node_type == outer.node_type
            &&& shell_of(outer).name == outer.name
        }),
{
    let h = hier_node(n, lang, Option::None);
    let outer = h[0];
    let flat = flatten_models(h, 0);
    lemma_flatten_count(n, lang, Option::None);
    assert(flat == flatten_one(outer) + flatten_models(h, 1));
    assert(flatten_models(h, 1) == Seq::<ConstructModel>::empty());
    assert(flatten_one(outer) == seq![outer] + flatten_models(outer.children, 0));
    assert(flatten_models(outer.children, 0).len() == 1);
    lemma_flatten_lower(outer.children, 0);
    assert(outer.children.len() <= 1);
    if outer.children.len() == 0 {
        assert(flatten_models(outer.children, 0) == Seq::<ConstructModel>::empty());
        assert(false);
    }
    let inner = outer.children[0];
    assert(flatten_models(outer.children, 0) == flatten_one(inner) + flatten_models(
        outer.children,
        1,
    ));
    assert(flatten_models(outer.children, 1) == Seq::<ConstructModel>::empty());
    assert(flatten_one(inner) == seq![inner] + flatten_models(inner.children, 0));
    lemma_flatten_lower(inner.children, 0);
    assert(flatten_models(inner.children, 0).len() == 0);
    lemma_hier_consistent(n, lang, Option::None);
    lemma_consistent_at(h, 0, 0);
    assert(inner.parent == Option::Some(Box::new(shell_of(outer))));
    assert(flat =~= seq![outer, inner]);
}

/// The language-detection outcome a traversal uses for one file: the combined
/// strategy reads the content, every other configured strategy falls back to
/// the extension.
pub open spec fn detect_for_mode(
    mode: LanguageDetection,
    path: Seq<char>,
    content: Seq<char>,
) -> Option<Language> {
    match mode {
        LanguageDetection::Combined => combined_language(path, Option::Some(content)),
        _ => path_language(path),
    }
}

/// Parses `content` with the pooled parser at `idx` and assembles the file
/// record: path, file-name, language, flattened constructs, size, and the
/// retained tree when asked for. The constructs are exactly the extraction of
/// the engine's parse of `content` under `language`.
pub fn parse_with(
    pool: &mut ParserPool,
    idx: usize,
    file_path: &str,
    content: &str,
    language: Language,
    include_syntax_tree: bool,
) -> (r: Result<ParsedFile, Error>)
    requires
        old(pool).wf(),
        idx < old(pool).tags_view().len(),
        old(pool).tags_view()[idx as int] == language,
    ensures
        final(pool).wf(),
        final(pool).tags_view() == old(pool).tags_view(),
        r is Err <==> parse_model_of(language, content@) is None,
        r matches Err(e) ==> e matches Error::Parse(m) && m@ == "Failed to parse file"@,
        r matches Ok(f) ==> {
            &&& f.file_path@ == file_path@
            &&& f.relative_path@ == basename_chars(file_path@)
            &&& f.language == language
            &&& f.file_size_bytes == content.spec_bytes().len() as usize
            &&& (f.syntax_tree is Some <==> include_syntax_tree)
            &&& parse_model_of(language, content@) matches Some(m) && cc_seq_view(
                f.constructs@,
                0,
            ) == flatten_models(hier_node(m, language, Option::None), 0)
            &&& forall|k: int|
                0 <= k < cc_seq_view(f.constructs@, 0).len() ==> construct_invariant(
                    #[trigger] cc_seq_view(f.constructs@, 0)[k],
                    language,
                    content.spec_bytes(),
                )
        },
{
    let parsed: (tree_sitter::Tree, SyntaxNode) = match pool.parse_at(idx, content) {
        Option::Some(t) => t,
        Option::None => {
            return Err(Error::Parse(String::from_str("Failed to parse file")));
        },
    };
    let constructs: Vec<CodeConstruct> = extract_constructs(&parsed.1, &language);
    let relative_path: String = basename_of(file_path);
    let file_size_bytes: usize = content.len();
    let f = ParsedFile {
        file_path: file_path.to_owned(),
        relative_path,
        language,
        constructs,
        syntax_tree: if include_syntax_tree {
            Option::Some(parsed.0)
        } else {
            Option::None
        },
        file_size_bytes,
    };
    proof {
        let m = node_view(parsed.1);
        assert(parse_model_of(language, content@) == Some(m) && cc_seq_view(f.constructs@, 0)
            == flatten_models(hier_node(m, language, Option::None), 0));
        lemma_extraction_invariant(m, language, content.spec_bytes());
    }
    Ok(f)
}

/// Parses one file's content in a given language: finds or creates the
/// pooled parser for the language, parses, and extracts the flattened
/// constructs — exactly those of the engine's parse of the content. Fails
/// with the unsupported-language error when no grammar exists, and with a
/// parse error exactly when the engine yields no tree.
pub fn parse_source(
    pool: &mut ParserPool,
    file_path: &str,
    content: &str,
    language: Language,
    include_syntax_tree: bool,
) -> (r: Result<ParsedFile, Error>)
    requires
        old(pool).wf(),
    ensures
        final(pool).wf(),
        r is Ok <==> language_supported(language) && parse_model_of(language, content@) is Some,
        r matches Err(e) ==> (e matches Error::UnsupportedLanguage(m) && !language_supported(
            language,
        ) && m@ == crate::languages::language_variant_name(language)) || (e matches Error::Parse(m)
            && language_supported(language) && m@ == "Failed to parse file"@ && parse_model_of(
            language,
            content@,
        ) is None),
        r matches Ok(f) ==> {
            &&& f.file_path@ == file_path@
            &&& f.relative_path@ == basename_chars(file_path@)
            &&& f.language == language
            &&& f.file_size_bytes == content.spec_bytes().len() as usize
            &&& (f.syntax_tree is Some <==> include_syntax_tree)
            &&& parse_model_of(language, content@) matches Some(m) && cc_seq_view(
                f.constructs@,
                0,
            ) == flatten_models(hier_node(m, language, Option::None), 0)
            &&& forall|k: int|
                0 <= k < cc_seq_view(f.constructs@, 0).len() ==> construct_invariant(
                    #[trigger] cc_seq_view(f.constructs@, 0)[k],
                    language,
                    content.spec_bytes(),
                )
        },
{
    let idx: usize = match pool.acquire(language) {
        Ok(i) => i,
        Err(e) => {
            return Err(e);
        },
    };
    parse_with(pool, idx, file_path, content, language, include_syntax_tree)
}

/// Processes one file of a traversal: detects the language under the
/// configured strategy, acquires a pooled parser, parses, and extracts; every
/// failure becomes a file error, tagged by its kind, that does not stop the
/// traversal.
pub fn process_file(
    pool: &mut ParserPool,
    file_path: &str,
    content: &str,
    options: &ParseOptions,
    include_syntax_tree: bool,
) -> (r: Result<ParsedFile, FileError>)
    requires
        old(pool).wf(),
    ensures
        final(pool).wf(),
        ({
            let det = detect_for_mode(options.language_detection, file_path@, content@);
            &&& (det is None ==> (r matches Err(fe) && fe.error_type
                == ErrorType::UnsupportedLanguage && fe.file_path@ == file_path@ && fe.message@
                == "Could not detect language"@))
            &&& (det matches Some(lang) ==> {
                &&& (r is Ok <==> language_supported(lang) && parse_model_of(
                    lang,
                    content@,
                ) is Some)
                &&& (!language_supported(lang) ==> (r matches Err(fe) && fe.error_type
                    == ErrorType::UnsupportedLanguage && fe.file_path@ == file_path@
                    && fe.message@ == "Failed to get a suitable parser"@))
                &&& (language_supported(lang) && parse_model_of(lang, content@) is None ==> (
                r matches Err(fe) && fe.error_type == ErrorType::ParseError && fe.file_path@
                    == file_path@ && fe.message@ == "Parse error: Failed to parse file"@))
                &&& (r matches Ok(f) ==> {
                    &&& f.language == lang
                    &&& f.file_path@ == file_path@
                    &&& f.relative_path@ == basename_chars(file_path@)
                    &&& f.file_size_bytes == content.spec_bytes().len() as usize
                    &&& (f.syntax_tree is Some <==> include_syntax_tree)
                    &&& parse_model_of(lang, content@) matches Some(m) && cc_seq_view(
                        f.constructs@,
                        0,
                    ) == flatten_models(hier_node(m, lang, Option::None), 0)
                    &&& forall|k: int|
                        0 <= k < cc_seq_view(f.constructs@, 0).len() ==> construct_invariant(
                            #[trigger] cc_seq_view(f.constructs@, 0)[k],
                            lang,
                            content.spec_bytes(),
                        )
                })
            })
        }),
{
    let language: Option<Language> = match options.language_detection {
        LanguageDetection::ByExtension => detect_language_by_extension(file_path),
        LanguageDetection::Combined => detect_language(file_path, Option::Some(content)),
        _ => detect_language_by_extension(file_path),
    };
    match language {
        Option::None => Err(
            FileError {
                file_path: file_path.to_owned(),
                error_type: ErrorType::UnsupportedLanguage,
                message: String::from_str("Could not detect language"),
            },
        ),
        Option::Some(lang) => {
            let idx: usize = match pool.acquire(lang) {
                Ok(i) => i,
                Err(_) => {
                    return Err(
                        FileError {
                            file_path: file_path.to_owned(),
                            error_type: ErrorType::UnsupportedLanguage,
                            message: String::from_str("Failed to get a suitable parser"),
                        },
                    );
                },
            };
            match parse_with(pool, idx, file_path, content, lang, include_syntax_tree) {
                Ok(f) => Ok(f),
                Err(e) => {
                    proof {
                        reveal_strlit("Parse error: ");
                        reveal_strlit("Failed to parse file");
                        reveal_strlit("Parse error: Failed to parse file");
                        assert("Parse error: "@ + "Failed to parse file"@
                            =~= "Parse error: Failed to parse file"@);
                    }
                    Err(
                        FileError {
                            file_path: file_path.to_owned(),
                            error_type: ErrorType::ParseError,
                            message: e.message(),
                        },
                    )
                },
            }
        },
    }
}

/// The per-file error recorded when a file's content cannot be read: without
/// content, a language only detectable by extension; when even that fails the
/// file counts as unsupported, otherwise the read failure is reported under
/// its own kind.
pub fn read_failed_error(file_path: &str, io_message: &str) -> (r: FileError)
    ensures
        r.file_path@ == file_path@,
        path_language(file_path@) is None ==> r.error_type == ErrorType::UnsupportedLanguage
            && r.message@ == "Could not detect language"@,
        path_language(file_path@) is Some ==> r.error_type == ErrorType::IoError && r.message@
            == "IO error: "@ + io_message@,
{
    match detect_language_by_extension(file_path) {
        Option::None => FileError {
            file_path: file_path.to_owned(),
            error_type: ErrorType::UnsupportedLanguage,
            message: String::from_str("Could not detect language"),
        },
        Option::Some(_) => {
            let err = Error::Io(io_message.to_owned());
            FileError {
                file_path: file_path.to_owned(),
                error_type: ErrorType::IoError,
                message: err.message(),
            }
        },
    }
}

/// The hard failure of a traversal whose root path does not exist: the one
/// condition that aborts the whole call, leaving no partial project behind.
pub fn missing_root_error(dir_path: &str) -> (r: Error)
    ensures
        r matches Error::Io(m) && m@ == "Directory does not exist: "@ + dir_path@,
{
    let mut message: String = String::from_str("Directory does not exist: ");
    message.append(dir_path);
    Error::Io(message)
}

/// The size of the batches a traversal runs concurrently: an even split of
/// the files over the concurrency bound, at least one file per batch.
pub open spec fn chunk_size_spec(n_files: nat, max_concurrent: nat) -> nat
    recommends
        max_concurrent > 0,
{
    if n_files / max_concurrent < 1 {
        1
    } else {
        n_files / max_concurrent
    }
}

/// Computes the batch size of a traversal.
pub fn compute_chunk_size(n_files: usize, max_concurrent: usize) -> (r: usize)
    requires
        max_concurrent > 0,
    ensures
        r == chunk_size_spec(n_files as nat, max_concurrent as nat),
        r >= 1,
{
    let c: usize = n_files / max_concurrent;
    if c < 1 {
        1
    } else {
        c
    }
}

/// The concatenation of a sequence of batches from index `i` on.
pub open spec fn chunks_concat(cs: Seq<Vec<String>>, i: int) -> Seq<String>
    decreases cs.len() - i,
{
    if i < 0 || i >= cs.len() {
        Seq::empty()
    } else {
        cs[i]@ + chunks_concat(cs, i + 1)
    }
}

/// Appending one batch appends its contents to the concatenation.
proof fn lemma_chunks_concat_push(cs: Seq<Vec<String>>, c: Vec<String>, i: int)
    requires
        0 <= i <= cs.len(),
    ensures
        chunks_concat(cs.push(c), i) =~= chunks_concat(cs, i) + c@,
    decreases cs.len() - i,
{
    if i == cs.len() {
        assert(cs.push(c)[i] == c);
        assert(chunks_concat(cs.push(c), i + 1) == Seq::<String>::empty());
        assert(chunks_concat(cs, i) == Seq::<String>::empty());
    } else {
        assert(cs.push(c)[i] == cs[i]);
        lemma_chunks_concat_push(cs, c, i + 1);
        assert(cs[i]@ + (chunks_concat(cs, i + 1) + c@) =~= (cs[i]@ + chunks_concat(cs, i + 1))
            + c@);
    }
}

/// Partitions the candidate files into the batches a traversal runs: every
/// batch but the last holds exactly `chunk_size` files, the last holds the
/// remainder, and the batches in order carry exactly the input files.
pub fn split_into_chunks(files: Vec<String>, chunk_size: usize) -> (r: Vec<Vec<String>>)
    requires
        chunk_size > 0,
    ensures
        chunks_concat(r@, 0) =~= files@,
        forall|i: int| 0 <= i < r@.len() - 1 ==> (#[trigger] r@[i])@.len() == chunk_size,
        r@.len() > 0 ==> 1 <= r@[r@.len() - 1]@.len() <= chunk_size,
        r@.len() == 0 ==> files@.len() == 0,
{
    let mut rest: Vec<String> = files;
    let mut out: Vec<Vec<String>> = Vec::new();
    proof {
        assert(chunks_concat(out@, 0) + rest@ =~= files@);
    }
    while rest.len() > chunk_size
        invariant
            chunk_size > 0,
            chunks_concat(out@, 0) + rest@ =~= files@,
            forall|i: int| 0 <= i < out@.len() ==> (#[trigger] out@[i])@.len() == chunk_size,
        decreases rest@.len(),
    {
        let ghost old_out = out@;
        let ghost old_rest = rest@;
        let tail: Vec<String> = rest.split_off(chunk_size);
        out.push(rest);
        rest = tail;
        proof {
            lemma_chunks_concat_push(old_out, out@[out@.len() - 1], 0);
            assert(old_rest.subrange(0, chunk_size as int) + old_rest.subrange(
                chunk_size as int,
                old_rest.len() as int,
            ) =~= old_rest);
            assert(chunks_concat(out@, 0) + rest@ =~= files@);
        }
    }
    if rest.len() > 0 {
        let ghost old_out = out@;
        let ghost last = rest@;
        out.push(rest);
        proof {
            lemma_chunks_concat_push(old_out, out@[out@.len() - 1], 0);
            assert(chunks_concat(out@, 0) =~= chunks_concat(old_out, 0) + last);
            assert(chunks_concat(out@, 0) =~= files@);
        }
    } else {
        proof {
            assert(rest@.len() == 0);
            assert(chunks_concat(out@, 0) + rest@ =~= chunks_concat(out@, 0));
            if out@.len() > 0 {
                assert(out@[out@.len() - 1]@.len() == chunk_size);
            }
        }
    }
    out
}

/// Whether a walked directory entry takes part in a traversal: not a
/// directory, not hidden (unless asked for), not ignored by a pattern, and
/// not over the size cap. A file of no recognizable language is still taken:
/// the per-file processor records it as unsupported rather than dropping it
/// silently.
pub fn should_include_file(
    path: &str,
    is_dir: bool,
    size_bytes: Option<usize>,
    options: &ParseOptions,
) -> (r: bool)
    ensures
        r == ({
            &&& !is_dir
            &&& (options.include_hidden_files || !is_hidden_chars(path@))
            &&& !matches_patterns_spec(path@, options.ignore_patterns@.map_values(|s: String| s@))
            &&& (match size_bytes {
                Option::Some(sz) => sz as int / (1024int * 1024int) <= options.max_file_size_mb as int,
                Option::None => true,
            })
        }),
{
    if is_dir {
        return false;
    }
    if !options.include_hidden_files && is_hidden_file(path) {
        return false;
    }
    if matches_ignore_patterns(path, options.ignore_patterns.as_slice()) {
        return false;
    }
    if let Option::Some(sz) = size_bytes {
        if sz / (1024 * 1024) > options.max_file_size_mb {
            return false;
        }
    }
    true
}

/// Whether `v` holds the language `lang`.
fn contains_language(v: &Vec<Language>, lang: Language) -> (r: bool)
    ensures
        r == v@.contains(lang),
{
    let mut i: usize = 0;
    while i < v.len()
        invariant
            i <= v@.len(),
            forall|j: int| 0 <= j < i ==> v@[j] != lang,
        decreases v@.len() - i,
    {
        if v[i] == lang {
            return true;
        }
        i += 1;
    }
    false
}

/// Whether a candidate file passes a custom filter: its extension in the
/// allow-list, its detected language in the allow-list, and its size within
/// the bounds, each only when that criterion is present; all must hold.
pub fn file_passes_filter(path: &str, size_bytes: Option<usize>, filter: &FileFilter) -> (r: bool)
    ensures
        r == ({
            &&& (match filter.extensions {
                Option::Some(exts) => extension_chars(path@) matches Option::Some(e)
                    && exts.deep_view().contains(lower_chars(e)),
                Option::None => true,
            })
            &&& (match filter.languages {
                Option::Some(langs) => path_language(path@) matches Option::Some(l)
                    && langs@.contains(l),
                Option::None => true,
            })
            &&& (match size_bytes {
                Option::Some(sz) => (match filter.min_size_bytes {
                    Option::Some(mn) => sz >= mn,
                    Option::None => true,
                }) && (match filter.max_size_bytes {
                    Option::Some(mx) => sz <= mx,
                    Option::None => true,
                }),
                Option::None => true,
            })
        }),
{
    if let Option::Some(exts) = &filter.extensions {
        match get_file_extension(path) {
            Option::Some(e) => {
                if !contains_string(exts, e.as_str()) {
                    return false;
                }
            },
            Option::None => {
                return false;
            },
        }
    }
    if let Option::Some(langs) = &filter.languages {
        match detect_language_by_extension(path) {
            Option::Some(l) => {
                if !contains_language(langs, l) {
                    return false;
                }
            },
            Option::None => {
                return false;
            },
        }
    }
    if let Option::Some(sz) = size_bytes {
        if let Option::Some(mn) = filter.min_size_bytes {
            if sz < mn {
                return false;
            }
        }
        if let Option::Some(mx) = filter.max_size_bytes {
            if sz > mx {
                return false;
            }
        }
    }
    true
}

/// The key of one histogram entry.
pub open spec fn hist_key(d: Seq<(Language, usize)>, i: int) -> Language {
    d[i].0
}

/// The count of one histogram entry.
pub open spec fn hist_val(d: Seq<(Language, usize)>, i: int) -> nat {
    d[i].1 as nat
}

/// How many of the first `i` files carry the language `lang`.
pub open spec fn count_lang_upto(files: Seq<ParsedFile>, lang: Language, i: int) -> nat
    decreases i,
{
    if i <= 0 {
        0
    } else {
        count_lang_upto(files, lang, i - 1) + (if files[i - 1].language == lang {
            1nat
        } else {
            0nat
        })
    }
}

/// A language's count over the first `i` files is at most `i`.
pub proof fn lemma_count_lang_le(files: Seq<ParsedFile>, lang: Language, i: int)
    requires
        0 <= i,
    ensures
        count_lang_upto(files, lang, i) <= i,
    decreases i,
{
    if i > 0 {
        lemma_count_lang_le(files, lang, i - 1);
    }
}

/// Aggregates one traversal's outcome: the processed count is the number of
/// parsed files, and the histogram has one entry per occurring language,
/// carrying exactly that language's file count.
pub fn assemble_project(
    root_path: &str,
    files: Vec<ParsedFile>,
    error_files: Vec<FileError>,
) -> (r: ParsedProject)
    ensures
        r.root_path@ == root_path@,
        r.files == files,
        r.error_files == error_files,
        r.total_files_processed == files@.len(),
        forall|i: int, j: int|
            0 <= i < j < r.language_distribution@.len() ==> hist_key(r.language_distribution@, i)
                != hist_key(r.language_distribution@, j),
        forall|i: int|
            0 <= i < r.language_distribution@.len() ==> hist_val(r.language_distribution@, i)
                == count_lang_upto(
                files@,
                hist_key(r.language_distribution@, i),
                files@.len() as int,
            ) && hist_val(r.language_distribution@, i) > 0,
        forall|l: Language|
            count_lang_upto(files@, l, files@.len() as int) > 0 ==> exists|i: int|
                0 <= i < r.language_distribution@.len() && hist_key(r.language_distribution@, i)
                    == l,
{
    let total_files_processed: usize = files.len();
    let mut dist: Vec<(Language, usize)> = Vec::new();
    let mut fi: usize = 0;
    while fi < total_files_processed
        invariant
            total_files_processed == files@.len(),
            fi <= files@.len(),
            forall|i: int, j: int|
                0 <= i < j < dist@.len() ==> hist_key(dist@, i) != hist_key(dist@, j),
            forall|i: int|
                0 <= i < dist@.len() ==> hist_val(dist@, i) == count_lang_upto(
                    files@,
                    hist_key(dist@, i),
                    fi as int,
                ) && hist_val(dist@, i) > 0,
            forall|l: Language|
                count_lang_upto(files@, l, fi as int) > 0 ==> exists|i: int|
                    0 <= i < dist@.len() && hist_key(dist@, i) == l,
        decreases files@.len() - fi,
    {
        let lang: Language = files[fi].language;
        let mut j: usize = 0;
        let mut found: bool = false;
        while !found && j < dist.len()
            invariant
                j <= dist@.len(),
                forall|k: int| 0 <= k < j ==> hist_key(dist@, k) != lang,
                found ==> j < dist@.len() && hist_key(dist@, j as int) == lang,
            decreases dist@.len() - j + (if found {
                0int
            } else {
                1int
            }),
        {
            if dist[j].0 == lang {
                found = true;
            } else {
                j += 1;
            }
        }
        let ghost old_dist = dist@;
        let ghost fin: int = fi + 1;
        proof {
            assert forall|l: Language| #[trigger] count_lang_upto(files@, l, fin)
                == count_lang_upto(files@, l, fi as int) + (if files@[fi as int].language == l {
                1nat
            } else {
                0nat
            }) by {
                assert(fin - 1 == fi as int);
            }
        }
        if found {
            proof {
                lemma_count_lang_le(files@, lang, fi as int);
                assert(hist_val(dist@, j as int) == count_lang_upto(files@, lang, fi as int));
                assert(dist@[j as int].1 <= fi);
            }
            let c: usize = dist[j].1;
            dist[j] = (lang, c + 1);
            proof {
                assert(forall|k: int|
                    0 <= k < dist@.len() && k != j ==> dist@[k] == old_dist[k]);
                assert(forall|k: int|
                    0 <= k < dist@.len() ==> hist_key(dist@, k) == hist_key(old_dist, k));
                assert(hist_key(dist@, j as int) == lang);
                assert(hist_val(dist@, j as int) == hist_val(old_dist, j as int) + 1);
                assert forall|a: int, b: int|
                    0 <= a < b < dist@.len() implies hist_key(dist@, a) != hist_key(
                    dist@,
                    b,
                ) by {
                    assert(hist_key(dist@, a) == hist_key(old_dist, a));
                    assert(hist_key(dist@, b) == hist_key(old_dist, b));
                }
                assert forall|k: int| 0 <= k < dist@.len() implies hist_val(dist@, k)
                    == count_lang_upto(files@, hist_key(dist@, k), fin) && hist_val(dist@, k)
                    > 0 by {
                    if k != j {
                        assert(hist_val(dist@, k) == hist_val(old_dist, k));
                        if k < j {
                            assert(hist_key(old_dist, k) != hist_key(old_dist, j as int));
                        } else {
                            assert(hist_key(old_dist, j as int) != hist_key(old_dist, k));
                        }
                        assert(hist_key(dist@, k) != lang);
                        assert(hist_val(old_dist, k) == count_lang_upto(
                            files@,
                            hist_key(old_dist, k),
                            fi as int,
                        ));
                        assert(count_lang_upto(files@, hist_key(dist@, k), fin)
                            == count_lang_upto(files@, hist_key(dist@, k), fi as int));
                    } else {
                        assert(hist_val(old_dist, j as int) == count_lang_upto(
                            files@,
                            lang,
                            fi as int,
                        ));
                        assert(count_lang_upto(files@, lang, fin) == count_lang_upto(
                            files@,
                            lang,
                            fi as int,
                        ) + 1);
                    }
                }
                assert forall|l: Language| count_lang_upto(files@, l, fin) > 0 implies exists|
                    i: int,
                |
                    0 <= i < dist@.len() && #[trigger] hist_key(dist@, i) == l by {
                    if l == lang {
                        assert(hist_key(dist@, j as int) == l);
                    } else {
                        assert(count_lang_upto(files@, l, fi as int) > 0);
                        let wi = choose|i: int|
                            0 <= i < old_dist.len() && hist_key(old_dist, i) == l;
                        assert(hist_key(dist@, wi) == l);
                    }
                }
            }
        } else {
            dist.push((lang, 1));
            proof {
                let ghost newlen = old_dist.len() as int;
                assert(forall|k: int| 0 <= k < newlen ==> dist@[k] == old_dist[k]);
                assert(forall|k: int|
                    0 <= k < newlen ==> hist_key(dist@, k) == hist_key(old_dist, k) && hist_val(
                        dist@,
                        k,
                    ) == hist_val(old_dist, k));
                assert(hist_key(dist@, newlen) == lang);
                assert(hist_val(dist@, newlen) == 1);
                assert(count_lang_upto(files@, lang, fi as int) == 0);
                assert(j as int == newlen);
                assert forall|a: int, b: int| 0 <= a < b < dist@.len() implies hist_key(dist@, a)
                    != hist_key(dist@, b) by {
                    if b == newlen {
                        assert(hist_key(dist@, a) == hist_key(old_dist, a));
                        assert(hist_key(old_dist, a) != lang);
                    } else {
                        assert(hist_key(dist@, a) == hist_key(old_dist, a));
                        assert(hist_key(dist@, b) == hist_key(old_dist, b));
                    }
                }
                assert forall|k: int| 0 <= k < dist@.len() implies hist_val(dist@, k)
                    == count_lang_upto(files@, hist_key(dist@, k), fin) && hist_val(dist@, k)
                    > 0 by {
                    if k < newlen {
                        assert(hist_key(dist@, k) != lang);
                        assert(hist_val(dist@, k) == hist_val(old_dist, k));
                        assert(hist_val(old_dist, k) == count_lang_upto(
                            files@,
                            hist_key(old_dist, k),
                            fi as int,
                        ));
                        assert(count_lang_upto(files@, hist_key(dist@, k), fin)
                            == count_lang_upto(files@, hist_key(dist@, k), fi as int));
                    } else {
                        assert(k == newlen);
                        assert(hist_key(dist@, k) == lang);
                        assert(count_lang_upto(files@, lang, fin) == 1);
                    }
                }
                assert forall|l: Language| count_lang_upto(files@, l, fin) > 0 implies exists|
                    i: int,
                |
                    0 <= i < dist@.len() && #[trigger] hist_key(dist@, i) == l by {
                    if l == lang {
                        assert(hist_key(dist@, newlen) == l);
                    } else {
                        assert(count_lang_upto(files@, l, fi as int) > 0);
                        let wi = choose|i: int|
                            0 <= i < old_dist.len() && hist_key(old_dist, i) == l;
                        assert(hist_key(dist@, wi) == l);
                    }
                }
            }
        }
        fi += 1;
    }
    ParsedProject {
        root_path: root_path.to_owned(),
        files,
        total_files_processed,
        language_distribution: dist,
        error_files,
    }
}

} // verus!
