//! Mathematical models of the construct data types: each exec type has a
//! ghost counterpart over `Seq` and `nat`, and a view function into it.
//! Contracts throughout the crate are stated over these models.

use vstd::prelude::*;

use crate::CodeConstruct;
use crate::ConstructMetadata;
use crate::Parameter;

verus! {

/// Model of a `Parameter`.
#[verifier::ext_equal]
pub ghost struct ParameterModel {
    pub name: Seq<char>,
    pub param_type: Option<Seq<char>>,
    pub default_value: Option<Seq<char>>,
    pub is_variadic: bool,
}

/// Model of a `ConstructMetadata`.
#[verifier::ext_equal]
pub ghost struct MetadataModel {
    pub visibility: Option<Seq<char>>,
    pub modifiers: Seq<Seq<char>>,
    pub parameters: Seq<ParameterModel>,
    pub return_type: Option<Seq<char>>,
    pub inheritance: Seq<Seq<char>>,
    pub annotations: Seq<Seq<char>>,
    pub documentation: Option<Seq<char>>,
}

/// Model of a `CodeConstruct`.
#[verifier::ext_equal]
pub ghost struct ConstructModel {
    pub node_type: Seq<char>,
    pub name: Option<Seq<char>>,
    pub source_code: Seq<char>,
    pub start_line: nat,
    pub end_line: nat,
    pub start_byte: nat,
    pub end_byte: nat,
    pub parent: Option<Box<ConstructModel>>,
    pub children: Seq<ConstructModel>,
    pub metadata: MetadataModel,
}

/// View of an optional string.
pub open spec fn opt_str_view(o: Option<String>) -> Option<Seq<char>> {
    match o {
        Option::None => Option::None,
        Option::Some(s) => Option::Some(s@),
    }
}

/// View of a sequence of strings.
pub open spec fn strs_view(v: Seq<String>) -> Seq<Seq<char>> {
    v.map_values(|s: String| s@)
}

/// View of a `Parameter`.
pub open spec fn param_view(p: Parameter) -> ParameterModel {
    ParameterModel {
        name: p.name@,
        param_type: opt_str_view(p.param_type),
        default_value: opt_str_view(p.default_value),
        is_variadic: p.is_variadic,
    }
}

/// View of a `ConstructMetadata`.
pub open spec fn md_view(m: ConstructMetadata) -> MetadataModel {
    MetadataModel {
        visibility: opt_str_view(m.visibility),
        modifiers: strs_view(m.modifiers@),
        parameters: m.parameters@.map_values(|p: Parameter| param_view(p)),
        return_type: opt_str_view(m.return_type),
        inheritance: strs_view(m.inheritance@),
        annotations: strs_view(m.annotations@),
        documentation: opt_str_view(m.documentation),
    }
}

/// The model of a metadata record with nothing in it.
pub open spec fn empty_metadata_model() -> MetadataModel {
    MetadataModel {
        visibility: Option::None,
        modifiers: Seq::empty(),
        parameters: Seq::empty(),
        return_type: Option::None,
        inheritance: Seq::empty(),
        annotations: Seq::empty(),
        documentation: Option::None,
    }
}

/// View of a `CodeConstruct`.
pub open spec fn cc_view(c: CodeConstruct) -> ConstructModel
    decreases c,
{
    ConstructModel {
        node_type: c.node_type@,
        name: opt_str_view(c.name),
        source_code: c.source_code@,
        start_line: c.start_line as nat,
        end_line: c.end_line as nat,
        start_byte: c.start_byte as nat,
        end_byte: c.end_byte as nat,
        parent: match c.parent {
            Option::None => Option::None,
            Option::Some(b) => Option::Some(Box::new(cc_view(*b))),
        },
        children: cc_seq_view(c.children@, 0),
        metadata: md_view(c.metadata),
    }
}

/// View of a suffix of a sequence of constructs, starting at index `i`.
pub open spec fn cc_seq_view(s: Seq<CodeConstruct>, i: int) -> Seq<ConstructModel>
    decreases s, s.len() - i,
{
    if i < 0 || i >= s.len() {
        Seq::empty()
    } else {
        seq![cc_view(s[i])] + cc_seq_view(s, i + 1)
    }
}

/// `cc_seq_view(s, i)` maps the elements of `s` from `i` on, in order.
pub proof fn lemma_cc_seq_view(s: Seq<CodeConstruct>, i: int)
    requires
        0 <= i <= s.len(),
    ensures
        cc_seq_view(s, i).len() == s.len() - i,
        forall|j: int| i <= j < s.len() ==> cc_seq_view(s, i)[j - i] == cc_view(s[j]),
    decreases s.len() - i,
{
    if i < s.len() {
        lemma_cc_seq_view(s, i + 1);
    }
}

/// Helper restating `lemma_cc_seq_view` with a plain index.
pub proof fn lemma_cc_seq_view_index(s: Seq<CodeConstruct>, j: int)
    requires
        0 <= j < s.len(),
    ensures
        cc_seq_view(s, 0).len() == s.len(),
        cc_seq_view(s, 0)[j] == cc_view(s[j]),
{
    lemma_cc_seq_view(s, 0);
    assert(cc_seq_view(s, 0)[j - 0] == cc_view(s[j]));
}

/// Pushing one construct appends its view.
pub proof fn lemma_cc_seq_view_push(v: Seq<CodeConstruct>, x: CodeConstruct)
    ensures
        cc_seq_view(v.push(x), 0) =~= cc_seq_view(v, 0) + seq![cc_view(x)],
{
    lemma_cc_seq_view(v.push(x), 0);
    lemma_cc_seq_view(v, 0);
    assert forall|j: int| 0 <= j < v.len() + 1 implies cc_seq_view(v.push(x), 0)[j] == (
    cc_seq_view(v, 0) + seq![cc_view(x)])[j] by {
        lemma_cc_seq_view_index(v.push(x), j);
        if j < v.len() {
            lemma_cc_seq_view_index(v, j);
            assert(v.push(x)[j] == v[j]);
        } else {
            assert(v.push(x)[j] == x);
        }
    }
}

/// A copy of an optional string with the same view.
pub fn clone_opt_string(o: &Option<String>) -> (r: Option<String>)
    ensures
        opt_str_view(r) == opt_str_view(*o),
{
    match o {
        Option::None => Option::None,
        Option::Some(s) => Option::Some(s.clone()),
    }
}

/// A copy of a string vector with the same view.
pub fn clone_strings(v: &Vec<String>) -> (r: Vec<String>)
    ensures
        strs_view(r@) =~= strs_view(v@),
{
    let mut out: Vec<String> = Vec::new();
    let mut i: usize = 0;
    while i < v.len()
        invariant
            i <= v.len(),
            out@.len() == i,
            forall|j: int| 0 <= j < i ==> out@[j]@ == v@[j]@,
        decreases v.len() - i,
    {
        out.push(v[i].clone());
        i += 1;
    }
    out
}

/// A copy of a parameter with the same model.
pub fn clone_parameter(p: &Parameter) -> (r: Parameter)
    ensures
        param_view(r) == param_view(*p),
{
    Parameter {
        name: p.name.clone(),
        param_type: clone_opt_string(&p.param_type),
        default_value: clone_opt_string(&p.default_value),
        is_variadic: p.is_variadic,
    }
}

/// A copy of a metadata record with the same model.
pub fn clone_metadata(m: &ConstructMetadata) -> (r: ConstructMetadata)
    ensures
        md_view(r) == md_view(*m),
{
    let mut parameters: Vec<Parameter> = Vec::new();
    let mut i: usize = 0;
    while i < m.parameters.len()
        invariant
            i <= m.parameters.len(),
            parameters@.len() == i,
            forall|j: int| 0 <= j < i ==> param_view(parameters@[j]) == param_view(m.parameters@[j]),
        decreases m.parameters.len() - i,
    {
        parameters.push(clone_parameter(&m.parameters[i]));
        i += 1;
    }
    let r = ConstructMetadata {
        visibility: clone_opt_string(&m.visibility),
        modifiers: clone_strings(&m.modifiers),
        parameters,
        return_type: clone_opt_string(&m.return_type),
        inheritance: clone_strings(&m.inheritance),
        annotations: clone_strings(&m.annotations),
        documentation: clone_opt_string(&m.documentation),
    };
    proof {
        assert(r.parameters@.map_values(|p: Parameter| param_view(p))
            =~= m.parameters@.map_values(|p: Parameter| param_view(p)));
        assert(md_view(r) =~= md_view(*m));
    }
    r
}

/// A deep copy of a construct with the same model, parent and children included.
pub fn clone_construct(c: &CodeConstruct) -> (r: CodeConstruct)
    ensures
        cc_view(r) == cc_view(*c),
    decreases *c,
{
    let parent: Option<Box<CodeConstruct>> = match &c.parent {
        Option::None => Option::None,
        Option::Some(b) => Option::Some(Box::new(clone_construct(b))),
    };
    let mut children: Vec<CodeConstruct> = Vec::new();
    let mut i: usize = 0;
    while i < c.children.len()
        invariant
            i <= c.children.len(),
            children@.len() == i,
            forall|j: int| 0 <= j < i ==> cc_view(children@[j]) == cc_view(c.children@[j]),
        decreases c.children.len() - i,
    {
        children.push(clone_construct(&c.children[i]));
        i += 1;
    }
    let r = CodeConstruct {
        node_type: c.node_type.clone(),
        name: clone_opt_string(&c.name),
        source_code: c.source_code.clone(),
        start_line: c.start_line,
        end_line: c.end_line,
        start_byte: c.start_byte,
        end_byte: c.end_byte,
        parent,
        children,
        metadata: clone_metadata(&c.metadata),
    };
    proof {
        lemma_cc_seq_view_pointwise(r.children@, c.children@);
        assert(cc_view(r) =~= cc_view(*c));
    }
    r
}

/// The views of two construct sequences agree when the sequences agree pointwise.
pub proof fn lemma_cc_seq_view_pointwise(a: Seq<CodeConstruct>, b: Seq<CodeConstruct>)
    requires
        a.len() == b.len(),
        forall|j: int| 0 <= j < a.len() ==> cc_view(a[j]) == cc_view(b[j]),
    ensures
        cc_seq_view(a, 0) =~= cc_seq_view(b, 0),
{
    lemma_cc_seq_view(a, 0);
    lemma_cc_seq_view(b, 0);
    assert forall|j: int| 0 <= j < a.len() implies cc_seq_view(a, 0)[j] == cc_seq_view(b, 0)[j] by {
        lemma_cc_seq_view_index(a, j);
        lemma_cc_seq_view_index(b, j);
    }
}

} // verus!
