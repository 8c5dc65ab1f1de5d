//! Queries over the syntax tree: an ordered collection of nodes, narrowed
//! by structural operators and combined by set operators.
use vstd::prelude::*;
use crate::ast::{Block, EnumItem, Expr, FnItem, Item, SourceFile, Span, StructItem, exprs_equal, same_expr};
use crate::filters::{
    derives_accounts, fn_has_unsafe_divisions, fn_has_unsafe_divisions_exec, fn_is_anchor_instruction,
    fn_misses_error_handling, fn_uses_unsafe, fn_uses_unsafe_exec, has_duplicate_mutable_accounts,
    has_missing_signer_checks, has_owner_check, is_anchor_instruction, misses_error_handling,
    struct_derives_accounts, struct_has_duplicate_mutable_accounts, struct_has_missing_signer_checks,
    struct_has_owner_check,
};
use crate::scan::{block_calls, block_calls_to};
use crate::text::{string_from, text_eq};
use crate::analysis::{Finding, Location, Severity};
use crate::span_utils::{SpanExtractor, location_of, snippet_of};

verus! {

/// The syntactic category of a node.
#[derive(Clone, Copy, Debug, PartialEq, Eq, Structural)]
pub enum NodeType {
    File,
    Function,
    Struct,
    Enum,
    Block,
    Expression,
    Other,
}

/// What a node refers to in the tree; it borrows the tree, never copies it.
pub enum NodeData<'a> {
    File(&'a SourceFile),
    Function(&'a FnItem),
    /// A function inside an implementation block.
    ImplFunction(&'a FnItem),
    Struct(&'a StructItem),
    Enum(&'a EnumItem),
    Block(&'a Block),
    Expression(&'a Expr),
    Other,
}

pub struct AstNode<'a> {
    pub node_type: NodeType,
    pub data: NodeData<'a>,
    pub name: Option<String>,
}

/// The view of an optional name.
pub open spec fn name_view(n: Option<String>) -> Option<Seq<char>> {
    match n {
        Some(s) => Some(s@),
        None => None,
    }
}

/// The token text of what a node refers to, when it refers to something.
pub open spec fn data_text(d: NodeData) -> Option<Seq<char>> {
    match d {
        NodeData::File(f) => Some(f.text@),
        NodeData::Function(f) => Some(f.text@),
        NodeData::ImplFunction(f) => Some(f.text@),
        NodeData::Struct(s) => Some(s.text@),
        NodeData::Enum(e) => Some(e.text@),
        NodeData::Block(b) => Some(b.text@),
        NodeData::Expression(_) => None,
        NodeData::Other => None,
    }
}

/// Structural equality of nodes: the same category, the same kind of
/// reference to a subtree with the same token text (expressions compare by
/// structure), and the same name.
pub open spec fn same_node(a: AstNode, b: AstNode) -> bool {
    &&& a.node_type == b.node_type
    &&& a.name_view() == b.name_view()
    &&& match (a.data, b.data) {
        (NodeData::File(_), NodeData::File(_)) => data_text(a.data) == data_text(b.data),
        (NodeData::Function(_), NodeData::Function(_)) => data_text(a.data) == data_text(b.data),
        (NodeData::ImplFunction(_), NodeData::ImplFunction(_)) => data_text(a.data) == data_text(b.data),
        (NodeData::Struct(_), NodeData::Struct(_)) => data_text(a.data) == data_text(b.data),
        (NodeData::Enum(_), NodeData::Enum(_)) => data_text(a.data) == data_text(b.data),
        (NodeData::Block(_), NodeData::Block(_)) => data_text(a.data) == data_text(b.data),
        (NodeData::Expression(x), NodeData::Expression(y)) => same_expr(*x, *y),
        (NodeData::Other, NodeData::Other) => true,
        _ => false,
    }
}

/// The span of what a node refers to; `Other` has none.
pub open spec fn node_span(n: AstNode) -> Option<Span> {
    match n.data {
        NodeData::File(f) => Some(f.span),
        NodeData::Function(f) => Some(f.span),
        NodeData::ImplFunction(f) => Some(f.span),
        NodeData::Struct(s) => Some(s.span),
        NodeData::Enum(e) => Some(e.span),
        NodeData::Block(b) => Some(b.span),
        NodeData::Expression(e) => Some(e.span),
        NodeData::Other => None,
    }
}

/// The placeholder text of a node, used where no source text is at hand.
pub open spec fn placeholder(n: AstNode) -> Seq<char> {
    match n.data {
        NodeData::Function(f) => "fn "@ + f.name@ + "(...)"@,
        NodeData::ImplFunction(f) => "fn "@ + f.name@ + "(...)"@,
        NodeData::Struct(s) => "struct "@ + s.name@,
        NodeData::Enum(e) => "enum "@ + e.name@,
        NodeData::Block(_) => "{ ... }"@,
        _ => "..."@,
    }
}

/// A node for the function `f`, free or associated.
pub open spec fn is_fn_node(n: AstNode, f: FnItem, in_impl: bool) -> bool {
    &&& n.node_type == NodeType::Function
    &&& n.name_view() == Some(f.name@)
    &&& if in_impl {
        n.data matches NodeData::ImplFunction(g) && *g == f
    } else {
        n.data matches NodeData::Function(g) && *g == f
    }
}

pub open spec fn is_struct_node(n: AstNode, s: StructItem) -> bool {
    &&& n.node_type == NodeType::Struct
    &&& n.name_view() == Some(s.name@)
    &&& n.data matches NodeData::Struct(g) && *g == s
}

/// The functions reachable from items, in order: free functions, the
/// functions of implementation blocks, and those of inline modules,
/// recursively. Each comes with whether it is associated.
pub open spec fn fns_in_items(items: Seq<Item>) -> Seq<(FnItem, bool)>
    decreases items,
{
    if items.len() == 0 {
        Seq::empty()
    } else {
        fns_in_items(items.drop_last()) + fns_in_item(items.last())
    }
}

pub open spec fn fns_in_item(it: Item) -> Seq<(FnItem, bool)>
    decreases it,
{
    match it {
        Item::Fn(f) => seq![(f, false)],
        Item::Impl(fs) => fs@.map_values(|f: FnItem| (f, true)),
        Item::Mod(Some(items)) => fns_in_items(items@),
        _ => Seq::empty(),
    }
}

/// The functions found under the file nodes of a node sequence.
pub open spec fn fns_of_nodes(s: Seq<AstNode>) -> Seq<(FnItem, bool)>
    decreases s.len(),
{
    if s.len() == 0 {
        Seq::empty()
    } else {
        fns_of_nodes(s.drop_last()) + match s.last().data {
            NodeData::File(f) => fns_in_items(f.items@),
            _ => Seq::empty(),
        }
    }
}

/// The structs directly under a file's items.
pub open spec fn structs_in_items(items: Seq<Item>) -> Seq<StructItem>
    decreases items.len(),
{
    if items.len() == 0 {
        Seq::empty()
    } else {
        structs_in_items(items.drop_last()) + match items.last() {
            Item::Struct(s) => seq![s],
            _ => Seq::empty(),
        }
    }
}

pub open spec fn structs_of_nodes(s: Seq<AstNode>) -> Seq<StructItem>
    decreases s.len(),
{
    if s.len() == 0 {
        Seq::empty()
    } else {
        structs_of_nodes(s.drop_last()) + match s.last().data {
            NodeData::File(f) => structs_in_items(f.items@),
            _ => Seq::empty(),
        }
    }
}

/// The elements of `s` whose mark in `mask` is set, in order.
pub open spec fn select<T>(s: Seq<T>, mask: Seq<bool>) -> Seq<T>
    decreases s.len(),
{
    if s.len() == 0 {
        Seq::empty()
    } else if mask.len() >= s.len() && mask[s.len() - 1] {
        select(s.drop_last(), mask).push(s.last())
    } else {
        select(s.drop_last(), mask)
    }
}

/// Only the first `s.len()` marks of a mask matter.
pub proof fn lemma_select_mask_prefix<T>(s: Seq<T>, m1: Seq<bool>, m2: Seq<bool>)
    requires
        m1.len() >= s.len(),
        m2.len() >= s.len(),
        forall|i: int| 0 <= i < s.len() ==> m1[i] == m2[i],
    ensures
        select(s, m1) == select(s, m2),
    decreases s.len(),
{
    if s.len() > 0 {
        lemma_select_mask_prefix(s.drop_last(), m1, m2);
    }
}

/// Every selected element is an element of `s` whose mark is set.
pub proof fn lemma_select_members<T>(s: Seq<T>, m: Seq<bool>)
    requires
        m.len() >= s.len(),
    ensures
        forall|k: int|
            0 <= k < select(s, m).len() ==> exists|i: int| 0 <= i < s.len() && m[i] && #[trigger] select(s, m)[k] == s[i],
    decreases s.len(),
{
    if s.len() > 0 {
        lemma_select_members(s.drop_last(), m);
        let p = select(s.drop_last(), m);
        assert forall|k: int| 0 <= k < select(s, m).len() implies exists|i: int|
            0 <= i < s.len() && m[i] && #[trigger] select(s, m)[k] == s[i] by {
            if k < p.len() {
                let i = choose|i: int| 0 <= i < s.drop_last().len() && m[i] && #[trigger] p[k] == s.drop_last()[i];
                assert(select(s, m)[k] == s[i]);
            } else {
                assert(select(s, m)[k] == s[s.len() - 1]);
            }
        }
    }
}

/// Combining by `or` loses nothing: the count of the combination is the sum
/// of the counts, duplicates included.
pub proof fn law_or_count<'a>(a: Seq<AstNode<'a>>, b: Seq<AstNode<'a>>)
    ensures
        (a + b).len() == a.len() + b.len(),
        forall|i: int| 0 <= i < a.len() ==> #[trigger] (a + b)[i] == a[i],
        forall|i: int| 0 <= i < b.len() ==> #[trigger] (a + b)[a.len() + i] == b[i],
{
}

/// `n` is structurally equal to some node of `others`.
pub open spec fn occurs_in<'a>(n: AstNode<'a>, others: Seq<AstNode<'a>>) -> bool {
    exists|j: int| 0 <= j < others.len() && #[trigger] same_node(n, others[j])
}

/// Which nodes of `s` the `and` of `s` with `others` keeps.
pub open spec fn and_mask<'a>(s: Seq<AstNode<'a>>, others: Seq<AstNode<'a>>) -> Seq<bool> {
    s.map_values(|n: AstNode<'a>| occurs_in(n, others))
}

/// Combining by `and` keeps only results of the first operand that are
/// structurally equal to some result of the second.
pub proof fn law_and_keeps_common<'a>(a: Seq<AstNode<'a>>, b: Seq<AstNode<'a>>)
    ensures
        forall|k: int|
            0 <= k < select(a, and_mask(a, b)).len() ==> (exists|i: int|
                0 <= i < a.len() && #[trigger] select(a, and_mask(a, b))[k] == a[i]) && occurs_in(
                select(a, and_mask(a, b))[k],
                b,
            ),
{
    let m = and_mask(a, b);
    lemma_select_members(a, m);
    let r = select(a, m);
    assert forall|k: int| 0 <= k < r.len() implies (exists|i: int| 0 <= i < a.len() && #[trigger] r[k] == a[i])
        && occurs_in(r[k], b) by {
        let i = choose|i: int| 0 <= i < a.len() && m[i] && #[trigger] r[k] == a[i];
        assert(m[i]);
    }
}

impl<'a> AstNode<'a> {
    pub open spec fn name_view(&self) -> Option<Seq<char>> {
        name_view(self.name)
    }

    pub fn from_file(file: &'a SourceFile) -> (r: AstNode<'a>)
        ensures
            r.node_type == NodeType::File,
            r.data == NodeData::File(file),
            r.name is None,
    {
        AstNode { node_type: NodeType::File, data: NodeData::File(file), name: None }
    }

    pub fn from_function(func: &'a FnItem) -> (r: AstNode<'a>)
        ensures
            is_fn_node(r, *func, false),
            r.data == NodeData::Function(func),
    {
        AstNode { node_type: NodeType::Function, data: NodeData::Function(func), name: Some(func.name.clone()) }
    }

    pub fn from_impl_function(func: &'a FnItem) -> (r: AstNode<'a>)
        ensures
            is_fn_node(r, *func, true),
            r.data == NodeData::ImplFunction(func),
    {
        AstNode {
            node_type: NodeType::Function,
            data: NodeData::ImplFunction(func),
            name: Some(func.name.clone()),
        }
    }

    pub fn from_expression(expr: &'a Expr) -> (r: AstNode<'a>)
        ensures
            r.node_type == NodeType::Expression,
            r.data == NodeData::Expression(expr),
            r.name is None,
    {
        AstNode { node_type: NodeType::Expression, data: NodeData::Expression(expr), name: None }
    }

    pub fn from_struct(struct_item: &'a StructItem) -> (r: AstNode<'a>)
        ensures
            is_struct_node(r, *struct_item),
            r.data == NodeData::Struct(struct_item),
    {
        AstNode {
            node_type: NodeType::Struct,
            data: NodeData::Struct(struct_item),
            name: Some(struct_item.name.clone()),
        }
    }

    pub fn node_type(&self) -> (r: NodeType)
        ensures
            r == self.node_type,
    {
        self.node_type
    }

    /// The node's name, or `unnamed`.
    pub fn name(&self) -> (r: String)
        ensures
            r@ == match self.name_view() {
                Some(n) => n,
                None => "unnamed"@,
            },
    {
        match &self.name {
            Some(n) => n.clone(),
            None => string_from("unnamed"),
        }
    }

    /// A placeholder for the node's source text.
    pub fn snippet(&self) -> (r: String)
        ensures
            r@ == placeholder(*self),
    {
        match &self.data {
            NodeData::Function(f) => string_from("fn ").concat(f.name.as_str()).concat("(...)"),
            NodeData::ImplFunction(f) => string_from("fn ").concat(f.name.as_str()).concat("(...)"),
            NodeData::Struct(s) => string_from("struct ").concat(s.name.as_str()),
            NodeData::Enum(e) => string_from("enum ").concat(e.name.as_str()),
            NodeData::Block(_) => string_from("{ ... }"),
            _ => string_from("..."),
        }
    }

    /// The span of what the node refers to.
    pub fn span(&self) -> (r: Option<Span>)
        ensures
            r == node_span(*self),
    {
        match &self.data {
            NodeData::File(f) => Some(f.span),
            NodeData::Function(f) => Some(f.span),
            NodeData::ImplFunction(f) => Some(f.span),
            NodeData::Struct(s) => Some(s.span),
            NodeData::Enum(e) => Some(e.span),
            NodeData::Block(b) => Some(b.span),
            NodeData::Expression(e) => Some(e.span),
            NodeData::Other => None,
        }
    }

    /// A copy of the node, referring to the same subtree.
    pub fn duplicate(&self) -> (r: AstNode<'a>)
        ensures
            r == *self,
    {
        let data = match &self.data {
            NodeData::File(f) => NodeData::File(*f),
            NodeData::Function(f) => NodeData::Function(*f),
            NodeData::ImplFunction(f) => NodeData::ImplFunction(*f),
            NodeData::Struct(s) => NodeData::Struct(*s),
            NodeData::Enum(e) => NodeData::Enum(*e),
            NodeData::Block(b) => NodeData::Block(*b),
            NodeData::Expression(e) => NodeData::Expression(*e),
            NodeData::Other => NodeData::Other,
        };
        let name = match &self.name {
            Some(n) => Some(n.clone()),
            None => None,
        };
        AstNode { node_type: self.node_type, data, name }
    }

    /// Structural equality, see `same_node`.
    pub fn structurally_equal(&self, other: &AstNode<'a>) -> (r: bool)
        ensures
            r == same_node(*self, *other),
    {
        if self.node_type != other.node_type {
            return false;
        }
        let names = match (&self.name, &other.name) {
            (Some(a), Some(b)) => text_eq(a.as_str(), b.as_str()),
            (None, None) => true,
            _ => false,
        };
        if !names {
            return false;
        }
        match (&self.data, &other.data) {
            (NodeData::File(a), NodeData::File(b)) => text_eq(a.text.as_str(), b.text.as_str()),
            (NodeData::Function(a), NodeData::Function(b)) => text_eq(a.text.as_str(), b.text.as_str()),
            (NodeData::ImplFunction(a), NodeData::ImplFunction(b)) => text_eq(a.text.as_str(), b.text.as_str()),
            (NodeData::Struct(a), NodeData::Struct(b)) => text_eq(a.text.as_str(), b.text.as_str()),
            (NodeData::Enum(a), NodeData::Enum(b)) => text_eq(a.text.as_str(), b.text.as_str()),
            (NodeData::Block(a), NodeData::Block(b)) => text_eq(a.text.as_str(), b.text.as_str()),
            (NodeData::Expression(a), NodeData::Expression(b)) => exprs_equal(a, b),
            (NodeData::Other, NodeData::Other) => true,
            _ => false,
        }
    }
}

/// Each node is the node of the function at the same position.
pub open spec fn fn_nodes_match(nodes: Seq<AstNode>, fns: Seq<(FnItem, bool)>) -> bool {
    &&& nodes.len() == fns.len()
    &&& forall|i: int| 0 <= i < nodes.len() ==> #[trigger] is_fn_node(nodes[i], fns[i].0, fns[i].1)
}

pub open spec fn struct_nodes_match(nodes: Seq<AstNode>, structs: Seq<StructItem>) -> bool {
    &&& nodes.len() == structs.len()
    &&& forall|i: int| 0 <= i < nodes.len() ==> #[trigger] is_struct_node(nodes[i], structs[i])
}

pub open spec fn has_name(n: AstNode, name: Seq<char>) -> bool {
    n.name_view() == Some(name)
}

pub open spec fn is_public_fn(n: AstNode) -> bool {
    match n.data {
        NodeData::Function(f) => f.is_pub,
        NodeData::ImplFunction(f) => f.is_pub,
        _ => false,
    }
}

/// A function declared `unsafe` or holding an `unsafe` block, or a block
/// holding one.
pub open spec fn node_uses_unsafe(n: AstNode) -> bool {
    match n.data {
        NodeData::Function(f) => fn_uses_unsafe(*f),
        NodeData::ImplFunction(f) => fn_uses_unsafe(*f),
        NodeData::Block(b) => crate::scan::block_has_unsafe(*b),
        _ => false,
    }
}

/// A function or block that calls `name`.
pub open spec fn node_calls(n: AstNode, name: Seq<char>) -> bool {
    match n.data {
        NodeData::Function(f) => block_calls(f.body, name),
        NodeData::ImplFunction(f) => block_calls(f.body, name),
        NodeData::Block(b) => block_calls(*b, name),
        _ => false,
    }
}

pub open spec fn struct_test_holds(s: StructItem, k: StructTest) -> bool {
    match k {
        StructTest::DerivesAccounts => derives_accounts(s),
        StructTest::DuplicateMutable => has_duplicate_mutable_accounts(s),
        StructTest::MissingSigner => has_missing_signer_checks(s),
        StructTest::OwnerCheck => has_owner_check(s),
    }
}

/// A struct node whose struct satisfies a struct heuristic.
pub open spec fn struct_node_holds(n: AstNode, k: StructTest) -> bool {
    match n.data {
        NodeData::Struct(s) => struct_test_holds(*s, k),
        _ => false,
    }
}

/// A function node whose function satisfies a function heuristic.
pub open spec fn fn_node_holds(n: AstNode, k: FnTest) -> bool {
    match n.data {
        NodeData::Function(f) => fn_test_holds(*f, k),
        NodeData::ImplFunction(f) => fn_test_holds(*f, k),
        _ => false,
    }
}

pub open spec fn fn_test_holds(f: FnItem, k: FnTest) -> bool {
    match k {
        FnTest::AnchorInstruction => is_anchor_instruction(f),
        FnTest::UnsafeDivision => fn_has_unsafe_divisions(f),
        FnTest::MissingErrorHandling => misses_error_handling(f),
    }
}

#[derive(Clone, Copy, Debug, PartialEq, Eq, Structural)]
pub enum StructTest {
    DerivesAccounts,
    DuplicateMutable,
    MissingSigner,
    OwnerCheck,
}

#[derive(Clone, Copy, Debug, PartialEq, Eq, Structural)]
pub enum FnTest {
    AnchorInstruction,
    UnsafeDivision,
    MissingErrorHandling,
}

/// A narrowing predicate over nodes.
enum Narrow<'s> {
    Name(&'s str),
    Public,
    Unsafe,
    CallsTo(&'s str),
    OfStruct(StructTest),
    OfFn(FnTest),
}

spec fn narrow_holds(k: Narrow, n: AstNode) -> bool {
    match k {
        Narrow::Name(s) => has_name(n, s@),
        Narrow::Public => is_public_fn(n),
        Narrow::Unsafe => node_uses_unsafe(n),
        Narrow::CallsTo(s) => node_calls(n, s@),
        Narrow::OfStruct(t) => struct_node_holds(n, t),
        Narrow::OfFn(t) => fn_node_holds(n, t),
    }
}

fn fn_test(f: &FnItem, k: FnTest) -> (r: bool)
    ensures
        r == fn_test_holds(*f, k),
{
    match k {
        FnTest::AnchorInstruction => fn_is_anchor_instruction(f),
        FnTest::UnsafeDivision => fn_has_unsafe_divisions_exec(f),
        FnTest::MissingErrorHandling => fn_misses_error_handling(f),
    }
}

fn narrow_test(k: &Narrow, n: &AstNode) -> (r: bool)
    ensures
        r == narrow_holds(*k, *n),
{
    match k {
        Narrow::Name(s) => match &n.name {
            Some(m) => text_eq(m.as_str(), s),
            None => false,
        },
        Narrow::Public => match &n.data {
            NodeData::Function(f) => f.is_pub,
            NodeData::ImplFunction(f) => f.is_pub,
            _ => false,
        },
        Narrow::Unsafe => match &n.data {
            NodeData::Function(f) => fn_uses_unsafe_exec(f),
            NodeData::ImplFunction(f) => fn_uses_unsafe_exec(f),
            NodeData::Block(b) => crate::scan::block_uses_unsafe(b),
            _ => false,
        },
        Narrow::CallsTo(s) => match &n.data {
            NodeData::Function(f) => block_calls_to(&f.body, s),
            NodeData::ImplFunction(f) => block_calls_to(&f.body, s),
            NodeData::Block(b) => block_calls_to(b, s),
            _ => false,
        },
        Narrow::OfStruct(t) => match &n.data {
            NodeData::Struct(s) => match t {
                StructTest::DerivesAccounts => struct_derives_accounts(s),
                StructTest::DuplicateMutable => struct_has_duplicate_mutable_accounts(s),
                StructTest::MissingSigner => struct_has_missing_signer_checks(s),
                StructTest::OwnerCheck => struct_has_owner_check(s),
            },
            _ => false,
        },
        Narrow::OfFn(t) => match &n.data {
            NodeData::Function(f) => fn_test(f, *t),
            NodeData::ImplFunction(f) => fn_test(f, *t),
            _ => false,
        },
    }
}

/// The placeholder location of a node without a span.
pub open spec fn fallback_location(l: Location, file: Seq<char>) -> bool {
    &&& l.file@ == file
    &&& l.line == 1
    &&& l.column is None
    &&& l.end_line is None
    &&& l.end_column is None
}

fn fallback(file_path: &str) -> (r: Location)
    ensures
        fallback_location(r, file_path@),
{
    Location { file: string_from(file_path), line: 1, column: None, end_line: None, end_column: None }
}

/// The finding that `to_findings` makes of a node.
pub open spec fn plain_finding(f: Finding, n: AstNode, severity: Severity, message: Seq<char>, file: Seq<char>) -> bool {
    &&& f.description@ == match n.name_view() {
        Some(nm) => message + " in '"@ + nm + "'"@,
        None => message,
    }
    &&& f.severity == severity
    &&& fallback_location(f.location, file)
    &&& f.code_snippet matches Some(c) && c@ == placeholder(n)
}

/// The finding that `to_findings_with_span_extractor` makes of a node: the
/// location and source text of its span, or the placeholders of a node
/// without one.
pub open spec fn span_finding(
    f: Finding,
    n: AstNode,
    severity: Severity,
    title: Seq<char>,
    description: Seq<char>,
    file: Seq<char>,
    ex: SpanExtractor,
) -> bool {
    &&& f.description@ == match n.name_view() {
        Some(nm) => title + " in '"@ + nm + "'. "@ + description,
        None => title + ": "@ + description,
    }
    &&& f.severity == severity
    &&& match node_span(n) {
        Some(sp) => location_of(ex.file(), sp, f.location) && (f.code_snippet matches Some(c) && c@
            == snippet_of(ex.line_views(), sp)),
        None => fallback_location(f.location, file) && (f.code_snippet matches Some(c) && c@ == placeholder(n)),
    }
}

/// An ordered collection of nodes: the results of a query so far.
pub struct AstQuery<'a> {
    results: Vec<AstNode<'a>>,
}

impl<'a> View for AstQuery<'a> {
    type V = Seq<AstNode<'a>>;

    closed spec fn view(&self) -> Seq<AstNode<'a>> {
        self.results@
    }
}

fn collect_item_fns<'a>(item: &'a Item, out: &mut Vec<AstNode<'a>>)
    ensures
        final(out)@.len() >= old(out)@.len(),
        final(out)@.subrange(0, old(out)@.len() as int) == old(out)@,
        fn_nodes_match(final(out)@.subrange(old(out)@.len() as int, final(out)@.len() as int), fns_in_item(*item)),
    decreases item,
{
    let ghost o = out@;
    match item {
        Item::Fn(f) => {
            out.push(AstNode::from_function(f));
            assert(out@.subrange(0, o.len() as int) =~= o);
            let ghost tail = out@.subrange(o.len() as int, out@.len() as int);
            assert(tail[0] == out@[o.len() as int]);
        },
        Item::Impl(fs) => {
            let mut i: usize = 0;
            while i < fs.len()
                invariant
                    i <= fs@.len(),
                    out@.len() == o.len() + i,
                    out@.subrange(0, o.len() as int) == o,
                    forall|j: int| 0 <= j < i ==> #[trigger] is_fn_node(out@[o.len() + j], fs@[j], true),
                decreases fs@.len() - i,
            {
                out.push(AstNode::from_impl_function(&fs[i]));
                assert(out@.subrange(0, o.len() as int) =~= o);
                i += 1;
            }
            let ghost tail = out@.subrange(o.len() as int, out@.len() as int);
            assert forall|j: int| 0 <= j < tail.len() implies #[trigger] is_fn_node(
                tail[j],
                fns_in_item(*item)[j].0,
                fns_in_item(*item)[j].1,
            ) by {
                assert(tail[j] == out@[o.len() + j]);
            }
        },
        Item::Mod(Some(items)) => {
            collect_fns(items, out);
        },
        _ => {
            assert(out@.subrange(0, o.len() as int) =~= o);
        },
    }
}

fn collect_fns<'a>(items: &'a Vec<Item>, out: &mut Vec<AstNode<'a>>)
    ensures
        final(out)@.len() >= old(out)@.len(),
        final(out)@.subrange(0, old(out)@.len() as int) == old(out)@,
        fn_nodes_match(final(out)@.subrange(old(out)@.len() as int, final(out)@.len() as int), fns_in_items(items@)),
    decreases items,
{
    let ghost o = out@;
    let mut i: usize = 0;
    assert(items@.take(0) =~= Seq::<Item>::empty());
    assert(out@.subrange(0, o.len() as int) =~= o);
    while i < items.len()
        invariant
            i <= items@.len(),
            o.len() <= out@.len(),
            out@.subrange(0, o.len() as int) == o,
            fn_nodes_match(out@.subrange(o.len() as int, out@.len() as int), fns_in_items(items@.take(i as int))),
        decreases items@.len() - i,
    {
        proof {
            assert(decreases_to!(items => items[i as int]));
        }
        let ghost before = out@;
        collect_item_fns(&items[i], out);
        let ghost a = before.subrange(o.len() as int, before.len() as int);
        let ghost b = out@.subrange(before.len() as int, out@.len() as int);
        assert(items@.take(i + 1).drop_last() =~= items@.take(i as int));
        assert(items@.take(i + 1).last() == items@[i as int]);
        assert(out@.subrange(o.len() as int, out@.len() as int) =~= a + b);
        assert(out@.subrange(0, o.len() as int) =~= o);
        let ghost fa = fns_in_items(items@.take(i as int));
        let ghost fb = fns_in_item(items@[i as int]);
        assert(fns_in_items(items@.take(i + 1)) == fa + fb);
        assert forall|j: int| 0 <= j < (a + b).len() implies #[trigger] is_fn_node(
            (a + b)[j],
            (fa + fb)[j].0,
            (fa + fb)[j].1,
        ) by {
            if j < a.len() {
                assert(is_fn_node(a[j], fa[j].0, fa[j].1));
            } else {
                assert(is_fn_node(b[j - a.len()], fb[j - a.len()].0, fb[j - a.len()].1));
            }
        }
        i += 1;
    }
    assert(items@.take(i as int) =~= items@);
}

impl<'a> AstQuery<'a> {
    /// A query whose single result is the file.
    pub fn new(ast: &'a SourceFile) -> (r: AstQuery<'a>)
        ensures
            r@ == seq![AstNode::<'a> { node_type: NodeType::File, data: NodeData::File(ast), name: None }],
    {
        let q = AstQuery { results: vec![AstNode::from_file(ast)] };
        assert(q@ =~= seq![AstNode::<'a> { node_type: NodeType::File, data: NodeData::File(ast), name: None }]);
        q
    }

    pub fn from_nodes(nodes: Vec<AstNode<'a>>) -> (r: AstQuery<'a>)
        ensures
            r@ == nodes@,
    {
        AstQuery { results: nodes }
    }

    pub fn from_node(node: &AstNode<'a>) -> (r: AstQuery<'a>)
        ensures
            r@ == seq![*node],
    {
        let q = AstQuery { results: vec![node.duplicate()] };
        assert(q@ =~= seq![*node]);
        q
    }

    pub fn results(&self) -> (r: &[AstNode<'a>])
        ensures
            r@ == self@,
    {
        self.results.as_slice()
    }

    pub fn nodes(&self) -> (r: &[AstNode<'a>])
        ensures
            r@ == self@,
    {
        self.results()
    }

    /// Every function reachable from the file results: free functions,
    /// functions of implementation blocks and of inline modules.
    pub fn functions(self) -> (r: AstQuery<'a>)
        ensures
            fn_nodes_match(r@, fns_of_nodes(self@)),
    {
        let mut out: Vec<AstNode<'a>> = Vec::new();
        let mut i: usize = 0;
        while i < self.results.len()
            invariant
                i <= self@.len(),
                self@ == self.results@,
                fn_nodes_match(out@, fns_of_nodes(self@.take(i as int))),
            decreases self@.len() - i,
        {
            let ghost before = out@;
            let ghost fa = fns_of_nodes(self@.take(i as int));
            assert(self@.take(i + 1).drop_last() =~= self@.take(i as int));
            assert(self@.take(i + 1).last() == self@[i as int]);
            if let NodeData::File(file) = self.results[i].data {
                collect_fns(&file.items, &mut out);
                let ghost fb = fns_in_items(file.items@);
                let ghost b = out@.subrange(before.len() as int, out@.len() as int);
                assert(out@ =~= before + b);
                assert(fns_of_nodes(self@.take(i + 1)) == fa + fb);
                assert forall|j: int| 0 <= j < out@.len() implies #[trigger] is_fn_node(
                    out@[j],
                    (fa + fb)[j].0,
                    (fa + fb)[j].1,
                ) by {
                    if j < before.len() {
                        assert(is_fn_node(before[j], fa[j].0, fa[j].1));
                    } else {
                        assert(is_fn_node(b[j - before.len()], fb[j - before.len()].0, fb[j - before.len()].1));
                    }
                }
            } else {
                assert(fns_of_nodes(self@.take(i + 1)) =~= fa);
            }
            i += 1;
        }
        assert(self@.take(i as int) =~= self@);
        AstQuery { results: out }
    }

    /// The structs directly under the file results.
    pub fn structs(self) -> (r: AstQuery<'a>)
        ensures
            struct_nodes_match(r@, structs_of_nodes(self@)),
    {
        let mut out: Vec<AstNode<'a>> = Vec::new();
        let mut i: usize = 0;
        while i < self.results.len()
            invariant
                i <= self@.len(),
                self@ == self.results@,
                struct_nodes_match(out@, structs_of_nodes(self@.take(i as int))),
            decreases self@.len() - i,
        {
            assert(self@.take(i + 1).drop_last() =~= self@.take(i as int));
            assert(self@.take(i + 1).last() == self@[i as int]);
            let ghost sa = structs_of_nodes(self@.take(i as int));
            if let NodeData::File(file) = self.results[i].data {
                let ghost before = out@;
                let mut k: usize = 0;
                assert(file.items@.take(0) =~= Seq::<Item>::empty());
                while k < file.items.len()
                    invariant
                        k <= file.items@.len(),
                        before.len() <= out@.len(),
                        out@.subrange(0, before.len() as int) == before,
                        struct_nodes_match(before, sa),
                        struct_nodes_match(out@, sa + structs_in_items(file.items@.take(k as int))),
                    decreases file.items@.len() - k,
                {
                    assert(file.items@.take(k + 1).drop_last() =~= file.items@.take(k as int));
                    assert(file.items@.take(k + 1).last() == file.items@[k as int]);
                    let ghost prev = out@;
                    if let Item::Struct(st) = &file.items[k] {
                        out.push(AstNode::from_struct(st));
                        let ghost want = sa + structs_in_items(file.items@.take(k + 1));
                        assert(want =~= (sa + structs_in_items(file.items@.take(k as int))).push(*st));
                        assert forall|j: int| 0 <= j < out@.len() implies #[trigger] is_struct_node(out@[j], want[j]) by {
                            if j < prev.len() {
                                assert(out@[j] == prev[j]);
                            }
                        }
                    } else {
                        assert(sa + structs_in_items(file.items@.take(k + 1)) =~= sa + structs_in_items(file.items@.take(k as int)));
                    }
                    assert(out@.subrange(0, before.len() as int) =~= before);
                    k += 1;
                }
                assert(file.items@.take(k as int) =~= file.items@);
                assert(structs_of_nodes(self@.take(i + 1)) == sa + structs_in_items(file.items@));
            } else {
                assert(structs_of_nodes(self@.take(i + 1)) =~= sa);
            }
            i += 1;
        }
        assert(self@.take(i as int) =~= self@);
        AstQuery { results: out }
    }

    fn narrow(self, k: Narrow) -> (r: AstQuery<'a>)
        ensures
            r@ == select(self@, self@.map_values(|n: AstNode<'a>| narrow_holds(k, n))),
    {
        let ghost mask = self@.map_values(|n: AstNode<'a>| narrow_holds(k, n));
        let mut out: Vec<AstNode<'a>> = Vec::new();
        let mut i: usize = 0;
        while i < self.results.len()
            invariant
                i <= self@.len(),
                self@ == self.results@,
                mask == self@.map_values(|n: AstNode<'a>| narrow_holds(k, n)),
                out@ == select(self@.take(i as int), mask),
            decreases self@.len() - i,
        {
            assert(self@.take(i + 1).drop_last() =~= self@.take(i as int));
            assert(self@.take(i + 1).last() == self@[i as int]);
            if narrow_test(&k, &self.results[i]) {
                out.push(self.results[i].duplicate());
            }
            i += 1;
        }
        assert(self@.take(i as int) =~= self@);
        AstQuery { results: out }
    }

    /// The results named `name`.
    pub fn with_name(self, name: &str) -> (r: AstQuery<'a>)
        ensures
            r@ == select(self@, self@.map_values(|n: AstNode<'a>| has_name(n, name@))),
    {
        let ghost s = self@;
        let r = self.narrow(Narrow::Name(name));
        assert(s.map_values(|n: AstNode<'a>| narrow_holds(Narrow::Name(name), n)) =~= s.map_values(
            |n: AstNode<'a>| has_name(n, name@),
        ));
        r
    }

    /// The public functions among the results.
    pub fn public_functions(self) -> (r: AstQuery<'a>)
        ensures
            r@ == select(self@, self@.map_values(|n: AstNode<'a>| is_public_fn(n))),
    {
        let ghost s = self@;
        let r = self.narrow(Narrow::Public);
        assert(s.map_values(|n: AstNode<'a>| narrow_holds(Narrow::Public, n)) =~= s.map_values(
            |n: AstNode<'a>| is_public_fn(n),
        ));
        r
    }

    /// The functions declared `unsafe` or holding an `unsafe` block, and the
    /// blocks holding one.
    pub fn uses_unsafe(self) -> (r: AstQuery<'a>)
        ensures
            r@ == select(self@, self@.map_values(|n: AstNode<'a>| node_uses_unsafe(n))),
    {
        let ghost s = self@;
        let r = self.narrow(Narrow::Unsafe);
        assert(s.map_values(|n: AstNode<'a>| narrow_holds(Narrow::Unsafe, n)) =~= s.map_values(
            |n: AstNode<'a>| node_uses_unsafe(n),
        ));
        r
    }

    /// The functions and blocks that call `function_name`.
    pub fn calls_to(self, function_name: &str) -> (r: AstQuery<'a>)
        ensures
            r@ == select(self@, self@.map_values(|n: AstNode<'a>| node_calls(n, function_name@))),
    {
        let ghost s = self@;
        let r = self.narrow(Narrow::CallsTo(function_name));
        assert(s.map_values(|n: AstNode<'a>| narrow_holds(Narrow::CallsTo(function_name), n)) =~= s.map_values(
            |n: AstNode<'a>| node_calls(n, function_name@),
        ));
        r
    }

    /// The struct results that satisfy a struct heuristic.
    pub fn structs_where(self, t: StructTest) -> (r: AstQuery<'a>)
        ensures
            r@ == select(self@, self@.map_values(|n: AstNode<'a>| struct_node_holds(n, t))),
    {
        let ghost s = self@;
        let r = self.narrow(Narrow::OfStruct(t));
        assert(s.map_values(|n: AstNode<'a>| narrow_holds(Narrow::OfStruct(t), n)) =~= s.map_values(
            |n: AstNode<'a>| struct_node_holds(n, t),
        ));
        r
    }

    /// The function results that satisfy a function heuristic.
    pub fn functions_where(self, t: FnTest) -> (r: AstQuery<'a>)
        ensures
            r@ == select(self@, self@.map_values(|n: AstNode<'a>| fn_node_holds(n, t))),
    {
        let ghost s = self@;
        let r = self.narrow(Narrow::OfFn(t));
        assert(s.map_values(|n: AstNode<'a>| narrow_holds(Narrow::OfFn(t), n)) =~= s.map_values(
            |n: AstNode<'a>| fn_node_holds(n, t),
        ));
        r
    }

    /// The structs that derive `Accounts`.
    pub fn derives_accounts(self) -> (r: AstQuery<'a>)
        ensures
            r@ == select(self@, self@.map_values(|n: AstNode<'a>| struct_node_holds(n, StructTest::DerivesAccounts))),
    {
        self.structs_where(StructTest::DerivesAccounts)
    }

    /// The structs with two or more mutable accounts, one of them unprotected.
    pub fn has_duplicate_mutable_accounts(self) -> (r: AstQuery<'a>)
        ensures
            r@ == select(self@, self@.map_values(|n: AstNode<'a>| struct_node_holds(n, StructTest::DuplicateMutable))),
    {
        self.structs_where(StructTest::DuplicateMutable)
    }

    /// The `Accounts` structs with a field that lacks a signer check.
    pub fn has_missing_signer_checks(self) -> (r: AstQuery<'a>)
        ensures
            r@ == select(self@, self@.map_values(|n: AstNode<'a>| struct_node_holds(n, StructTest::MissingSigner))),
    {
        self.structs_where(StructTest::MissingSigner)
    }

    /// The structs with an owner or address check on some field.
    pub fn has_owner_check(self) -> (r: AstQuery<'a>)
        ensures
            r@ == select(self@, self@.map_values(|n: AstNode<'a>| struct_node_holds(n, StructTest::OwnerCheck))),
    {
        self.structs_where(StructTest::OwnerCheck)
    }

    /// The public functions taking a `Context` parameter.
    pub fn anchor_instructions(self) -> (r: AstQuery<'a>)
        ensures
            r@ == select(self@, self@.map_values(|n: AstNode<'a>| fn_node_holds(n, FnTest::AnchorInstruction))),
    {
        self.functions_where(FnTest::AnchorInstruction)
    }

    /// The functions that divide by something that may be zero.
    pub fn has_unsafe_divisions(self) -> (r: AstQuery<'a>)
        ensures
            r@ == select(self@, self@.map_values(|n: AstNode<'a>| fn_node_holds(n, FnTest::UnsafeDivision))),
    {
        self.functions_where(FnTest::UnsafeDivision)
    }

    /// The public functions that do not return a `Result`.
    pub fn missing_error_handling(self) -> (r: AstQuery<'a>)
        ensures
            r@ == select(self@, self@.map_values(|n: AstNode<'a>| fn_node_holds(n, FnTest::MissingErrorHandling))),
    {
        self.functions_where(FnTest::MissingErrorHandling)
    }

    /// The results on which `predicate` returns true, in order.
    pub fn filter<F: Fn(&AstNode<'a>) -> bool>(self, predicate: F) -> (r: AstQuery<'a>)
        requires
            forall|n: &AstNode<'a>| #[trigger] predicate.requires((n,)),
        ensures
            exists|mask: Seq<bool>|
                {
                    &&& mask.len() == self@.len()
                    &&& forall|i: int| 0 <= i < self@.len() ==> #[trigger] predicate.ensures((&self@[i],), mask[i])
                    &&& r@ == select(self@, mask)
                },
    {
        let ghost mut mask: Seq<bool> = Seq::empty();
        let mut out: Vec<AstNode<'a>> = Vec::new();
        let mut i: usize = 0;
        while i < self.results.len()
            invariant
                i <= self@.len(),
                self@ == self.results@,
                forall|n: &AstNode<'a>| #[trigger] predicate.requires((n,)),
                mask.len() == i,
                forall|k: int| 0 <= k < i ==> #[trigger] predicate.ensures((&self@[k],), mask[k]),
                out@ == select(self@.take(i as int), mask),
            decreases self@.len() - i,
        {
            assert(self@.take(i + 1).drop_last() =~= self@.take(i as int));
            assert(self@.take(i + 1).last() == self@[i as int]);
            let b = predicate(&self.results[i]);
            let ghost m0 = mask;
            proof {
                mask = mask.push(b);
                assert(select(self@.take(i as int), mask) == select(self@.take(i as int), m0)) by {
                    lemma_select_mask_prefix(self@.take(i as int), m0, mask);
                }
            }
            if b {
                out.push(self.results[i].duplicate());
            }
            i += 1;
        }
        assert(self@.take(i as int) =~= self@);
        AstQuery { results: out }
    }

    /// Both result sequences, one after the other; nothing is deduplicated.
    pub fn or(self, other: AstQuery<'a>) -> (r: AstQuery<'a>)
        ensures
            r@ == self@ + other@,
    {
        let mut results = self.results;
        let mut more = other.results;
        results.append(&mut more);
        AstQuery { results }
    }

    /// The results structurally equal to some result of `other`.
    pub fn and(self, other: AstQuery<'a>) -> (r: AstQuery<'a>)
        ensures
            r@ == select(self@, and_mask(self@, other@)),
    {
        let ghost mask = and_mask(self@, other@);
        let mut out: Vec<AstNode<'a>> = Vec::new();
        let mut i: usize = 0;
        while i < self.results.len()
            invariant
                i <= self@.len(),
                self@ == self.results@,
                other@ == other.results@,
                mask == and_mask(self@, other@),
                out@ == select(self@.take(i as int), mask),
            decreases self@.len() - i,
        {
            assert(self@.take(i + 1).drop_last() =~= self@.take(i as int));
            assert(self@.take(i + 1).last() == self@[i as int]);
            let n = &self.results[i];
            let mut found = false;
            let mut j: usize = 0;
            while j < other.results.len()
                invariant
                    i < self@.len(),
                    j <= other@.len(),
                    other@ == other.results@,
                    *n == self@[i as int],
                    found == occurs_in(*n, other@.take(j as int)),
                decreases other@.len() - j,
            {
                let ghost pre = other@.take(j as int);
                let ghost post = other@.take(j + 1);
                let eq = n.structurally_equal(&other.results[j]);
                proof {
                    assert(post[j as int] == other@[j as int]);
                    if occurs_in(*n, pre) {
                        let jj = choose|jj: int| 0 <= jj < pre.len() && #[trigger] same_node(*n, pre[jj]);
                        assert(post[jj] == pre[jj]);
                    }
                    if occurs_in(*n, post) {
                        let jj = choose|jj: int| 0 <= jj < post.len() && #[trigger] same_node(*n, post[jj]);
                        if jj < j {
                            assert(post[jj] == pre[jj]);
                        }
                    }
                }
                if eq {
                    found = true;
                }
                j += 1;
            }
            assert(other@.take(j as int) =~= other@);
            if found {
                out.push(n.duplicate());
            }
            i += 1;
        }
        assert(self@.take(i as int) =~= self@);
        AstQuery { results: out }
    }

    /// Negation is not supported: the result is always empty, whatever the
    /// input.
    pub fn not(self) -> (r: AstQuery<'a>)
        ensures
            r@ == Seq::<AstNode<'a>>::empty(),
    {
        AstQuery { results: Vec::new() }
    }

    pub fn has_results(self) -> (r: bool)
        ensures
            r == (self@.len() > 0),
    {
        self.results.len() > 0
    }

    pub fn count(self) -> (r: usize)
        ensures
            r == self@.len(),
    {
        self.results.len()
    }

    pub fn collect(self) -> (r: Vec<AstNode<'a>>)
        ensures
            r@ == self@,
    {
        self.results
    }

    /// One finding per result, at the fallback location, with the node's
    /// placeholder text.
    pub fn to_findings(self, severity: Severity, message: &str, file_path: &str) -> (r: Vec<Finding>)
        ensures
            r@.len() == self@.len(),
            forall|i: int| 0 <= i < r@.len() ==> #[trigger] plain_finding(r@[i], self@[i], severity, message@, file_path@),
    {
        let mut out: Vec<Finding> = Vec::new();
        let mut i: usize = 0;
        while i < self.results.len()
            invariant
                i <= self@.len(),
                self@ == self.results@,
                out@.len() == i,
                forall|k: int| 0 <= k < i ==> #[trigger] plain_finding(out@[k], self@[k], severity, message@, file_path@),
            decreases self@.len() - i,
        {
            let n = &self.results[i];
            let description = match &n.name {
                Some(nm) => string_from(message).concat(" in '").concat(nm.as_str()).concat("'"),
                None => string_from(message),
            };
            out.push(Finding { description, severity, location: fallback(file_path), code_snippet: Some(n.snippet()) });
            i += 1;
        }
        out
    }

    /// One finding per result, located by the span mapper; a node without a
    /// span gets the fallback location and its placeholder text.
    pub fn to_findings_with_span_extractor(
        self,
        severity: Severity,
        title: &str,
        description: &str,
        file_path: &str,
        span_extractor: &SpanExtractor,
    ) -> (r: Vec<Finding>)
        requires
            span_extractor.wf(),
        ensures
            r@.len() == self@.len(),
            forall|i: int|
                0 <= i < r@.len() ==> #[trigger] span_finding(
                    r@[i],
                    self@[i],
                    severity,
                    title@,
                    description@,
                    file_path@,
                    *span_extractor,
                ),
    {
        let mut out: Vec<Finding> = Vec::new();
        let mut i: usize = 0;
        while i < self.results.len()
            invariant
                i <= self@.len(),
                self@ == self.results@,
                span_extractor.wf(),
                out@.len() == i,
                forall|k: int|
                    0 <= k < i ==> #[trigger] span_finding(
                        out@[k],
                        self@[k],
                        severity,
                        title@,
                        description@,
                        file_path@,
                        *span_extractor,
                    ),
            decreases self@.len() - i,
        {
            let n = &self.results[i];
            let (location, snippet) = match n.span() {
                Some(sp) => (span_extractor.span_to_location(sp), span_extractor.span_to_snippet(sp)),
                None => (fallback(file_path), n.snippet()),
            };
            let text = match &n.name {
                Some(nm) => string_from(title).concat(" in '").concat(nm.as_str()).concat("'. ").concat(description),
                None => string_from(title).concat(": ").concat(description),
            };
            out.push(Finding { description: text, severity, location, code_snippet: Some(snippet) });
            i += 1;
        }
        out
    }
}

} // verus!
