//! The knowledge graph: nodes held in a `petgraph` directed graph, with
//! indexes by name, by mnemonic and by idiom category.
use vstd::prelude::*;
use petgraph::graph::{Graph, NodeIndex};
use petgraph::Directed;
use crate::types::{Arch, CallingConvention};
use crate::text::{
    append, append_str, chars_of, chars_of_string, contains_exec, contains_seq, decimal, eq_chars, eq_str, fmt_u64,
    to_lowercase, unicode_lowercase,
};

verus! {

/// An instruction of an architecture. Latency and throughput are in
/// hundredths of a cycle.
#[derive(Debug, Clone)]
pub struct InstructionNode {
    pub mnemonic: String,
    pub arch: Arch,
    pub summary: String,
    pub syntax_forms: Vec<String>,
    pub flags_read: Vec<String>,
    pub flags_written: Vec<String>,
    pub flags_undefined: Vec<String>,
    pub implicit_registers_read: Vec<String>,
    pub implicit_registers_written: Vec<String>,
    pub latency_centicycles: Option<u32>,
    pub throughput_centicycles: Option<u32>,
    pub extension: String,
    pub traps_and_pitfalls: Vec<String>,
}

#[derive(Debug, Clone)]
pub struct RegisterNode {
    pub name: String,
    pub arch: Arch,
    pub width_bits: usize,
    pub parent_register: Option<String>,
    pub sub_registers: Vec<String>,
    pub role: String,
}

#[derive(Debug, Clone)]
pub struct FlagNode {
    pub name: String,
    pub full_name: String,
    pub description: String,
    pub condition_codes_testing: Vec<String>,
}

#[derive(Debug, Clone)]
pub struct CallingConventionNode {
    pub id: CallingConvention,
    pub name: String,
    pub arch: Arch,
    pub arg_registers: Vec<String>,
    pub float_arg_registers: Vec<String>,
    pub return_registers: Vec<String>,
    pub callee_saved_registers: Vec<String>,
    pub caller_saved_registers: Vec<String>,
    pub stack_alignment_bytes: usize,
    pub shadow_space_bytes: usize,
    pub red_zone_bytes: usize,
    pub rules_and_traps: Vec<String>,
}

#[derive(Debug, Clone)]
pub struct IdiomNode {
    pub id: String,
    pub name: String,
    pub category: String,
    pub arch: Arch,
    pub description: String,
    pub assembly_intel: String,
    pub assembly_att: Option<String>,
    pub assembly_arm64: Option<String>,
    pub why_it_matters: String,
    pub latency_cycles: String,
}

#[derive(Debug, Clone)]
pub struct SyscallNode {
    pub id: u32,
    pub name: String,
    pub arch: Arch,
    pub os: String,
    pub signature: String,
    pub arg_registers: Vec<String>,
    pub return_register: String,
    pub clobbered_registers: Vec<String>,
}

#[derive(Debug, Clone)]
pub enum KnowledgeNode {
    Instruction(InstructionNode),
    Register(RegisterNode),
    Flag(FlagNode),
    CallingConvention(CallingConventionNode),
    Idiom(IdiomNode),
    Syscall(SyscallNode),
}

#[derive(Debug, Clone, Copy, PartialEq, Eq, Structural)]
pub enum KnowledgeEdge {
    ModifiesFlag,
    TestsFlag,
    ClobbersRegister,
    ImplicitRead,
    BelongsToConvention,
    OptimizedBy,
    HasSubRegister,
}

/// The texts of a list of strings.
pub open spec fn texts_view(v: Seq<String>) -> Seq<Seq<char>> {
    v.map_values(|s: String| s@)
}

/// The text of an optional string.
pub open spec fn opt_text(o: Option<String>) -> Option<Seq<char>> {
    match o {
        Some(s) => Some(s@),
        None => None,
    }
}

/// The mathematical content of an instruction node.
pub struct InstructionView {
    pub mnemonic: Seq<char>,
    pub arch: Arch,
    pub summary: Seq<char>,
    pub syntax_forms: Seq<Seq<char>>,
    pub flags_read: Seq<Seq<char>>,
    pub flags_written: Seq<Seq<char>>,
    pub flags_undefined: Seq<Seq<char>>,
    pub implicit_registers_read: Seq<Seq<char>>,
    pub implicit_registers_written: Seq<Seq<char>>,
    pub latency_centicycles: Option<u32>,
    pub throughput_centicycles: Option<u32>,
    pub extension: Seq<char>,
    pub traps_and_pitfalls: Seq<Seq<char>>,
}

impl View for InstructionNode {
    type V = InstructionView;

    open spec fn view(&self) -> InstructionView {
        InstructionView {
            mnemonic: self.mnemonic@,
            arch: self.arch,
            summary: self.summary@,
            syntax_forms: texts_view(self.syntax_forms@),
            flags_read: texts_view(self.flags_read@),
            flags_written: texts_view(self.flags_written@),
            flags_undefined: texts_view(self.flags_undefined@),
            implicit_registers_read: texts_view(self.implicit_registers_read@),
            implicit_registers_written: texts_view(self.implicit_registers_written@),
            latency_centicycles: self.latency_centicycles,
            throughput_centicycles: self.throughput_centicycles,
            extension: self.extension@,
            traps_and_pitfalls: texts_view(self.traps_and_pitfalls@),
        }
    }
}

/// The mathematical content of a register node.
pub struct RegisterView {
    pub name: Seq<char>,
    pub arch: Arch,
    pub width_bits: usize,
    pub parent_register: Option<Seq<char>>,
    pub sub_registers: Seq<Seq<char>>,
    pub role: Seq<char>,
}

impl View for RegisterNode {
    type V = RegisterView;

    open spec fn view(&self) -> RegisterView {
        RegisterView {
            name: self.name@,
            arch: self.arch,
            width_bits: self.width_bits,
            parent_register: opt_text(self.parent_register),
            sub_registers: texts_view(self.sub_registers@),
            role: self.role@,
        }
    }
}

/// The mathematical content of a flag node.
pub struct FlagView {
    pub name: Seq<char>,
    pub full_name: Seq<char>,
    pub description: Seq<char>,
    pub condition_codes_testing: Seq<Seq<char>>,
}

impl View for FlagNode {
    type V = FlagView;

    open spec fn view(&self) -> FlagView {
        FlagView {
            name: self.name@,
            full_name: self.full_name@,
            description: self.description@,
            condition_codes_testing: texts_view(self.condition_codes_testing@),
        }
    }
}

/// The mathematical content of a calling convention node.
pub struct ConventionView {
    pub id: CallingConvention,
    pub name: Seq<char>,
    pub arch: Arch,
    pub arg_registers: Seq<Seq<char>>,
    pub float_arg_registers: Seq<Seq<char>>,
    pub return_registers: Seq<Seq<char>>,
    pub callee_saved_registers: Seq<Seq<char>>,
    pub caller_saved_registers: Seq<Seq<char>>,
    pub stack_alignment_bytes: usize,
    pub shadow_space_bytes: usize,
    pub red_zone_bytes: usize,
    pub rules_and_traps: Seq<Seq<char>>,
}

impl View for CallingConventionNode {
    type V = ConventionView;

    open spec fn view(&self) -> ConventionView {
        ConventionView {
            id: self.id,
            name: self.name@,
            arch: self.arch,
            arg_registers: texts_view(self.arg_registers@),
            float_arg_registers: texts_view(self.float_arg_registers@),
            return_registers: texts_view(self.return_registers@),
            callee_saved_registers: texts_view(self.callee_saved_registers@),
            caller_saved_registers: texts_view(self.caller_saved_registers@),
            stack_alignment_bytes: self.stack_alignment_bytes,
            shadow_space_bytes: self.shadow_space_bytes,
            red_zone_bytes: self.red_zone_bytes,
            rules_and_traps: texts_view(self.rules_and_traps@),
        }
    }
}

/// The mathematical content of an idiom node.
pub struct IdiomView {
    pub id: Seq<char>,
    pub name: Seq<char>,
    pub category: Seq<char>,
    pub arch: Arch,
    pub description: Seq<char>,
    pub assembly_intel: Seq<char>,
    pub assembly_att: Option<Seq<char>>,
    pub assembly_arm64: Option<Seq<char>>,
    pub why_it_matters: Seq<char>,
    pub latency_cycles: Seq<char>,
}

impl View for IdiomNode {
    type V = IdiomView;

    open spec fn view(&self) -> IdiomView {
        IdiomView {
            id: self.id@,
            name: self.name@,
            category: self.category@,
            arch: self.arch,
            description: self.description@,
            assembly_intel: self.assembly_intel@,
            assembly_att: opt_text(self.assembly_att),
            assembly_arm64: opt_text(self.assembly_arm64),
            why_it_matters: self.why_it_matters@,
            latency_cycles: self.latency_cycles@,
        }
    }
}

/// The mathematical content of a system call node.
pub struct SyscallView {
    pub id: u32,
    pub name: Seq<char>,
    pub arch: Arch,
    pub os: Seq<char>,
    pub signature: Seq<char>,
    pub arg_registers: Seq<Seq<char>>,
    pub return_register: Seq<char>,
    pub clobbered_registers: Seq<Seq<char>>,
}

impl View for SyscallNode {
    type V = SyscallView;

    open spec fn view(&self) -> SyscallView {
        SyscallView {
            id: self.id,
            name: self.name@,
            arch: self.arch,
            os: self.os@,
            signature: self.signature@,
            arg_registers: texts_view(self.arg_registers@),
            return_register: self.return_register@,
            clobbered_registers: texts_view(self.clobbered_registers@),
        }
    }
}

/// The mathematical content of a knowledge node.
pub enum KnowledgeView {
    Instruction(InstructionView),
    Register(RegisterView),
    Flag(FlagView),
    CallingConvention(ConventionView),
    Idiom(IdiomView),
    Syscall(SyscallView),
}

impl View for KnowledgeNode {
    type V = KnowledgeView;

    open spec fn view(&self) -> KnowledgeView {
        match self {
            KnowledgeNode::Instruction(i) => KnowledgeView::Instruction(i@),
            KnowledgeNode::Register(r) => KnowledgeView::Register(r@),
            KnowledgeNode::Flag(f) => KnowledgeView::Flag(f@),
            KnowledgeNode::CallingConvention(c) => KnowledgeView::CallingConvention(c@),
            KnowledgeNode::Idiom(i) => KnowledgeView::Idiom(i@),
            KnowledgeNode::Syscall(sc) => KnowledgeView::Syscall(sc@),
        }
    }
}

/// The views of a list of nodes.
pub open spec fn nodes_view(v: Seq<KnowledgeNode>) -> Seq<KnowledgeView> {
    v.map_values(|n: KnowledgeNode| n@)
}

#[verifier::external_type_specification]
#[verifier::external_body]
#[verifier::reject_recursive_types(N)]
#[verifier::reject_recursive_types(E)]
#[verifier::reject_recursive_types(Ty)]
#[verifier::reject_recursive_types(Ix)]
pub struct ExGraph<N, E, Ty, Ix>(Graph<N, E, Ty, Ix>);

#[verifier::external_type_specification]
#[verifier::external_body]
pub struct ExDirected(Directed);

/// The node weights of a graph, in index order.
pub uninterp spec fn graph_nodes(g: Graph<KnowledgeNode, KnowledgeEdge, Directed, u32>) -> Seq<KnowledgeNode>;

/// The edges of a graph (source, target, weight), in index order.
pub uninterp spec fn graph_edges(g: Graph<KnowledgeNode, KnowledgeEdge, Directed, u32>) -> Seq<(nat, nat, KnowledgeEdge)>;

/// `Graph::new`: a graph with no nodes and no edges.
#[verifier::external_body]
fn graph_new() -> (g: Graph<KnowledgeNode, KnowledgeEdge, Directed, u32>)
    ensures
        graph_nodes(g) == Seq::<KnowledgeNode>::empty(),
        graph_edges(g) == Seq::<(nat, nat, KnowledgeEdge)>::empty(),
{
    Graph::new()
}

/// `Graph::add_node`, then `NodeIndex::index`: the weight goes at the end
/// and its index, the former node count, comes back. The source panics at
/// `u32::MAX` nodes, which `requires` leaves out.
#[verifier::external_body]
fn graph_add_node(g: &mut Graph<KnowledgeNode, KnowledgeEdge, Directed, u32>, n: KnowledgeNode) -> (i: usize)
    requires
        graph_nodes(*old(g)).len() < u32::MAX,
    ensures
        graph_nodes(*final(g)) == graph_nodes(*old(g)).push(n),
        graph_edges(*final(g)) == graph_edges(*old(g)),
        i == graph_nodes(*old(g)).len(),
{
    g.add_node(n).index()
}

/// `Graph::add_edge` between two existing nodes: the edge goes at the end.
/// The source panics on a missing node and at `u32::MAX` edges, which
/// `requires` leaves out.
#[verifier::external_body]
fn graph_add_edge(g: &mut Graph<KnowledgeNode, KnowledgeEdge, Directed, u32>, a: usize, b: usize, e: KnowledgeEdge)
    requires
        a < graph_nodes(*old(g)).len(),
        b < graph_nodes(*old(g)).len(),
        graph_edges(*old(g)).len() < u32::MAX,
    ensures
        graph_nodes(*final(g)) == graph_nodes(*old(g)),
        graph_edges(*final(g)) == graph_edges(*old(g)).push((a as nat, b as nat, e)),
{
    g.add_edge(NodeIndex::new(a), NodeIndex::new(b), e);
}

/// `Graph::node_count`.
#[verifier::external_body]
fn graph_node_count(g: &Graph<KnowledgeNode, KnowledgeEdge, Directed, u32>) -> (n: usize)
    ensures
        n == graph_nodes(*g).len(),
{
    g.node_count()
}

/// `Graph`'s indexing by `NodeIndex`: the weight of node `i`.
#[verifier::external_body]
fn graph_node(g: &Graph<KnowledgeNode, KnowledgeEdge, Directed, u32>, i: usize) -> (r: &KnowledgeNode)
    requires
        i < graph_nodes(*g).len(),
    ensures
        *r == graph_nodes(*g)[i as int],
{
    &g[NodeIndex::new(i)]
}


// ---------------------------------------------------------------------------
// Indexes: lists of (key, ...) entries, each key at most once, in the order
// keys were first seen.

/// Position of the entry with key `k` at or after `i`.
pub open spec fn key_pos<V>(es: Seq<(Seq<char>, V)>, k: Seq<char>, i: int) -> Option<int>
    decreases es.len() - i,
{
    if i < 0 || i >= es.len() {
        None
    } else if es[i].0 == k {
        Some(i)
    } else {
        key_pos(es, k, i + 1)
    }
}

/// A name index after `k` is bound to `x` (a later binding replaces the earlier).
pub open spec fn name_put(es: Seq<(Seq<char>, usize)>, k: Seq<char>, x: usize) -> Seq<(Seq<char>, usize)> {
    match key_pos(es, k, 0) {
        Some(j) => es.update(j, (k, x)),
        None => es.push((k, x)),
    }
}

/// What a name index binds `k` to.
pub open spec fn name_get(es: Seq<(Seq<char>, usize)>, k: Seq<char>) -> Option<usize> {
    match key_pos(es, k, 0) {
        Some(j) => Some(es[j].1),
        None => None,
    }
}

/// A multi-index after `x` is added under `k`, after the others there.
pub open spec fn multi_add(es: Seq<(Seq<char>, Seq<usize>)>, k: Seq<char>, x: usize) -> Seq<(Seq<char>, Seq<usize>)> {
    match key_pos(es, k, 0) {
        Some(j) => es.update(j, (k, es[j].1.push(x))),
        None => es.push((k, seq![x])),
    }
}

/// The node indices a multi-index holds under `k`, in the order added.
pub open spec fn multi_get(es: Seq<(Seq<char>, Seq<usize>)>, k: Seq<char>) -> Seq<usize> {
    match key_pos(es, k, 0) {
        Some(j) => es[j].1,
        None => Seq::empty(),
    }
}

proof fn lemma_key_pos<V>(es: Seq<(Seq<char>, V)>, k: Seq<char>, i: int)
    requires
        0 <= i,
    ensures
        key_pos(es, k, i) matches Some(j) ==> i <= j < es.len() && es[j].0 == k
            && forall|t: int| i <= t < j ==> (#[trigger] es[t]).0 != k,
        key_pos(es, k, i) is None ==> forall|t: int| i <= t < es.len() ==> (#[trigger] es[t]).0 != k,
    decreases es.len() - i,
{
    if i < es.len() && es[i].0 != k {
        lemma_key_pos(es, k, i + 1);
    }
}

fn find_name(v: &Vec<(Vec<char>, usize)>, k: &Vec<char>) -> (r: Option<usize>)
    ensures
        r matches Some(j) ==> j < v.len() && key_pos(v@.map_values(|e: (Vec<char>, usize)| (e.0@, e.1)), k@, 0) == Some(j as int),
        r is None ==> key_pos(v@.map_values(|e: (Vec<char>, usize)| (e.0@, e.1)), k@, 0) is None,
{
    let ghost es = v@.map_values(|e: (Vec<char>, usize)| (e.0@, e.1));
    let mut i: usize = 0;
    while i < v.len()
        invariant
            i <= v.len(),
            es == v@.map_values(|e: (Vec<char>, usize)| (e.0@, e.1)),
            key_pos(es, k@, 0) == key_pos(es, k@, i as int),
        decreases v.len() - i,
    {
        if crate::text::eq_chars(&v[i].0, k) {
            return Some(i);
        }
        i = i + 1;
    }
    None
}

fn find_multi(v: &Vec<(Vec<char>, Vec<usize>)>, k: &Vec<char>) -> (r: Option<usize>)
    ensures
        r matches Some(j) ==> j < v.len() && key_pos(v@.map_values(|e: (Vec<char>, Vec<usize>)| (e.0@, e.1@)), k@, 0) == Some(j as int),
        r is None ==> key_pos(v@.map_values(|e: (Vec<char>, Vec<usize>)| (e.0@, e.1@)), k@, 0) is None,
{
    let ghost es = v@.map_values(|e: (Vec<char>, Vec<usize>)| (e.0@, e.1@));
    let mut i: usize = 0;
    while i < v.len()
        invariant
            i <= v.len(),
            es == v@.map_values(|e: (Vec<char>, Vec<usize>)| (e.0@, e.1@)),
            key_pos(es, k@, 0) == key_pos(es, k@, i as int),
        decreases v.len() - i,
    {
        if crate::text::eq_chars(&v[i].0, k) {
            return Some(i);
        }
        i = i + 1;
    }
    None
}

fn name_put_exec(v: &mut Vec<(Vec<char>, usize)>, k: Vec<char>, x: usize)
    ensures
        final(v)@.map_values(|e: (Vec<char>, usize)| (e.0@, e.1))
            == name_put(old(v)@.map_values(|e: (Vec<char>, usize)| (e.0@, e.1)), k@, x),
{
    let ghost es = v@.map_values(|e: (Vec<char>, usize)| (e.0@, e.1));
    let ghost kv = k@;
    match find_name(v, &k) {
        Some(j) => {
            v.set(j, (k, x));
            proof {
                assert(v@.map_values(|e: (Vec<char>, usize)| (e.0@, e.1)) =~= es.update(j as int, (kv, x)));
            }
        },
        None => {
            v.push((k, x));
            proof {
                assert(v@.map_values(|e: (Vec<char>, usize)| (e.0@, e.1)) =~= es.push((kv, x)));
            }
        },
    }
}

fn multi_add_exec(v: &mut Vec<(Vec<char>, Vec<usize>)>, k: Vec<char>, x: usize)
    ensures
        final(v)@.map_values(|e: (Vec<char>, Vec<usize>)| (e.0@, e.1@))
            == multi_add(old(v)@.map_values(|e: (Vec<char>, Vec<usize>)| (e.0@, e.1@)), k@, x),
{
    let ghost es = v@.map_values(|e: (Vec<char>, Vec<usize>)| (e.0@, e.1@));
    match find_multi(v, &k) {
        Some(j) => {
            proof {
                lemma_key_pos(es, k@, 0);
            }
            let mut e = v.remove(j);
            e.1.push(x);
            v.insert(j, e);
            proof {
                assert(v@.map_values(|e: (Vec<char>, Vec<usize>)| (e.0@, e.1@)) =~= es.update(j as int, (k@, es[j as int].1.push(x))));
            }
        },
        None => {
            let ghost kv = k@;
            let mut one: Vec<usize> = Vec::new();
            one.push(x);
            v.push((k, one));
            proof {
                assert(v@.map_values(|e: (Vec<char>, Vec<usize>)| (e.0@, e.1@)) =~= es.push((kv, seq![x])));
            }
        },
    }
}


// ---------------------------------------------------------------------------
// The graph.

/// The key under which a node is found by name.
pub open spec fn node_key(n: KnowledgeNode) -> Seq<char> {
    match n {
        KnowledgeNode::Instruction(i) => "instr:"@ + i.arch.name_spec() + ":"@ + unicode_lowercase(i.mnemonic@),
        KnowledgeNode::Register(r) => "reg:"@ + r.arch.name_spec() + ":"@ + unicode_lowercase(r.name@),
        KnowledgeNode::Flag(f) => "flag:"@ + unicode_lowercase(f.name@),
        KnowledgeNode::CallingConvention(c) => "abi:"@ + c.id.debug_name(),
        KnowledgeNode::Idiom(i) => "idiom:"@ + unicode_lowercase(i.id@),
        KnowledgeNode::Syscall(sc) => "syscall:"@ + sc.os@ + ":"@ + sc.arch.name_spec() + ":"@ + unicode_lowercase(sc.name@),
    }
}

/// The knowledge graph: the nodes and relations, an index from node keys to
/// nodes, one from lower-case mnemonics to instructions and one from
/// lower-case categories to idioms. Node indices are positions in the graph.
pub struct KnowledgeGraph {
    pub graph: Graph<KnowledgeNode, KnowledgeEdge, Directed, u32>,
    pub name_index: Vec<(Vec<char>, usize)>,
    pub mnemonic_index: Vec<(Vec<char>, Vec<usize>)>,
    pub idiom_category_index: Vec<(Vec<char>, Vec<usize>)>,
}

pub open spec fn names_view(v: Seq<(Vec<char>, usize)>) -> Seq<(Seq<char>, usize)> {
    v.map_values(|e: (Vec<char>, usize)| (e.0@, e.1))
}

pub open spec fn multi_view(v: Seq<(Vec<char>, Vec<usize>)>) -> Seq<(Seq<char>, Seq<usize>)> {
    v.map_values(|e: (Vec<char>, Vec<usize>)| (e.0@, e.1@))
}

/// Every index a multi-index holds is below `n`.
pub open spec fn multi_below(es: Seq<(Seq<char>, Seq<usize>)>, n: nat) -> bool {
    forall|j: int, t: int| 0 <= j < es.len() && 0 <= t < es[j].1.len() ==> #[trigger] es[j].1[t] < n
}

impl KnowledgeGraph {
    pub open spec fn nodes(&self) -> Seq<KnowledgeNode> {
        graph_nodes(self.graph)
    }

    pub open spec fn edges(&self) -> Seq<(nat, nat, KnowledgeEdge)> {
        graph_edges(self.graph)
    }

    pub open spec fn names(&self) -> Seq<(Seq<char>, usize)> {
        names_view(self.name_index@)
    }

    pub open spec fn mnemonics(&self) -> Seq<(Seq<char>, Seq<usize>)> {
        multi_view(self.mnemonic_index@)
    }

    pub open spec fn categories(&self) -> Seq<(Seq<char>, Seq<usize>)> {
        multi_view(self.idiom_category_index@)
    }

    /// Every index points at a node of the graph, and the idiom category
    /// index is the one that adding the nodes in order builds.
    pub open spec fn wf(&self) -> bool {
        &&& self.index_wf()
        &&& self.categories() == category_index_of(self.nodes())
    }

    /// Every index points at a node of the graph.
    pub open spec fn index_wf(&self) -> bool {
        &&& self.nodes().len() <= u32::MAX
        &&& forall|j: int| 0 <= j < self.names().len() ==> #[trigger] self.names()[j].1 < self.nodes().len()
        &&& multi_below(self.mnemonics(), self.nodes().len())
        &&& multi_below(self.categories(), self.nodes().len())
    }

    /// An empty graph.
    pub fn new() -> (g: Self)
        ensures
            g.wf(),
            g.nodes() == Seq::<KnowledgeNode>::empty(),
            g.edges() == Seq::<(nat, nat, KnowledgeEdge)>::empty(),
            g.names() == Seq::<(Seq<char>, usize)>::empty(),
            g.mnemonics() == Seq::<(Seq<char>, Seq<usize>)>::empty(),
            g.categories() == Seq::<(Seq<char>, Seq<usize>)>::empty(),
    {
        let g = KnowledgeGraph {
            graph: graph_new(),
            name_index: Vec::new(),
            mnemonic_index: Vec::new(),
            idiom_category_index: Vec::new(),
        };
        proof {
            assert(g.names() =~= Seq::<(Seq<char>, usize)>::empty());
            assert(g.mnemonics() =~= Seq::<(Seq<char>, Seq<usize>)>::empty());
            assert(g.categories() =~= Seq::<(Seq<char>, Seq<usize>)>::empty());
        }
        g
    }
}

proof fn lemma_name_put_below(es: Seq<(Seq<char>, usize)>, k: Seq<char>, x: usize, n: nat)
    requires
        forall|j: int| 0 <= j < es.len() ==> #[trigger] es[j].1 < n,
        x < n,
    ensures
        forall|j: int| 0 <= j < name_put(es, k, x).len() ==> #[trigger] name_put(es, k, x)[j].1 < n,
{
    lemma_key_pos(es, k, 0);
}

proof fn lemma_multi_add_below(es: Seq<(Seq<char>, Seq<usize>)>, k: Seq<char>, x: usize, n: nat)
    requires
        multi_below(es, n),
        x < n,
    ensures
        multi_below(multi_add(es, k, x), n),
{
    lemma_key_pos(es, k, 0);
    let r = multi_add(es, k, x);
    assert forall|j: int, t: int| 0 <= j < r.len() && 0 <= t < r[j].1.len() implies #[trigger] r[j].1[t] < n by {
        match key_pos(es, k, 0) {
            Some(p) => {
                if j == p && t == es[p].1.len() {
                } else if j == p {
                    assert(r[j].1[t] == es[j].1[t]);
                }
            },
            None => {
                if j < es.len() {
                    assert(r[j] == es[j]);
                }
            },
        }
    }
}

proof fn lemma_multi_below_grow(es: Seq<(Seq<char>, Seq<usize>)>, n: nat, m: nat)
    requires
        multi_below(es, n),
        n <= m,
    ensures
        multi_below(es, m),
{
}


fn arch_text(a: Arch) -> (v: Vec<char>)
    ensures
        v@ == a.name_spec(),
{
    chars_of_string(&a.to_string())
}

fn lower_text(s: &String) -> (v: Vec<char>)
    ensures
        v@ == unicode_lowercase(s@),
{
    to_lowercase(&chars_of_string(s))
}

impl KnowledgeGraph {
    /// Adds a node and binds its key to it.
    fn insert_node(&mut self, n: KnowledgeNode, key: Vec<char>) -> (idx: usize)
        requires
            old(self).wf(),
            old(self).nodes().len() < u32::MAX,
        ensures
            idx == old(self).nodes().len(),
            final(self).nodes() == old(self).nodes().push(n),
            final(self).edges() == old(self).edges(),
            final(self).names() == name_put(old(self).names(), key@, idx),
            final(self).mnemonics() == old(self).mnemonics(),
            final(self).categories() == old(self).categories(),
            final(self).index_wf(),
    {
        let idx = graph_add_node(&mut self.graph, n);
        name_put_exec(&mut self.name_index, key, idx);
        proof {
            lemma_name_put_below(old(self).names(), key@, idx, self.nodes().len());
            lemma_multi_below_grow(self.mnemonics(), old(self).nodes().len(), self.nodes().len());
            lemma_multi_below_grow(self.categories(), old(self).nodes().len(), self.nodes().len());
        }
        idx
    }

    /// Adds an instruction, found by its key and by its lower-case mnemonic.
    pub fn add_instruction(&mut self, instr: InstructionNode) -> (idx: usize)
        requires
            old(self).wf(),
            old(self).nodes().len() < u32::MAX,
        ensures
            final(self).wf(),
            idx == old(self).nodes().len(),
            final(self).nodes() == old(self).nodes().push(KnowledgeNode::Instruction(instr)),
            final(self).edges() == old(self).edges(),
            final(self).names() == name_put(old(self).names(), node_key(KnowledgeNode::Instruction(instr)), idx),
            final(self).mnemonics() == multi_add(old(self).mnemonics(), unicode_lowercase(instr.mnemonic@), idx),
            final(self).categories() == old(self).categories(),
    {
        proof {
            lemma_category_index_push();
        }
        let mnemonic_key = lower_text(&instr.mnemonic);
        let mut full_key = chars_of("instr:");
        append(&mut full_key, &arch_text(instr.arch));
        append_str(&mut full_key, ":");
        append(&mut full_key, &mnemonic_key);
        let idx = self.insert_node(KnowledgeNode::Instruction(instr), full_key);
        multi_add_exec(&mut self.mnemonic_index, mnemonic_key, idx);
        proof {
            reveal_strlit("instr:");
            reveal_strlit(":");
            lemma_multi_add_below(old(self).mnemonics(), unicode_lowercase(instr.mnemonic@), idx, self.nodes().len());
        }
        idx
    }

    /// Adds a register, found by its key.
    pub fn add_register(&mut self, reg: RegisterNode) -> (idx: usize)
        requires
            old(self).wf(),
            old(self).nodes().len() < u32::MAX,
        ensures
            final(self).wf(),
            idx == old(self).nodes().len(),
            final(self).nodes() == old(self).nodes().push(KnowledgeNode::Register(reg)),
            final(self).edges() == old(self).edges(),
            final(self).names() == name_put(old(self).names(), node_key(KnowledgeNode::Register(reg)), idx),
            final(self).mnemonics() == old(self).mnemonics(),
            final(self).categories() == old(self).categories(),
    {
        proof {
            lemma_category_index_push();
        }
        let mut key = chars_of("reg:");
        append(&mut key, &arch_text(reg.arch));
        append_str(&mut key, ":");
        append(&mut key, &lower_text(&reg.name));
        proof {
            reveal_strlit("reg:");
            reveal_strlit(":");
        }
        self.insert_node(KnowledgeNode::Register(reg), key)
    }

    /// Adds a flag, found by its key.
    pub fn add_flag(&mut self, flag: FlagNode) -> (idx: usize)
        requires
            old(self).wf(),
            old(self).nodes().len() < u32::MAX,
        ensures
            final(self).wf(),
            idx == old(self).nodes().len(),
            final(self).nodes() == old(self).nodes().push(KnowledgeNode::Flag(flag)),
            final(self).edges() == old(self).edges(),
            final(self).names() == name_put(old(self).names(), node_key(KnowledgeNode::Flag(flag)), idx),
            final(self).mnemonics() == old(self).mnemonics(),
            final(self).categories() == old(self).categories(),
    {
        proof {
            lemma_category_index_push();
        }
        let mut key = chars_of("flag:");
        append(&mut key, &lower_text(&flag.name));
        proof {
            reveal_strlit("flag:");
        }
        self.insert_node(KnowledgeNode::Flag(flag), key)
    }

    /// Adds a calling convention, found by its key.
    pub fn add_calling_convention(&mut self, conv: CallingConventionNode) -> (idx: usize)
        requires
            old(self).wf(),
            old(self).nodes().len() < u32::MAX,
        ensures
            final(self).wf(),
            idx == old(self).nodes().len(),
            final(self).nodes() == old(self).nodes().push(KnowledgeNode::CallingConvention(conv)),
            final(self).edges() == old(self).edges(),
            final(self).names() == name_put(old(self).names(), node_key(KnowledgeNode::CallingConvention(conv)), idx),
            final(self).mnemonics() == old(self).mnemonics(),
            final(self).categories() == old(self).categories(),
    {
        proof {
            lemma_category_index_push();
        }
        let mut key = chars_of("abi:");
        append(&mut key, &conv.id.debug_text());
        proof {
            reveal_strlit("abi:");
        }
        self.insert_node(KnowledgeNode::CallingConvention(conv), key)
    }

    /// Adds an idiom, found by its key and by its lower-case category.
    pub fn add_idiom(&mut self, idiom: IdiomNode) -> (idx: usize)
        requires
            old(self).wf(),
            old(self).nodes().len() < u32::MAX,
        ensures
            final(self).wf(),
            idx == old(self).nodes().len(),
            final(self).nodes() == old(self).nodes().push(KnowledgeNode::Idiom(idiom)),
            final(self).edges() == old(self).edges(),
            final(self).names() == name_put(old(self).names(), node_key(KnowledgeNode::Idiom(idiom)), idx),
            final(self).mnemonics() == old(self).mnemonics(),
            final(self).categories() == multi_add(old(self).categories(), unicode_lowercase(idiom.category@), idx),
    {
        proof {
            lemma_category_index_push();
        }
        let mut key = chars_of("idiom:");
        append(&mut key, &lower_text(&idiom.id));
        let cat_key = lower_text(&idiom.category);
        let idx = self.insert_node(KnowledgeNode::Idiom(idiom), key);
        multi_add_exec(&mut self.idiom_category_index, cat_key, idx);
        proof {
            reveal_strlit("idiom:");
            lemma_multi_add_below(old(self).categories(), unicode_lowercase(idiom.category@), idx, self.nodes().len());
        }
        idx
    }

    /// Adds a system call, found by its key.
    pub fn add_syscall(&mut self, sc: SyscallNode) -> (idx: usize)
        requires
            old(self).wf(),
            old(self).nodes().len() < u32::MAX,
        ensures
            final(self).wf(),
            idx == old(self).nodes().len(),
            final(self).nodes() == old(self).nodes().push(KnowledgeNode::Syscall(sc)),
            final(self).edges() == old(self).edges(),
            final(self).names() == name_put(old(self).names(), node_key(KnowledgeNode::Syscall(sc)), idx),
            final(self).mnemonics() == old(self).mnemonics(),
            final(self).categories() == old(self).categories(),
    {
        proof {
            lemma_category_index_push();
        }
        let mut key = chars_of("syscall:");
        append(&mut key, &chars_of_string(&sc.os));
        append_str(&mut key, ":");
        append(&mut key, &arch_text(sc.arch));
        append_str(&mut key, ":");
        append(&mut key, &lower_text(&sc.name));
        proof {
            reveal_strlit("syscall:");
            reveal_strlit(":");
        }
        self.insert_node(KnowledgeNode::Syscall(sc), key)
    }

    /// Adds a relation between two nodes of the graph.
    pub fn add_relation(&mut self, from: usize, to: usize, edge: KnowledgeEdge)
        requires
            old(self).wf(),
            from < old(self).nodes().len(),
            to < old(self).nodes().len(),
            old(self).edges().len() < u32::MAX,
        ensures
            final(self).wf(),
            final(self).nodes() == old(self).nodes(),
            final(self).edges() == old(self).edges().push((from as nat, to as nat, edge)),
            final(self).names() == old(self).names(),
            final(self).mnemonics() == old(self).mnemonics(),
            final(self).categories() == old(self).categories(),
    {
        graph_add_edge(&mut self.graph, from, to, edge);
        proof {
            assert(self.nodes().len() == old(self).nodes().len());
            assert(self.names() == old(self).names());
            assert(self.mnemonics() == old(self).mnemonics());
            assert(self.categories() == old(self).categories());
        }
    }
}

impl Default for KnowledgeGraph {
    fn default() -> (g: Self)
        ensures
            g.wf(),
            g.nodes() == Seq::<KnowledgeNode>::empty(),
            g.edges() == Seq::<(nat, nat, KnowledgeEdge)>::empty(),
    {
        KnowledgeGraph::new()
    }
}


// ---------------------------------------------------------------------------
// Lookups.

/// Whether some text of a list, in lower case, contains `q`.
pub open spec fn some_lower_contains(v: Seq<String>, q: Seq<char>) -> bool {
    exists|i: int| 0 <= i < v.len() && contains_seq(unicode_lowercase((#[trigger] v[i])@), q)
}

/// Whether some text of a list, in lower case, is `q`.
pub open spec fn some_lower_equals(v: Seq<String>, q: Seq<char>) -> bool {
    exists|i: int| 0 <= i < v.len() && unicode_lowercase((#[trigger] v[i])@) == q
}

/// Whether a node answers the lower-case query `q`.
pub open spec fn node_hit(n: KnowledgeNode, q: Seq<char>) -> bool {
    match n {
        KnowledgeNode::Instruction(i) => contains_seq(unicode_lowercase(i.mnemonic@), q)
            || contains_seq(unicode_lowercase(i.summary@), q)
            || contains_seq(unicode_lowercase(i.extension@), q)
            || some_lower_contains(i.syntax_forms@, q),
        KnowledgeNode::Register(r) => unicode_lowercase(r.name@) == q || contains_seq(unicode_lowercase(r.role@), q),
        KnowledgeNode::Flag(f) => unicode_lowercase(f.name@) == q
            || contains_seq(unicode_lowercase(f.full_name@), q)
            || contains_seq(unicode_lowercase(f.description@), q),
        KnowledgeNode::CallingConvention(c) => {
            let id = unicode_lowercase(c.id.debug_name());
            contains_seq(unicode_lowercase(c.name@), q)
                || contains_seq(id, q)
                || (q == "windows"@ && contains_seq(id, "windows"@))
                || (q == "linux"@ && contains_seq(id, "systemv"@))
                || (q == "abi"@ || q == "convention"@)
                || some_lower_equals(c.arg_registers@, q)
        },
        KnowledgeNode::Idiom(i) => contains_seq(unicode_lowercase(i.name@), q)
            || contains_seq(unicode_lowercase(i.category@), q)
            || contains_seq(unicode_lowercase(i.description@), q)
            || contains_seq(unicode_lowercase(i.why_it_matters@), q),
        KnowledgeNode::Syscall(sc) => contains_seq(unicode_lowercase(sc.name@), q)
            || decimal(sc.id as int) == q
            || q == "syscall"@,
    }
}

fn some_lower_contains_exec(v: &Vec<String>, q: &Vec<char>) -> (b: bool)
    ensures
        b == some_lower_contains(v@, q@),
{
    let mut i: usize = 0;
    while i < v.len()
        invariant
            i <= v.len(),
            forall|k: int| 0 <= k < i ==> !contains_seq(unicode_lowercase((#[trigger] v@[k])@), q@),
        decreases v.len() - i,
    {
        if contains_exec(&lower_text(&v[i]), q) {
            return true;
        }
        i = i + 1;
    }
    false
}

fn some_lower_equals_exec(v: &Vec<String>, q: &Vec<char>) -> (b: bool)
    ensures
        b == some_lower_equals(v@, q@),
{
    let mut i: usize = 0;
    while i < v.len()
        invariant
            i <= v.len(),
            forall|k: int| 0 <= k < i ==> unicode_lowercase((#[trigger] v@[k])@) != q@,
        decreases v.len() - i,
    {
        if eq_chars(&lower_text(&v[i]), q) {
            return true;
        }
        i = i + 1;
    }
    false
}

fn lower_contains(s: &String, q: &Vec<char>) -> (b: bool)
    ensures
        b == contains_seq(unicode_lowercase(s@), q@),
{
    contains_exec(&lower_text(s), q)
}

fn node_hit_exec(n: &KnowledgeNode, q: &Vec<char>) -> (b: bool)
    ensures
        b == node_hit(*n, q@),
{
    match n {
        KnowledgeNode::Instruction(i) => lower_contains(&i.mnemonic, q) || lower_contains(&i.summary, q)
            || lower_contains(&i.extension, q) || some_lower_contains_exec(&i.syntax_forms, q),
        KnowledgeNode::Register(r) => eq_chars(&lower_text(&r.name), q) || lower_contains(&r.role, q),
        KnowledgeNode::Flag(f) => eq_chars(&lower_text(&f.name), q) || lower_contains(&f.full_name, q)
            || lower_contains(&f.description, q),
        KnowledgeNode::CallingConvention(c) => {
            let id = to_lowercase(&c.id.debug_text());
            contains_exec(&lower_text(&c.name), q) || contains_exec(&id, q)
                || (eq_str(q, "windows") && contains_exec(&id, &chars_of("windows")))
                || (eq_str(q, "linux") && contains_exec(&id, &chars_of("systemv")))
                || (eq_str(q, "abi") || eq_str(q, "convention"))
                || some_lower_equals_exec(&c.arg_registers, q)
        },
        KnowledgeNode::Idiom(i) => lower_contains(&i.name, q) || lower_contains(&i.category, q)
            || lower_contains(&i.description, q) || lower_contains(&i.why_it_matters, q),
        KnowledgeNode::Syscall(sc) => lower_contains(&sc.name, q) || eq_chars(&fmt_u64(sc.id as u64), q)
            || eq_str(q, "syscall"),
    }
}

/// The nodes a query picks, by index: first the instructions filed under
/// the query as a mnemonic, then, over the first `k` nodes in index order,
/// each that answers it and is not picked yet.
pub open spec fn query_scan(nodes: Seq<KnowledgeNode>, first: Seq<usize>, q: Seq<char>, k: int) -> Seq<usize>
    decreases k,
{
    if k <= 0 {
        first
    } else {
        let acc = query_scan(nodes, first, q, k - 1);
        if node_hit(nodes[k - 1], q) && !acc.contains((k - 1) as usize) {
            acc.push((k - 1) as usize)
        } else {
            acc
        }
    }
}

/// The indices of the nodes a query for `term` returns, in order.
pub open spec fn query_indices(g: KnowledgeGraph, term: Seq<char>) -> Seq<usize> {
    let q = unicode_lowercase(term);
    query_scan(g.nodes(), multi_get(g.mnemonics(), q), q, g.nodes().len() as int)
}

/// The instruction among the nodes at `idxs[t..]` first of architecture `arch`.
pub open spec fn first_instruction(nodes: Seq<KnowledgeNode>, idxs: Seq<usize>, arch: Arch, t: int) -> Option<InstructionNode>
    decreases idxs.len() - t,
{
    if t < 0 || t >= idxs.len() {
        None
    } else {
        match nodes[idxs[t] as int] {
            KnowledgeNode::Instruction(i) => if i.arch == arch {
                Some(i)
            } else {
                first_instruction(nodes, idxs, arch, t + 1)
            },
            _ => first_instruction(nodes, idxs, arch, t + 1),
        }
    }
}

/// The calling convention node filed under a convention's key.
pub open spec fn convention_lookup(g: KnowledgeGraph, conv: CallingConvention) -> Option<CallingConventionNode> {
    match name_get(g.names(), "abi:"@ + conv.debug_name()) {
        Some(i) => match g.nodes()[i as int] {
            KnowledgeNode::CallingConvention(c) => Some(c),
            _ => None,
        },
        None => None,
    }
}

/// The idioms among the nodes at the first `t` of `idxs`.
pub open spec fn idioms_at(nodes: Seq<KnowledgeNode>, idxs: Seq<usize>, t: int) -> Seq<IdiomNode>
    decreases t,
{
    if t <= 0 || t > idxs.len() {
        Seq::empty()
    } else {
        match nodes[idxs[t - 1] as int] {
            KnowledgeNode::Idiom(i) => idioms_at(nodes, idxs, t - 1).push(i),
            _ => idioms_at(nodes, idxs, t - 1),
        }
    }
}

/// The idioms of the first `k` categories whose name contains `c`, a
/// category's idioms together and in the order they were added.
pub open spec fn idioms_in(nodes: Seq<KnowledgeNode>, cats: Seq<(Seq<char>, Seq<usize>)>, c: Seq<char>, k: int) -> Seq<IdiomNode>
    decreases k,
{
    if k <= 0 || k > cats.len() {
        Seq::empty()
    } else if contains_seq(cats[k - 1].0, c) {
        idioms_in(nodes, cats, c, k - 1) + idioms_at(nodes, cats[k - 1].1, cats[k - 1].1.len() as int)
    } else {
        idioms_in(nodes, cats, c, k - 1)
    }
}


fn contains_index(v: &Vec<usize>, x: usize) -> (b: bool)
    ensures
        b == v@.contains(x),
{
    let mut i: usize = 0;
    while i < v.len()
        invariant
            i <= v.len(),
            forall|k: int| 0 <= k < i ==> v@[k] != x,
        decreases v.len() - i,
    {
        if v[i] == x {
            return true;
        }
        i = i + 1;
    }
    false
}

impl KnowledgeGraph {
    fn mnemonic_entries(&self, k: &Vec<char>) -> (r: Vec<usize>)
        requires
            self.wf(),
        ensures
            r@ == multi_get(self.mnemonics(), k@),
            forall|t: int| 0 <= t < r@.len() ==> #[trigger] r@[t] < self.nodes().len(),
    {
        proof {
            lemma_key_pos(self.mnemonics(), k@, 0);
        }
        match find_multi(&self.mnemonic_index, k) {
            Some(j) => {
                let mut r: Vec<usize> = Vec::new();
                let src = &self.mnemonic_index[j].1;
                let mut t: usize = 0;
                while t < src.len()
                    invariant
                        t <= src.len(),
                        src@ == self.mnemonics()[j as int].1,
                        r@ == src@.take(t as int),
                    decreases src.len() - t,
                {
                    r.push(src[t]);
                    proof {
                        assert(src@.take(t + 1) =~= src@.take(t as int).push(src@[t as int]));
                    }
                    t = t + 1;
                }
                proof {
                    assert(src@.take(t as int) =~= src@);
                    assert forall|t: int| 0 <= t < r@.len() implies #[trigger] r@[t] < self.nodes().len() by {
                        assert(self.mnemonics()[j as int].1[t] == r@[t]);
                    }
                }
                r
            },
            None => Vec::new(),
        }
    }

    /// Every node that answers a term, case-insensitively: the instructions
    /// with that mnemonic first, then, in the graph's order, each node whose
    /// texts match it, once each.
    pub fn query(&self, term: &str) -> (res: Vec<&KnowledgeNode>)
        requires
            self.wf(),
        ensures
            res@.len() == query_indices(*self, term@).len(),
            forall|i: int| 0 <= i < res@.len() ==> *res@[i] == self.nodes()[query_indices(*self, term@)[i] as int],
    {
        let q = to_lowercase(&chars_of(term));
        let first = self.mnemonic_entries(&q);
        let mut picked = first;
        let n = graph_node_count(&self.graph);
        let mut k: usize = 0;
        while k < n
            invariant
                k <= n == self.nodes().len(),
                self.wf(),
                picked@ == query_scan(self.nodes(), multi_get(self.mnemonics(), q@), q@, k as int),
                forall|t: int| 0 <= t < picked@.len() ==> #[trigger] picked@[t] < n,
            decreases n - k,
        {
            let node = graph_node(&self.graph, k);
            if node_hit_exec(node, &q) && !contains_index(&picked, k) {
                picked.push(k);
            }
            k = k + 1;
        }
        let mut res: Vec<&KnowledgeNode> = Vec::new();
        let mut i: usize = 0;
        while i < picked.len()
            invariant
                i <= picked@.len(),
                picked@ == query_indices(*self, term@),
                forall|t: int| 0 <= t < picked@.len() ==> #[trigger] picked@[t] < self.nodes().len(),
                res@.len() == i,
                forall|t: int| 0 <= t < i ==> *res@[t] == self.nodes()[picked@[t] as int],
            decreases picked.len() - i,
        {
            res.push(graph_node(&self.graph, picked[i]));
            i = i + 1;
        }
        res
    }

    /// The instruction with a mnemonic (in any case) for an architecture,
    /// the first filed if there are several.
    pub fn get_instruction(&self, mnemonic: &str, arch: Arch) -> (res: Option<&InstructionNode>)
        requires
            self.wf(),
        ensures
            match res {
                Some(i) => first_instruction(self.nodes(), multi_get(self.mnemonics(), unicode_lowercase(mnemonic@)), arch, 0) == Some(*i),
                None => first_instruction(self.nodes(), multi_get(self.mnemonics(), unicode_lowercase(mnemonic@)), arch, 0) is None,
            },
    {
        let m = to_lowercase(&chars_of(mnemonic));
        let idxs = self.mnemonic_entries(&m);
        let ghost nodes = self.nodes();
        let mut t: usize = 0;
        while t < idxs.len()
            invariant
                t <= idxs@.len(),
                nodes == self.nodes(),
                idxs@ == multi_get(self.mnemonics(), unicode_lowercase(mnemonic@)),
                forall|u: int| 0 <= u < idxs@.len() ==> #[trigger] idxs@[u] < nodes.len(),
                first_instruction(nodes, idxs@, arch, 0) == first_instruction(nodes, idxs@, arch, t as int),
            decreases idxs.len() - t,
        {
            let node = graph_node(&self.graph, idxs[t]);
            if let KnowledgeNode::Instruction(i) = node {
                if i.arch == arch {
                    proof {
                        assert(nodes[idxs@[t as int] as int] == KnowledgeNode::Instruction(*i));
                        assert(first_instruction(nodes, idxs@, arch, t as int) == Some(*i));
                    }
                    return Some(i);
                }
            }
            t = t + 1;
        }
        None
    }

    /// The node of a calling convention.
    pub fn get_calling_convention(&self, conv: CallingConvention) -> (res: Option<&CallingConventionNode>)
        requires
            self.wf(),
        ensures
            match res {
                Some(c) => convention_lookup(*self, conv) == Some(*c),
                None => convention_lookup(*self, conv) is None,
            },
    {
        let mut key = chars_of("abi:");
        append(&mut key, &conv.debug_text());
        proof {
            lemma_key_pos(self.names(), key@, 0);
        }
        match find_name(&self.name_index, &key) {
            Some(j) => {
                let i = self.name_index[j].1;
                proof {
                    assert(self.names()[j as int].1 == i);
                }
                match graph_node(&self.graph, i) {
                    KnowledgeNode::CallingConvention(c) => Some(c),
                    _ => None,
                }
            },
            None => None,
        }
    }

    /// The idioms of every category whose lower-case name contains `cat` in
    /// lower case, a category's idioms together in the order they were
    /// added, categories in the order first seen.
    pub fn get_idioms_by_category(&self, cat: &str) -> (res: Vec<&IdiomNode>)
        requires
            self.wf(),
        ensures
            res@.len() == idioms_in(self.nodes(), self.categories(), unicode_lowercase(cat@), self.categories().len() as int).len(),
            forall|i: int| 0 <= i < res@.len() ==>
                *res@[i] == idioms_in(self.nodes(), self.categories(), unicode_lowercase(cat@), self.categories().len() as int)[i],
            res@.map_values(|r: &IdiomNode| *r).to_multiset() == idioms_with(self.nodes(), unicode_lowercase(cat@)).to_multiset(),
    {
        let c = to_lowercase(&chars_of(cat));
        let ghost nodes = self.nodes();
        let ghost cats = self.categories();
        let mut res: Vec<&IdiomNode> = Vec::new();
        let mut k: usize = 0;
        while k < self.idiom_category_index.len()
            invariant
                k <= cats.len(),
                cats == self.categories(),
                nodes == self.nodes(),
                self.wf(),
                res@.len() == idioms_in(nodes, cats, c@, k as int).len(),
                forall|i: int| 0 <= i < res@.len() ==> *res@[i] == idioms_in(nodes, cats, c@, k as int)[i],
            decreases cats.len() - k,
        {
            let entry = &self.idiom_category_index[k];
            proof {
                assert(cats[k as int].0 == entry.0@);
                assert(cats[k as int].1 == entry.1@);
            }
            if contains_exec(&entry.0, &c) {
                let ghost before = idioms_in(nodes, cats, c@, k as int);
                let mut t: usize = 0;
                while t < entry.1.len()
                    invariant
                        t <= entry.1@.len(),
                        entry.1@ == cats[k as int].1,
                        multi_below(cats, nodes.len()),
                        0 <= k < cats.len(),
                        nodes == self.nodes(),
                        res@.len() == before.len() + idioms_at(nodes, entry.1@, t as int).len(),
                        forall|i: int| 0 <= i < res@.len() ==> *res@[i] == (before + idioms_at(nodes, entry.1@, t as int))[i],
                    decreases entry.1.len() - t,
                {
                    let ix = entry.1[t];
                    proof {
                        assert(cats[k as int].1[t as int] < nodes.len());
                    }
                    if let KnowledgeNode::Idiom(i) = graph_node(&self.graph, ix) {
                        res.push(i);
                        proof {
                            assert((before + idioms_at(nodes, entry.1@, t + 1)) =~= (before + idioms_at(nodes, entry.1@, t as int)).push(*i));
                        }
                    }
                    t = t + 1;
                }
            }
            k = k + 1;
        }
        proof {
            let all = idioms_in(nodes, cats, c@, cats.len() as int);
            assert(res@.map_values(|r: &IdiomNode| *r) =~= all);
            law_idiom_category_lookup(nodes, c@);
        }
        res
    }
}


// ---------------------------------------------------------------------------
// Laws.

/// A name bound in an index reads back as the node it was bound to, and the
/// binding leaves every other name as it was.
pub proof fn law_name_index_read_after_write(es: Seq<(Seq<char>, usize)>, k: Seq<char>, x: usize, other: Seq<char>)
    ensures
        name_get(name_put(es, k, x), k) == Some(x),
        other != k ==> name_get(name_put(es, k, x), other) == name_get(es, other),
{
    lemma_key_pos(es, k, 0);
    lemma_key_pos(es, other, 0);
    lemma_name_key_pos(es, k, x, other, 0);
    lemma_name_key_pos(es, k, x, k, 0);
    let r = name_put(es, k, x);
    if key_pos(es, k, 0) is None {
        assert(r[es.len() as int].0 == k);
    }
}

proof fn lemma_name_key_pos(es: Seq<(Seq<char>, usize)>, k: Seq<char>, x: usize, other: Seq<char>, i: int)
    requires
        0 <= i,
    ensures
        other != k ==> key_pos(name_put(es, k, x), other, i) == key_pos(es, other, i),
        key_pos(es, k, i) is Some ==> key_pos(name_put(es, k, x), k, i) == key_pos(es, k, i),
        (key_pos(es, k, 0) is None && i <= es.len()) ==> key_pos(name_put(es, k, x), k, i) == Some(es.len() as int),
    decreases es.len() + 1 - i,
{
    lemma_key_pos(es, k, 0);
    lemma_key_pos(es, k, i);
    let r = name_put(es, k, x);
    if key_pos(es, k, 0) is None {
        assert(r.len() == es.len() + 1 && r[es.len() as int].0 == k);
    }
    if i <= es.len() {
        lemma_name_key_pos(es, k, x, other, i + 1);
        if i < es.len() {
            assert(r[i].0 == es[i].0) by {
                if let Some(j) = key_pos(es, k, 0) {
                    if i == j {
                        assert(es[j].0 == k);
                    }
                }
            }
        }
    }
}

/// Adding a node under a key of a multi-index puts it after the nodes there
/// already, and leaves the other keys' lists as they were.
pub proof fn law_multi_index_add(es: Seq<(Seq<char>, Seq<usize>)>, k: Seq<char>, x: usize, other: Seq<char>)
    ensures
        multi_get(multi_add(es, k, x), k) == multi_get(es, k).push(x),
        other != k ==> multi_get(multi_add(es, k, x), other) == multi_get(es, other),
{
    lemma_key_pos(es, k, 0);
    lemma_key_pos(es, other, 0);
    lemma_multi_key_pos(es, k, x, other, 0);
    lemma_multi_key_pos(es, k, x, k, 0);
    let r = multi_add(es, k, x);
    if key_pos(es, k, 0) is None {
        assert(r[es.len() as int].0 == k);
    }
}

proof fn lemma_multi_key_pos(es: Seq<(Seq<char>, Seq<usize>)>, k: Seq<char>, x: usize, other: Seq<char>, i: int)
    requires
        0 <= i,
    ensures
        other != k ==> key_pos(multi_add(es, k, x), other, i) == key_pos(es, other, i),
        key_pos(es, k, i) is Some ==> key_pos(multi_add(es, k, x), k, i) == key_pos(es, k, i),
        (key_pos(es, k, 0) is None && i <= es.len()) ==> key_pos(multi_add(es, k, x), k, i) == Some(es.len() as int),
    decreases es.len() + 1 - i,
{
    lemma_key_pos(es, k, 0);
    lemma_key_pos(es, k, i);
    let r = multi_add(es, k, x);
    if key_pos(es, k, 0) is None {
        assert(r.len() == es.len() + 1 && r[es.len() as int].0 == k);
    }
    if i <= es.len() {
        lemma_multi_key_pos(es, k, x, other, i + 1);
        if i < es.len() {
            assert(r[i].0 == es[i].0) by {
                if let Some(j) = key_pos(es, k, 0) {
                    if i == j {
                        assert(es[j].0 == k);
                    }
                }
            }
        }
    }
}

proof fn lemma_query_scan(nodes: Seq<KnowledgeNode>, first: Seq<usize>, q: Seq<char>, k: int)
    requires
        0 <= k <= nodes.len() <= u32::MAX,
    ensures
        query_scan(nodes, first, q, k).len() >= first.len(),
        query_scan(nodes, first, q, k).take(first.len() as int) == first,
        forall|i: int| 0 <= i < k && node_hit(nodes[i], q) ==> query_scan(nodes, first, q, k).contains(i as usize),
        forall|t: int| first.len() <= t < query_scan(nodes, first, q, k).len() ==> {
            &&& (#[trigger] query_scan(nodes, first, q, k)[t]) < k
            &&& node_hit(nodes[query_scan(nodes, first, q, k)[t] as int], q)
        },
    decreases k,
{
    if k == 0 {
        assert(first.take(first.len() as int) =~= first);
    } else {
        lemma_query_scan(nodes, first, q, k - 1);
        let acc = query_scan(nodes, first, q, k - 1);
        let r = query_scan(nodes, first, q, k);
        if node_hit(nodes[k - 1], q) && !acc.contains((k - 1) as usize) {
            assert(r.take(first.len() as int) =~= acc.take(first.len() as int));
            assert(r[acc.len() as int] == (k - 1) as usize);
            assert forall|t: int| first.len() <= t < r.len() implies {
                &&& (#[trigger] r[t]) < k
                &&& node_hit(nodes[r[t] as int], q)
            } by {
                if t < acc.len() {
                    assert(r[t] == acc[t]);
                }
            }
            assert forall|i: int| 0 <= i < k && node_hit(nodes[i], q) implies r.contains(i as usize) by {
                if i < k - 1 {
                    let w = choose|w: int| 0 <= w < acc.len() && acc[w] == i as usize;
                    assert(r[w] == acc[w]);
                }
            }
        } else {
            assert forall|i: int| 0 <= i < k && node_hit(nodes[i], q) implies r.contains(i as usize) by {
                if i == k - 1 {
                } 
            }
        }
    }
}

/// A query returns every node that answers it, and nothing else but the
/// instructions filed under the query as a mnemonic, which come first.
pub proof fn law_query_complete(g: KnowledgeGraph, term: Seq<char>)
    requires
        g.wf(),
    ensures
        ({
            let q = unicode_lowercase(term);
            let r = query_indices(g, term);
            &&& r.take(multi_get(g.mnemonics(), q).len() as int) == multi_get(g.mnemonics(), q)
            &&& forall|i: int| 0 <= i < g.nodes().len() && node_hit(g.nodes()[i], q) ==> r.contains(i as usize)
            &&& forall|t: int| multi_get(g.mnemonics(), q).len() <= t < r.len() ==> node_hit(g.nodes()[(#[trigger] r[t]) as int], q)
        }),
{
    let q = unicode_lowercase(term);
    lemma_query_scan(g.nodes(), multi_get(g.mnemonics(), q), q, g.nodes().len() as int);
}


/// After a calling convention is added, looking its id up finds it.
pub proof fn law_convention_found_after_add(g1: KnowledgeGraph, g2: KnowledgeGraph, c: CallingConventionNode)
    requires
        g2.nodes() == g1.nodes().push(KnowledgeNode::CallingConvention(c)),
        g2.names() == name_put(g1.names(), node_key(KnowledgeNode::CallingConvention(c)), g1.nodes().len() as usize),
        g1.nodes().len() < u32::MAX,
    ensures
        convention_lookup(g2, c.id) == Some(c),
{
    law_name_index_read_after_write(g1.names(), node_key(KnowledgeNode::CallingConvention(c)), g1.nodes().len() as usize, "abi:"@ + c.id.debug_name());
    assert(g2.nodes()[g1.nodes().len() as int] == KnowledgeNode::CallingConvention(c));
}

proof fn lemma_first_instruction_found(nodes: Seq<KnowledgeNode>, idxs: Seq<usize>, arch: Arch, t: int)
    requires
        0 <= t < idxs.len(),
        idxs[idxs.len() - 1] < nodes.len(),
        nodes[idxs[idxs.len() - 1] as int] matches KnowledgeNode::Instruction(i) && i.arch == arch,
    ensures
        first_instruction(nodes, idxs, arch, t) is Some,
    decreases idxs.len() - t,
{
    if t < idxs.len() - 1 {
        lemma_first_instruction_found(nodes, idxs, arch, t + 1);
    }
}

/// After an instruction is added, looking its mnemonic up for its
/// architecture finds an instruction (the first one filed for them).
pub proof fn law_instruction_found_after_add(g1: KnowledgeGraph, g2: KnowledgeGraph, i: InstructionNode)
    requires
        g2.nodes() == g1.nodes().push(KnowledgeNode::Instruction(i)),
        g2.mnemonics() == multi_add(g1.mnemonics(), unicode_lowercase(i.mnemonic@), g1.nodes().len() as usize),
        g1.nodes().len() < u32::MAX,
    ensures
        first_instruction(g2.nodes(), multi_get(g2.mnemonics(), unicode_lowercase(i.mnemonic@)), i.arch, 0) is Some,
{
    let n = g1.nodes().len() as usize;
    let k = unicode_lowercase(i.mnemonic@);
    law_multi_index_add(g1.mnemonics(), k, n, k);
    let idxs = multi_get(g2.mnemonics(), k);
    assert(idxs[idxs.len() - 1] == n);
    lemma_first_instruction_found(g2.nodes(), idxs, i.arch, 0);
}


// ---------------------------------------------------------------------------
// Adding many nodes.

/// The mnemonic index after node `n` is added at `idx`.
pub open spec fn mnemonics_step(es: Seq<(Seq<char>, Seq<usize>)>, n: KnowledgeNode, idx: usize) -> Seq<(Seq<char>, Seq<usize>)> {
    match n {
        KnowledgeNode::Instruction(i) => multi_add(es, unicode_lowercase(i.mnemonic@), idx),
        _ => es,
    }
}

/// The category index after node `n` is added at `idx`.
pub open spec fn categories_step(es: Seq<(Seq<char>, Seq<usize>)>, n: KnowledgeNode, idx: usize) -> Seq<(Seq<char>, Seq<usize>)> {
    match n {
        KnowledgeNode::Idiom(i) => multi_add(es, unicode_lowercase(i.category@), idx),
        _ => es,
    }
}

/// The name index after the first `k` of `ns` are added from index `base` on.
pub open spec fn index_names(es: Seq<(Seq<char>, usize)>, ns: Seq<KnowledgeNode>, base: int, k: int) -> Seq<(Seq<char>, usize)>
    decreases k,
{
    if k <= 0 || k > ns.len() {
        es
    } else {
        name_put(index_names(es, ns, base, k - 1), node_key(ns[k - 1]), (base + k - 1) as usize)
    }
}

/// The mnemonic index after the first `k` of `ns` are added from `base` on.
pub open spec fn index_mnemonics(es: Seq<(Seq<char>, Seq<usize>)>, ns: Seq<KnowledgeNode>, base: int, k: int) -> Seq<(Seq<char>, Seq<usize>)>
    decreases k,
{
    if k <= 0 || k > ns.len() {
        es
    } else {
        mnemonics_step(index_mnemonics(es, ns, base, k - 1), ns[k - 1], (base + k - 1) as usize)
    }
}

/// The category index after the first `k` of `ns` are added from `base` on.
pub open spec fn index_categories(es: Seq<(Seq<char>, Seq<usize>)>, ns: Seq<KnowledgeNode>, base: int, k: int) -> Seq<(Seq<char>, Seq<usize>)>
    decreases k,
{
    if k <= 0 || k > ns.len() {
        es
    } else {
        categories_step(index_categories(es, ns, base, k - 1), ns[k - 1], (base + k - 1) as usize)
    }
}

impl KnowledgeGraph {
    /// Adds a node of any kind, as the `add_` method of its kind does.
    pub(crate) fn add_node(&mut self, n: KnowledgeNode) -> (idx: usize)
        requires
            old(self).wf(),
            old(self).nodes().len() < u32::MAX,
        ensures
            final(self).wf(),
            idx == old(self).nodes().len(),
            final(self).nodes() == old(self).nodes().push(n),
            final(self).edges() == old(self).edges(),
            final(self).names() == name_put(old(self).names(), node_key(n), idx),
            final(self).mnemonics() == mnemonics_step(old(self).mnemonics(), n, idx),
            final(self).categories() == categories_step(old(self).categories(), n, idx),
    {
        match n {
            KnowledgeNode::Instruction(i) => self.add_instruction(i),
            KnowledgeNode::Register(r) => self.add_register(r),
            KnowledgeNode::Flag(f) => self.add_flag(f),
            KnowledgeNode::CallingConvention(c) => self.add_calling_convention(c),
            KnowledgeNode::Idiom(i) => self.add_idiom(i),
            KnowledgeNode::Syscall(sc) => self.add_syscall(sc),
        }
    }

    /// Adds the nodes of `ns` in order.
    pub(crate) fn add_nodes(&mut self, ns: Vec<KnowledgeNode>)
        requires
            old(self).wf(),
            old(self).nodes().len() + ns@.len() < u32::MAX,
        ensures
            final(self).wf(),
            final(self).nodes() == old(self).nodes() + ns@,
            final(self).edges() == old(self).edges(),
            final(self).names() == index_names(old(self).names(), ns@, old(self).nodes().len() as int, ns@.len() as int),
            final(self).mnemonics() == index_mnemonics(old(self).mnemonics(), ns@, old(self).nodes().len() as int, ns@.len() as int),
            final(self).categories() == index_categories(old(self).categories(), ns@, old(self).nodes().len() as int, ns@.len() as int),
    {
        let ghost g0 = *old(self);
        let ghost all = ns@;
        let ghost base = old(self).nodes().len() as int;
        let mut ns = ns;
        let mut i: usize = 0;
        let n = ns.len();
        proof {
            assert(g0.nodes() + all.take(0) =~= g0.nodes());
        }
        while i < n
            invariant
                n == all.len(),
                i <= n,
                ns@ == all.skip(i as int),
                base == g0.nodes().len(),
                base + n < u32::MAX,
                self.wf(),
                self.nodes() == g0.nodes() + all.take(i as int),
                self.edges() == g0.edges(),
                self.names() == index_names(g0.names(), all, base, i as int),
                self.mnemonics() == index_mnemonics(g0.mnemonics(), all, base, i as int),
                self.categories() == index_categories(g0.categories(), all, base, i as int),
            decreases n - i,
        {
            let x = ns.remove(0);
            proof {
                assert(x == all[i as int]);
                assert(ns@ =~= all.skip(i + 1));
            }
            self.add_node(x);
            proof {
                assert(all.take(i + 1) =~= all.take(i as int).push(all[i as int]));
                assert(self.nodes() =~= g0.nodes() + all.take(i + 1));
            }
            i = i + 1;
        }
        proof {
            assert(all.take(n as int) =~= all);
        }
    }
}


/// The idiom category index that adding the nodes `ns` in order builds: each
/// idiom's index is filed under its lower-case category.
pub open spec fn category_index_of(ns: Seq<KnowledgeNode>) -> Seq<(Seq<char>, Seq<usize>)>
    decreases ns.len(),
{
    if ns.len() == 0 {
        Seq::empty()
    } else {
        let prev = category_index_of(ns.drop_last());
        match ns.last() {
            KnowledgeNode::Idiom(i) => multi_add(prev, unicode_lowercase(i.category@), (ns.len() - 1) as usize),
            _ => prev,
        }
    }
}

/// Adding a node files it in the category index exactly when it is an idiom.
proof fn lemma_category_index_push()
    ensures
        forall|ns: Seq<KnowledgeNode>, n: KnowledgeNode| #[trigger] category_index_of(ns.push(n)) == match n {
            KnowledgeNode::Idiom(i) => multi_add(category_index_of(ns), unicode_lowercase(i.category@), ns.len() as usize),
            _ => category_index_of(ns),
        },
{
    assert forall|ns: Seq<KnowledgeNode>, n: KnowledgeNode| #[trigger] category_index_of(ns.push(n)) == match n {
        KnowledgeNode::Idiom(i) => multi_add(category_index_of(ns), unicode_lowercase(i.category@), ns.len() as usize),
        _ => category_index_of(ns),
    } by {
        assert(ns.push(n).drop_last() =~= ns);
    }
}

/// The idioms among the nodes `ns` whose lower-case category contains `c`,
/// one for each time such an idiom was added, in the order added.
pub open spec fn idioms_with(ns: Seq<KnowledgeNode>, c: Seq<char>) -> Seq<IdiomNode>
    decreases ns.len(),
{
    if ns.len() == 0 {
        Seq::empty()
    } else {
        let prev = idioms_with(ns.drop_last(), c);
        match ns.last() {
            KnowledgeNode::Idiom(i) => if contains_seq(unicode_lowercase(i.category@), c) {
                prev.push(i)
            } else {
                prev
            },
            _ => prev,
        }
    }
}

proof fn lemma_idioms_at_push(nodes: Seq<KnowledgeNode>, l: Seq<usize>, x: usize, t: int)
    requires
        0 <= t <= l.len(),
    ensures
        idioms_at(nodes, l.push(x), t) == idioms_at(nodes, l, t),
    decreases t,
{
    if t > 0 {
        lemma_idioms_at_push(nodes, l, x, t - 1);
        assert(l.push(x)[t - 1] == l[t - 1]);
    }
}

proof fn lemma_idioms_in_push(
    nodes: Seq<KnowledgeNode>,
    cats: Seq<(Seq<char>, Seq<usize>)>,
    e: (Seq<char>, Seq<usize>),
    c: Seq<char>,
    m: int,
)
    requires
        0 <= m <= cats.len(),
    ensures
        idioms_in(nodes, cats.push(e), c, m) == idioms_in(nodes, cats, c, m),
    decreases m,
{
    if m > 0 {
        lemma_idioms_in_push(nodes, cats, e, c, m - 1);
        assert(cats.push(e)[m - 1] == cats[m - 1]);
    }
}

proof fn lemma_idioms_in_update(
    nodes: Seq<KnowledgeNode>,
    cats: Seq<(Seq<char>, Seq<usize>)>,
    j: int,
    l2: Seq<usize>,
    i: IdiomNode,
    c: Seq<char>,
    m: int,
)
    requires
        0 <= j < cats.len(),
        0 <= m <= cats.len(),
        idioms_at(nodes, l2, l2.len() as int) == idioms_at(nodes, cats[j].1, cats[j].1.len() as int).push(i),
    ensures
        m <= j ==> idioms_in(nodes, cats.update(j, (cats[j].0, l2)), c, m) == idioms_in(nodes, cats, c, m),
        m > j ==> idioms_in(nodes, cats.update(j, (cats[j].0, l2)), c, m).to_multiset() == (if contains_seq(cats[j].0, c) {
            idioms_in(nodes, cats, c, m).to_multiset().insert(i)
        } else {
            idioms_in(nodes, cats, c, m).to_multiset()
        }),
    decreases m,
{
    broadcast use vstd::seq_lib::group_to_multiset_ensures;
    let u = cats.update(j, (cats[j].0, l2));
    if m > 0 {
        lemma_idioms_in_update(nodes, cats, j, l2, i, c, m - 1);
        let a = idioms_in(nodes, cats, c, m - 1);
        let a2 = idioms_in(nodes, u, c, m - 1);
        if m - 1 == j {
            let t = idioms_at(nodes, cats[j].1, cats[j].1.len() as int);
            vstd::seq_lib::lemma_multiset_commutative(a, t);
            vstd::seq_lib::lemma_multiset_commutative(a, t.push(i));
            assert(a + t.push(i) == (a + t).push(i));
        } else {
            assert(u[m - 1] == cats[m - 1]);
            let t = idioms_at(nodes, cats[m - 1].1, cats[m - 1].1.len() as int);
            vstd::seq_lib::lemma_multiset_commutative(a, t);
            vstd::seq_lib::lemma_multiset_commutative(a2, t);
            if m > j + 1 && contains_seq(cats[j].0, c) {
                assert(a2.to_multiset().add(t.to_multiset()) =~= a.to_multiset().insert(i).add(t.to_multiset()));
                assert(a.to_multiset().insert(i).add(t.to_multiset()) =~= a.to_multiset().add(t.to_multiset()).insert(i));
            }
        }
    }
}

/// Filing node `k` into the category index changes what the lookup finds
/// just as `idioms_with` does.
proof fn lemma_index_step(ns: Seq<KnowledgeNode>, c: Seq<char>, k: int)
    requires
        0 <= k < ns.len(),
        ns.len() <= usize::MAX,
        idioms_in(ns, category_index_of(ns.take(k)), c, category_index_of(ns.take(k)).len() as int).to_multiset()
            == idioms_with(ns.take(k), c).to_multiset(),
    ensures
        idioms_in(ns, category_index_of(ns.take(k + 1)), c, category_index_of(ns.take(k + 1)).len() as int).to_multiset()
            == idioms_with(ns.take(k + 1), c).to_multiset(),
{
    broadcast use vstd::seq_lib::group_to_multiset_ensures;
    let p = ns.take(k);
    let q = ns.take(k + 1);
    assert(q.drop_last() =~= p);
    assert(q.last() == ns[k]);
    let cats = category_index_of(p);
    match ns[k] {
        KnowledgeNode::Idiom(i) => {
            let key = unicode_lowercase(i.category@);
            let x = k as usize;
            assert(x as int == k);
            lemma_key_pos(cats, key, 0);
            let one = seq![x];
            assert(idioms_at(ns, one, 1) =~= seq![i]) by {
                assert(one[0] == x);
                assert(idioms_at(ns, one, 0) == Seq::<IdiomNode>::empty());
            }
            match key_pos(cats, key, 0) {
                Some(j) => {
                    let l = cats[j].1;
                    lemma_idioms_at_push(ns, l, x, l.len() as int);
                    assert(l.push(x)[l.len() as int] == x);
                    assert(l.push(x).len() == l.len() + 1);
                    assert(idioms_at(ns, l.push(x), l.len() + 1int) == idioms_at(ns, l.push(x), l.len() as int).push(i));
                    assert(cats[j].0 == key);
                    lemma_idioms_in_update(ns, cats, j, l.push(x), i, c, cats.len() as int);
                },
                None => {
                    let e = (key, one);
                    lemma_idioms_in_push(ns, cats, e, c, cats.len() as int);
                    let a = idioms_in(ns, cats, c, cats.len() as int);
                    assert(cats.push(e)[cats.len() as int] == e);
                    vstd::seq_lib::lemma_multiset_commutative(a, seq![i]);
                    assert(a + seq![i] == a.push(i));
                },
            }
        },
        _ => {},
    }
}

/// The category lookup finds exactly the added idioms: for a graph whose
/// index was built by adding its nodes in order (as every graph made by
/// `new` and the `add_*` methods is), the idioms whose lower-case category
/// contains `c` are found once for each time they were added, and no
/// other. With `c` empty (category `all`) that is every idiom added.
pub proof fn law_idiom_category_lookup(ns: Seq<KnowledgeNode>, c: Seq<char>)
    requires
        ns.len() <= usize::MAX,
    ensures
        idioms_in(ns, category_index_of(ns), c, category_index_of(ns).len() as int).to_multiset()
            == idioms_with(ns, c).to_multiset(),
{
    lemma_index_upto(ns, c, ns.len() as int);
    assert(ns.take(ns.len() as int) =~= ns);
}

proof fn lemma_index_upto(ns: Seq<KnowledgeNode>, c: Seq<char>, k: int)
    requires
        0 <= k <= ns.len(),
        ns.len() <= usize::MAX,
    ensures
        idioms_in(ns, category_index_of(ns.take(k)), c, category_index_of(ns.take(k)).len() as int).to_multiset()
            == idioms_with(ns.take(k), c).to_multiset(),
    decreases k,
{
    if k == 0 {
        assert(ns.take(0) =~= Seq::<KnowledgeNode>::empty());
        assert(idioms_in(ns, category_index_of(ns.take(0)), c, 0) =~= Seq::<IdiomNode>::empty());
    } else {
        lemma_index_upto(ns, c, k - 1);
        lemma_index_step(ns, c, k - 1);
    }
}


proof fn lemma_first_instruction_at(nodes: Seq<KnowledgeNode>, idxs: Seq<usize>, arch: Arch, t: int, t0: int)
    requires
        0 <= t <= t0 < idxs.len(),
        idxs[t0] < nodes.len(),
        nodes[idxs[t0] as int] matches KnowledgeNode::Instruction(i) && i.arch == arch,
    ensures
        first_instruction(nodes, idxs, arch, t) is Some,
    decreases idxs.len() - t,
{
    if t < t0 {
        lemma_first_instruction_at(nodes, idxs, arch, t + 1, t0);
    }
}

proof fn lemma_mnemonic_index_holds(ns: Seq<KnowledgeNode>, j: int, k: int)
    requires
        0 <= j < k <= ns.len(),
        ns.len() <= usize::MAX,
        ns[j] is Instruction,
    ensures
        multi_get(index_mnemonics(Seq::empty(), ns, 0, k), unicode_lowercase(ns[j]->Instruction_0.mnemonic@)).contains(j as usize),
    decreases k,
{
    let key = unicode_lowercase(ns[j]->Instruction_0.mnemonic@);
    let prev = index_mnemonics(Seq::empty(), ns, 0, k - 1);
    let x = (k - 1) as usize;
    if k - 1 == j {
        law_multi_index_add(prev, key, x, key);
        let l = multi_get(prev, key).push(x);
        assert(l[l.len() - 1] == x);
    } else {
        lemma_mnemonic_index_holds(ns, j, k - 1);
        let l = multi_get(prev, key);
        let t = choose|t: int| 0 <= t < l.len() && l[t] == j as usize;
        match ns[k - 1] {
            KnowledgeNode::Instruction(i) => {
                let k2 = unicode_lowercase(i.mnemonic@);
                law_multi_index_add(prev, k2, x, key);
                if k2 == key {
                    assert(multi_get(multi_add(prev, k2, x), key)[t] == j as usize);
                }
            },
            _ => {},
        }
    }
}

/// Every instruction among the nodes is found by its mnemonic (in any case
/// that lower-cases to it) and architecture in the mnemonic index that adding
/// the nodes in order builds.
pub proof fn law_indexed_instruction_found(ns: Seq<KnowledgeNode>, j: int)
    requires
        0 <= j < ns.len() <= usize::MAX,
        ns[j] is Instruction,
    ensures
        first_instruction(
            ns,
            multi_get(index_mnemonics(Seq::empty(), ns, 0, ns.len() as int), unicode_lowercase(ns[j]->Instruction_0.mnemonic@)),
            ns[j]->Instruction_0.arch,
            0,
        ) is Some,
{
    lemma_mnemonic_index_holds(ns, j, ns.len() as int);
    let l = multi_get(index_mnemonics(Seq::empty(), ns, 0, ns.len() as int), unicode_lowercase(ns[j]->Instruction_0.mnemonic@));
    let t = choose|t: int| 0 <= t < l.len() && l[t] == j as usize;
    lemma_first_instruction_at(ns, l, ns[j]->Instruction_0.arch, 0, t);
}


/// Every idiom among the nodes whose lower-case category contains `c` is
/// among those `idioms_with` gives for `c`.
pub proof fn law_idiom_with_category_listed(ns: Seq<KnowledgeNode>, c: Seq<char>, j: int)
    requires
        0 <= j < ns.len(),
        ns[j] matches KnowledgeNode::Idiom(i) && contains_seq(unicode_lowercase(i.category@), c),
    ensures
        idioms_with(ns, c).contains(ns[j]->Idiom_0),
    decreases ns.len(),
{
    let p = ns.drop_last();
    if j == ns.len() - 1 {
        assert(idioms_with(ns, c) == idioms_with(p, c).push(ns[j]->Idiom_0));
        assert(idioms_with(ns, c)[idioms_with(p, c).len() as int] == ns[j]->Idiom_0);
    } else {
        assert(p[j] == ns[j]);
        law_idiom_with_category_listed(p, c, j);
        let w = idioms_with(p, c);
        let t = choose|t: int| 0 <= t < w.len() && w[t] == ns[j]->Idiom_0;
        match ns.last() {
            KnowledgeNode::Idiom(i) => {
                if contains_seq(unicode_lowercase(i.category@), c) {
                    assert(idioms_with(ns, c)[t] == w.push(i)[t]);
                }
            },
            _ => {},
        }
    }
}

} // verus!
