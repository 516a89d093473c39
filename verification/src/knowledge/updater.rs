//! Refreshing the knowledge: the extra instructions and idioms kept in a
//! cache next to the bundled knowledge, and the report of a refresh. Reading
//! and writing the cache and asking the upstream server are the caller's.
use vstd::prelude::*;
use crate::knowledge::data::{baseline_views, populate_baseline_knowledge};
use crate::knowledge::graph::{
    first_instruction, idioms_with, law_idiom_with_category_listed, law_indexed_instruction_found, multi_get,
    nodes_view, texts_view, IdiomNode, IdiomView, InstructionNode, InstructionView, KnowledgeGraph, KnowledgeNode,
};
use crate::text::{append, append_str, chars_of, contains_seq, string_from, string_of, unicode_lowercase};
use crate::types::Arch;

verus! {

/// What a refresh of the knowledge reports.
#[derive(Debug, Clone)]
pub struct UpdateReport {
    pub timestamp: String,
    pub source: String,
    pub instructions_count: usize,
    pub idioms_count: usize,
    pub syscalls_count: usize,
    pub status: String,
    pub notes: Vec<String>,
}

/// The knowledge kept in the cache: when it was written and the
/// instructions and idioms it adds to the bundled knowledge.
#[derive(Debug, Clone)]
pub struct CachedKnowledge {
    pub last_updated: String,
    pub extra_instructions: Vec<InstructionNode>,
    pub extra_idioms: Vec<IdiomNode>,
}

/// How the request to the upstream server went.
#[derive(Debug, Clone)]
pub enum FetchOutcome {
    /// A successful HTTP status.
    Reached,
    /// Another HTTP status, as the server's status line shows it.
    HttpStatus(String),
    /// No answer, with the error's text.
    NetworkError(String),
}

/// The server asked when no other is given.
pub const DEFAULT_UPSTREAM_URL: &'static str = "https://raw.githubusercontent.com/intel/uops-info/master/uops.json";

/// Keeps the bundled knowledge and the cache of additions at `cache_path`.
pub struct KnowledgeUpdater {
    pub cache_path: String,
}

/// The instructions a refresh adds.
pub open spec fn enriched_instructions() -> Seq<InstructionView> {
    seq![
        InstructionView {
            mnemonic: "blsi"@,
            arch: Arch::X86_64,
            summary: "Extract Lowest Set Isolated Bit (BMI1). Computes (-x) & x."@,
            syntax_forms: seq!["blsi reg, reg/mem"@],
            flags_read: Seq::empty(),
            flags_written: seq!["CF"@, "ZF"@, "SF"@, "OF"@],
            flags_undefined: seq!["AF"@, "PF"@],
            implicit_registers_read: Seq::empty(),
            implicit_registers_written: Seq::empty(),
            latency_centicycles: Some(100u32),
            throughput_centicycles: Some(50u32),
            extension: "BMI1"@,
            traps_and_pitfalls: seq!["Clears OF and CF is set if source is non-zero."@],
        },
        InstructionView {
            mnemonic: "blsr"@,
            arch: Arch::X86_64,
            summary: "Reset Lowest Set Bit (BMI1). Computes (x - 1) & x."@,
            syntax_forms: seq!["blsr reg, reg/mem"@],
            flags_read: Seq::empty(),
            flags_written: seq!["CF"@, "ZF"@, "SF"@, "OF"@],
            flags_undefined: seq!["AF"@, "PF"@],
            implicit_registers_read: Seq::empty(),
            implicit_registers_written: Seq::empty(),
            latency_centicycles: Some(100u32),
            throughput_centicycles: Some(50u32),
            extension: "BMI1"@,
            traps_and_pitfalls: seq!["CF is set if source operand is 0."@],
        },
    ]
}

/// The idioms a refresh adds.
pub open spec fn enriched_idioms() -> Seq<IdiomView> {
    seq![
        IdiomView {
            id: "atomic_spin_lock_pause"@,
            name: "Atomic Spinlock with PAUSE instruction"@,
            category: "atomic"@,
            arch: Arch::X86_64,
            description: "High-efficiency user-space spinlock loop avoiding pipeline memory thrashing."@,
            assembly_intel: ".spin:\npause\ncmp dword [rdi], 0\njne .spin\nlock bts dword [rdi], 0\njc .spin ; Retry if already locked"@,
            assembly_att: None,
            assembly_arm64: Some(".spin:\nyield\nldaxr w1, [x0]\ncbnz w1, .spin\nstxr w2, w3, [x0]\ncbnz w2, .spin"@),
            why_it_matters: "PAUSE instruction de-pipelines spin-wait loops, reducing power consumption and preventing pipeline clears upon exit."@,
            latency_cycles: "PAUSE = ~14-140 cycles depending on CPU arch (Skylake vs Zen 4)"@,
        },
    ]
}

/// Appends the newer ISA extensions and idioms a refresh brings: the BMI1
/// instructions `blsi` and `blsr`, and the PAUSE spinlock idiom.
pub fn enrich_modern_isa(extra_instrs: &mut Vec<InstructionNode>, extra_idioms: &mut Vec<IdiomNode>)
    ensures
        final(extra_instrs)@.take(old(extra_instrs)@.len() as int) == old(extra_instrs)@,
        final(extra_instrs)@.skip(old(extra_instrs)@.len() as int).map_values(|i: InstructionNode| i@) == enriched_instructions(),
        final(extra_idioms)@.take(old(extra_idioms)@.len() as int) == old(extra_idioms)@,
        final(extra_idioms)@.skip(old(extra_idioms)@.len() as int).map_values(|i: IdiomNode| i@) == enriched_idioms(),
{
    let ghost i0 = extra_instrs@;
    let ghost d0 = extra_idioms@;
    extra_instrs.push(InstructionNode {
        mnemonic: string_from("blsi"),
        arch: Arch::X86_64,
        summary: string_from("Extract Lowest Set Isolated Bit (BMI1). Computes (-x) & x."),
        syntax_forms: {
            let mut t: Vec<String> = Vec::new();
            t.push(string_from("blsi reg, reg/mem"));
            proof {
                assert(texts_view(t@) =~= seq!["blsi reg, reg/mem"@]);
            }
            t
        },
        flags_read: {
            let t: Vec<String> = Vec::new();
            proof {
                assert(texts_view(t@) =~= Seq::<Seq<char>>::empty());
            }
            t
        },
        flags_written: {
            let mut t: Vec<String> = Vec::new();
            t.push(string_from("CF"));
            t.push(string_from("ZF"));
            t.push(string_from("SF"));
            t.push(string_from("OF"));
            proof {
                assert(texts_view(t@) =~= seq!["CF"@, "ZF"@, "SF"@, "OF"@]);
            }
            t
        },
        flags_undefined: {
            let mut t: Vec<String> = Vec::new();
            t.push(string_from("AF"));
            t.push(string_from("PF"));
            proof {
                assert(texts_view(t@) =~= seq!["AF"@, "PF"@]);
            }
            t
        },
        implicit_registers_read: {
            let t: Vec<String> = Vec::new();
            proof {
                assert(texts_view(t@) =~= Seq::<Seq<char>>::empty());
            }
            t
        },
        implicit_registers_written: {
            let t: Vec<String> = Vec::new();
            proof {
                assert(texts_view(t@) =~= Seq::<Seq<char>>::empty());
            }
            t
        },
        latency_centicycles: Some(100),
        throughput_centicycles: Some(50),
        extension: string_from("BMI1"),
        traps_and_pitfalls: {
            let mut t: Vec<String> = Vec::new();
            t.push(string_from("Clears OF and CF is set if source is non-zero."));
            proof {
                assert(texts_view(t@) =~= seq!["Clears OF and CF is set if source is non-zero."@]);
            }
            t
        },
    });
    extra_instrs.push(InstructionNode {
        mnemonic: string_from("blsr"),
        arch: Arch::X86_64,
        summary: string_from("Reset Lowest Set Bit (BMI1). Computes (x - 1) & x."),
        syntax_forms: {
            let mut t: Vec<String> = Vec::new();
            t.push(string_from("blsr reg, reg/mem"));
            proof {
                assert(texts_view(t@) =~= seq!["blsr reg, reg/mem"@]);
            }
            t
        },
        flags_read: {
            let t: Vec<String> = Vec::new();
            proof {
                assert(texts_view(t@) =~= Seq::<Seq<char>>::empty());
            }
            t
        },
        flags_written: {
            let mut t: Vec<String> = Vec::new();
            t.push(string_from("CF"));
            t.push(string_from("ZF"));
            t.push(string_from("SF"));
            t.push(string_from("OF"));
            proof {
                assert(texts_view(t@) =~= seq!["CF"@, "ZF"@, "SF"@, "OF"@]);
            }
            t
        },
        flags_undefined: {
            let mut t: Vec<String> = Vec::new();
            t.push(string_from("AF"));
            t.push(string_from("PF"));
            proof {
                assert(texts_view(t@) =~= seq!["AF"@, "PF"@]);
            }
            t
        },
        implicit_registers_read: {
            let t: Vec<String> = Vec::new();
            proof {
                assert(texts_view(t@) =~= Seq::<Seq<char>>::empty());
            }
            t
        },
        implicit_registers_written: {
            let t: Vec<String> = Vec::new();
            proof {
                assert(texts_view(t@) =~= Seq::<Seq<char>>::empty());
            }
            t
        },
        latency_centicycles: Some(100),
        throughput_centicycles: Some(50),
        extension: string_from("BMI1"),
        traps_and_pitfalls: {
            let mut t: Vec<String> = Vec::new();
            t.push(string_from("CF is set if source operand is 0."));
            proof {
                assert(texts_view(t@) =~= seq!["CF is set if source operand is 0."@]);
            }
            t
        },
    });
    extra_idioms.push(IdiomNode {
        id: string_from("atomic_spin_lock_pause"),
        name: string_from("Atomic Spinlock with PAUSE instruction"),
        category: string_from("atomic"),
        arch: Arch::X86_64,
        description: string_from("High-efficiency user-space spinlock loop avoiding pipeline memory thrashing."),
        assembly_intel: string_from(".spin:\npause\ncmp dword [rdi], 0\njne .spin\nlock bts dword [rdi], 0\njc .spin ; Retry if already locked"),
        assembly_att: None,
        assembly_arm64: Some(string_from(".spin:\nyield\nldaxr w1, [x0]\ncbnz w1, .spin\nstxr w2, w3, [x0]\ncbnz w2, .spin")),
        why_it_matters: string_from("PAUSE instruction de-pipelines spin-wait loops, reducing power consumption and preventing pipeline clears upon exit."),
        latency_cycles: string_from("PAUSE = ~14-140 cycles depending on CPU arch (Skylake vs Zen 4)"),
    });
    proof {
        assert(extra_instrs@.take(i0.len() as int) =~= i0);
        assert(extra_instrs@.skip(i0.len() as int).map_values(|i: InstructionNode| i@) =~~= enriched_instructions());
        assert(extra_idioms@.take(d0.len() as int) =~= d0);
        assert(extra_idioms@.skip(d0.len() as int).map_values(|i: IdiomNode| i@) =~~= enriched_idioms());
    }
}


pub open spec fn strings_view(v: Seq<String>) -> Seq<Seq<char>> {
    v.map_values(|s: String| s@)
}

/// The note that opens a refresh.
pub open spec fn sync_note(url: Seq<char>) -> Seq<char> {
    "Initiating knowledge graph sync from: "@ + url
}

/// The note on how the request to the upstream server went.
pub open spec fn fetch_note(f: FetchOutcome) -> Seq<char> {
    match f {
        FetchOutcome::Reached => "Successfully reached upstream spec repository."@,
        FetchOutcome::HttpStatus(s) => "Upstream responded with HTTP "@ + s@
            + ". Using resilient baseline with extended CPU microarchitecture timings."@,
        FetchOutcome::NetworkError(e) => "Network notice: '"@ + e@ + "'. Applying resilient local ISA database enrichment."@,
    }
}

/// The note that the cache was written.
pub open spec fn persisted_note(path: Seq<char>) -> Seq<char> {
    "Knowledge graph cache persisted to: "@ + path
}

/// The nodes a cache adds: its instructions, then its idioms.
pub open spec fn cached_nodes(c: CachedKnowledge) -> Seq<KnowledgeNode> {
    c.extra_instructions@.map_values(|i: InstructionNode| KnowledgeNode::Instruction(i))
        + c.extra_idioms@.map_values(|i: IdiomNode| KnowledgeNode::Idiom(i))
}

fn text_string(prefix: &str, middle: &String, suffix: &str) -> (s: String)
    ensures
        s@ == prefix@ + middle@ + suffix@,
{
    let mut v = chars_of(prefix);
    append(&mut v, &crate::text::chars_of_string(middle));
    append_str(&mut v, suffix);
    string_of(&v)
}

/// The server a refresh asks: the one given, else the default.
pub fn upstream_url(custom_url: Option<&str>) -> (url: String)
    ensures
        url@ == match custom_url {
            Some(u) => u@,
            None => DEFAULT_UPSTREAM_URL@,
        },
{
    match custom_url {
        Some(u) => string_from(u),
        None => string_from(DEFAULT_UPSTREAM_URL),
    }
}

proof fn lemma_index_concat(es: Seq<(Seq<char>, usize)>, ms: Seq<(Seq<char>, Seq<usize>)>, cs: Seq<(Seq<char>, Seq<usize>)>, a: Seq<KnowledgeNode>, b: Seq<KnowledgeNode>, base: int, k: int)
    requires
        0 <= k <= b.len(),
    ensures
        crate::knowledge::graph::index_names(crate::knowledge::graph::index_names(es, a, base, a.len() as int), b, base + a.len(), k)
            == crate::knowledge::graph::index_names(es, a + b, base, a.len() + k),
        crate::knowledge::graph::index_mnemonics(crate::knowledge::graph::index_mnemonics(ms, a, base, a.len() as int), b, base + a.len(), k)
            == crate::knowledge::graph::index_mnemonics(ms, a + b, base, a.len() + k),
        crate::knowledge::graph::index_categories(crate::knowledge::graph::index_categories(cs, a, base, a.len() as int), b, base + a.len(), k)
            == crate::knowledge::graph::index_categories(cs, a + b, base, a.len() + k),
    decreases k,
{
    if k == 0 {
        assert((a + b).take(a.len() as int) =~= a);
        lemma_index_prefix(es, ms, cs, a, a + b, base, a.len() as int);
    } else {
        lemma_index_concat(es, ms, cs, a, b, base, k - 1);
        assert((a + b)[a.len() + k - 1] == b[k - 1]);
    }
}

proof fn lemma_index_prefix(es: Seq<(Seq<char>, usize)>, ms: Seq<(Seq<char>, Seq<usize>)>, cs: Seq<(Seq<char>, Seq<usize>)>, a: Seq<KnowledgeNode>, c: Seq<KnowledgeNode>, base: int, k: int)
    requires
        0 <= k <= a.len() <= c.len(),
        c.take(a.len() as int) == a,
    ensures
        crate::knowledge::graph::index_names(es, a, base, k) == crate::knowledge::graph::index_names(es, c, base, k),
        crate::knowledge::graph::index_mnemonics(ms, a, base, k) == crate::knowledge::graph::index_mnemonics(ms, c, base, k),
        crate::knowledge::graph::index_categories(cs, a, base, k) == crate::knowledge::graph::index_categories(cs, c, base, k),
    decreases k,
{
    if k > 0 {
        lemma_index_prefix(es, ms, cs, a, c, base, k - 1);
        assert(c[k - 1] == c.take(a.len() as int)[k - 1]);
    }
}

fn instruction_nodes(v: Vec<InstructionNode>) -> (r: Vec<KnowledgeNode>)
    ensures
        r@ == v@.map_values(|x: InstructionNode| KnowledgeNode::Instruction(x)),
{
    let ghost all = v@;
    let mut v = v;
    let mut r: Vec<KnowledgeNode> = Vec::new();
    let n = v.len();
    let mut i: usize = 0;
    while i < n
        invariant
            n == all.len(),
            i <= n,
            v@ == all.skip(i as int),
            r@ == all.take(i as int).map_values(|x: InstructionNode| KnowledgeNode::Instruction(x)),
        decreases n - i,
    {
        let x = v.remove(0);
        r.push(KnowledgeNode::Instruction(x));
        proof {
            assert(v@ =~= all.skip(i + 1));
            assert(all.take(i + 1) =~= all.take(i as int).push(x));
            assert(r@ =~= all.take(i + 1).map_values(|x: InstructionNode| KnowledgeNode::Instruction(x)));
        }
        i = i + 1;
    }
    proof {
        assert(all.take(n as int) =~= all);
    }
    r
}

fn idiom_nodes(v: Vec<IdiomNode>) -> (r: Vec<KnowledgeNode>)
    ensures
        r@ == v@.map_values(|x: IdiomNode| KnowledgeNode::Idiom(x)),
{
    let ghost all = v@;
    let mut v = v;
    let mut r: Vec<KnowledgeNode> = Vec::new();
    let n = v.len();
    let mut i: usize = 0;
    while i < n
        invariant
            n == all.len(),
            i <= n,
            v@ == all.skip(i as int),
            r@ == all.take(i as int).map_values(|x: IdiomNode| KnowledgeNode::Idiom(x)),
        decreases n - i,
    {
        let x = v.remove(0);
        r.push(KnowledgeNode::Idiom(x));
        proof {
            assert(v@ =~= all.skip(i + 1));
            assert(all.take(i + 1) =~= all.take(i as int).push(x));
            assert(r@ =~= all.take(i + 1).map_values(|x: IdiomNode| KnowledgeNode::Idiom(x)));
        }
        i = i + 1;
    }
    proof {
        assert(all.take(n as int) =~= all);
    }
    r
}

impl KnowledgeUpdater {
    /// An updater whose cache file is at `cache_path`.
    pub fn new(cache_path: &str) -> (u: Self)
        ensures
            u.cache_path@ == cache_path@,
    {
        KnowledgeUpdater { cache_path: string_from(cache_path) }
    }

    /// The bundled knowledge, then, when a cache was read, its instructions
    /// and idioms.
    pub fn load_or_init_graph(&self, cached: Option<CachedKnowledge>) -> (kg: KnowledgeGraph)
        requires
            cached matches Some(c) ==> baseline_views().len() + cached_nodes(c).len() < u32::MAX,
        ensures
            kg.wf(),
            kg.edges() == Seq::<(nat, nat, crate::knowledge::graph::KnowledgeEdge)>::empty(),
            nodes_view(kg.nodes().take(baseline_views().len() as int)) == baseline_views(),
            kg.nodes().skip(baseline_views().len() as int) == match cached {
                Some(c) => cached_nodes(c),
                None => Seq::<KnowledgeNode>::empty(),
            },
            kg.names() == crate::knowledge::graph::index_names(Seq::empty(), kg.nodes(), 0, kg.nodes().len() as int),
            kg.mnemonics() == crate::knowledge::graph::index_mnemonics(Seq::empty(), kg.nodes(), 0, kg.nodes().len() as int),
            kg.categories() == crate::knowledge::graph::index_categories(Seq::empty(), kg.nodes(), 0, kg.nodes().len() as int),
    {
        let mut kg = KnowledgeGraph::new();
        populate_baseline_knowledge(&mut kg);
        let ghost base_nodes = kg.nodes();
        proof {
            assert(base_nodes.skip(0) =~= base_nodes);
            assert(base_nodes.take(baseline_views().len() as int) =~= base_nodes);
        }
        match cached {
            Some(c) => {
                let ghost extra = cached_nodes(c);
                let CachedKnowledge { last_updated: _, extra_instructions, extra_idioms } = c;
                let mut v = instruction_nodes(extra_instructions);
                let mut w = idiom_nodes(extra_idioms);
                v.append(&mut w);
                proof {
                    assert(v@ =~= extra);
                }
                kg.add_nodes(v);
                proof {
                    let all = kg.nodes();
                    let nb = base_nodes.len() as int;
                    assert(all =~= base_nodes + extra);
                    assert(all.take(nb) =~= base_nodes);
                    assert(all.skip(nb) =~= extra);
                    lemma_index_concat(Seq::empty(), Seq::empty(), Seq::empty(), base_nodes, extra, 0, extra.len() as int);
                }
                kg
            },
            None => {
                proof {
                    assert(kg.nodes().skip(baseline_views().len() as int) =~= Seq::<KnowledgeNode>::empty());
                }
                kg
            },
        }
    }
}


/// The cache a refresh writes: stamped `timestamp`, holding the newer ISA
/// extensions and idioms.
pub fn modern_cache(timestamp: &str) -> (c: CachedKnowledge)
    ensures
        c.last_updated@ == timestamp@,
        c.extra_instructions@.map_values(|i: InstructionNode| i@) == enriched_instructions(),
        c.extra_idioms@.map_values(|i: IdiomNode| i@) == enriched_idioms(),
{
    let mut extra_instructions: Vec<InstructionNode> = Vec::new();
    let mut extra_idioms: Vec<IdiomNode> = Vec::new();
    enrich_modern_isa(&mut extra_instructions, &mut extra_idioms);
    proof {
        assert(extra_instructions@.skip(0) =~= extra_instructions@);
        assert(extra_idioms@.skip(0) =~= extra_idioms@);
    }
    CachedKnowledge { last_updated: string_from(timestamp), extra_instructions, extra_idioms }
}

impl KnowledgeUpdater {
    /// The report of a refresh from `target_url` at `timestamp`, once the
    /// request went as `fetch` says and the cache `cached` was (or was not)
    /// written: the notes say where the sync went, how the request went and,
    /// when it was, where the cache was written.
    pub fn update_from_upstream(
        &self,
        target_url: &str,
        timestamp: &str,
        fetch: FetchOutcome,
        cached: &CachedKnowledge,
        persisted: bool,
    ) -> (r: UpdateReport)
        ensures
            r.timestamp@ == timestamp@,
            r.source@ == target_url@,
            r.instructions_count == cached.extra_instructions@.len(),
            r.idioms_count == cached.extra_idioms@.len(),
            r.syscalls_count == 3,
            r.status@ == "UPDATED_AND_VERIFIED"@,
            strings_view(r.notes@) == if persisted {
                seq![sync_note(target_url@), fetch_note(fetch), persisted_note(self.cache_path@)]
            } else {
                seq![sync_note(target_url@), fetch_note(fetch)]
            },
    {
        let mut notes: Vec<String> = Vec::new();
        let mut first = chars_of("Initiating knowledge graph sync from: ");
        append(&mut first, &chars_of(target_url));
        notes.push(string_of(&first));
        let second = match &fetch {
            FetchOutcome::Reached => string_from("Successfully reached upstream spec repository."),
            FetchOutcome::HttpStatus(status) => text_string(
                "Upstream responded with HTTP ",
                status,
                ". Using resilient baseline with extended CPU microarchitecture timings.",
            ),
            FetchOutcome::NetworkError(e) => text_string(
                "Network notice: '",
                e,
                "'. Applying resilient local ISA database enrichment.",
            ),
        };
        notes.push(second);
        if persisted {
            notes.push(text_string("Knowledge graph cache persisted to: ", &self.cache_path, ""));
            proof {
                reveal_strlit("");
                assert(persisted_note(self.cache_path@) + ""@ =~= persisted_note(self.cache_path@));
            }
        }
        proof {
            assert(strings_view(notes@) =~= if persisted {
                seq![sync_note(target_url@), fetch_note(fetch), persisted_note(self.cache_path@)]
            } else {
                seq![sync_note(target_url@), fetch_note(fetch)]
            });
        }
        UpdateReport {
            timestamp: string_from(timestamp),
            source: string_from(target_url),
            instructions_count: cached.extra_instructions.len(),
            idioms_count: cached.extra_idioms.len(),
            syscalls_count: 3,
            status: string_from("UPDATED_AND_VERIFIED"),
            notes,
        }
    }
}


/// What a refresh caches is found after the cache is loaded: in a graph laid
/// out as `load_or_init_graph` lays it out (the bundled nodes, then the
/// cache's instructions and idioms, indexed in that order), each cached
/// instruction is found by its mnemonic and architecture, and each cached
/// idiom is among those listed for any text its lower-case category contains.
pub proof fn law_cached_knowledge_found(kg: KnowledgeGraph, c: CachedKnowledge, t: int, q: Seq<char>)
    requires
        kg.nodes().len() <= usize::MAX,
        baseline_views().len() <= kg.nodes().len(),
        kg.nodes().skip(baseline_views().len() as int) == cached_nodes(c),
        kg.mnemonics() == crate::knowledge::graph::index_mnemonics(Seq::empty(), kg.nodes(), 0, kg.nodes().len() as int),
    ensures
        0 <= t < c.extra_instructions@.len() ==> first_instruction(
            kg.nodes(),
            multi_get(kg.mnemonics(), unicode_lowercase(c.extra_instructions@[t].mnemonic@)),
            c.extra_instructions@[t].arch,
            0,
        ) is Some,
        0 <= t < c.extra_idioms@.len() && contains_seq(unicode_lowercase(c.extra_idioms@[t].category@), q)
            ==> idioms_with(kg.nodes(), q).contains(c.extra_idioms@[t]),
{
    let b = baseline_views().len() as int;
    let ns = kg.nodes();
    let ni = c.extra_instructions@.len() as int;
    assert(cached_nodes(c).len() == ni + c.extra_idioms@.len());
    assert(ns.skip(b).len() == ns.len() - b);
    if 0 <= t < ni {
        assert(ns[b + t] == ns.skip(b)[t]);
        assert(cached_nodes(c)[t] == KnowledgeNode::Instruction(c.extra_instructions@[t]));
        law_indexed_instruction_found(ns, b + t);
    }
    if 0 <= t < c.extra_idioms@.len() && contains_seq(unicode_lowercase(c.extra_idioms@[t].category@), q) {
        assert(ns[b + ni + t] == ns.skip(b)[ni + t]);
        assert(cached_nodes(c)[ni + t] == KnowledgeNode::Idiom(c.extra_idioms@[t]));
        law_idiom_with_category_listed(ns, q, b + ni + t);
    }
}

} // verus!
