use assemble::knowledge::graph::{CallingConventionNode, InstructionNode, KnowledgeEdge, KnowledgeGraph, KnowledgeNode, RegisterNode};
use assemble::knowledge::updater::{modern_cache, upstream_url, CachedKnowledge, FetchOutcome, KnowledgeUpdater};
use assemble::types::{Arch, CallingConvention};

#[test]
fn test_knowledge_graph_instruction_lookup() {
    let updater = KnowledgeUpdater::new(".assemble_cache/knowledge_cache.json");
    let kg = updater.load_or_init_graph(None);

    let xor_matches = kg.query("xor");
    assert!(!xor_matches.is_empty(), "Should find XOR instruction");
}

#[test]
fn test_knowledge_graph_calling_convention_lookup() {
    let updater = KnowledgeUpdater::new(".assemble_cache/knowledge_cache.json");
    let kg = updater.load_or_init_graph(None);

    let sysv = kg.get_calling_convention(CallingConvention::SystemV_AMD64);
    assert!(sysv.is_some());
    let sysv = sysv.unwrap();
    assert_eq!(sysv.arg_registers, vec!["rdi", "rsi", "rdx", "rcx", "r8", "r9"]);
    assert_eq!(sysv.stack_alignment_bytes, 16);

    let win64 = kg.get_calling_convention(CallingConvention::Windows_X64);
    assert!(win64.is_some());
    let win64 = win64.unwrap();
    assert_eq!(win64.shadow_space_bytes, 32);
}

#[test]
fn test_knowledge_graph_idioms_lookup() {
    let updater = KnowledgeUpdater::new(".assemble_cache/knowledge_cache.json");
    let kg = updater.load_or_init_graph(None);

    let branchless = kg.get_idioms_by_category("branchless");
    assert!(!branchless.is_empty(), "Should find branchless idioms");
    let has_abs = branchless.iter().any(|i| i.id.contains("abs"));
    assert!(has_abs, "Should have branchless abs idiom");
}

fn sample_instruction(m: &str, arch: Arch) -> InstructionNode {
    InstructionNode {
        mnemonic: m.to_string(),
        arch,
        summary: "Sample".to_string(),
        syntax_forms: vec![format!("{} reg", m)],
        flags_read: vec![],
        flags_written: vec![],
        flags_undefined: vec![],
        implicit_registers_read: vec![],
        implicit_registers_written: vec![],
        latency_centicycles: Some(100),
        throughput_centicycles: None,
        extension: "Test".to_string(),
        traps_and_pitfalls: vec![],
    }
}

#[test]
fn knowledge_baseline_contents() {
    let kg = KnowledgeUpdater::new("cache.json").load_or_init_graph(None);
    assert_eq!(kg.query("cf").len() >= 1, true);
    let idiv = kg.get_instruction("IDIV", Arch::X86_64).unwrap();
    assert_eq!(idiv.latency_centicycles, Some(1800));
    assert!(kg.get_instruction("idiv", Arch::Arm64).is_none());
    let arm = kg.get_calling_convention(CallingConvention::Arm64_AAPCS).unwrap();
    assert_eq!(arm.arch, Arch::Arm64);
    assert!(kg.get_calling_convention(CallingConvention::Linux_Kernel).is_none());
    // every idiom sits under some category containing the empty text
    assert_eq!(kg.get_idioms_by_category("").len(), 12);
    let sys = kg.query("syscall");
    assert!(sys.iter().any(|n| matches!(n, KnowledgeNode::Syscall(s) if s.name == "sys_exit")));
    let by_number = kg.query("60");
    assert!(by_number.iter().any(|n| matches!(n, KnowledgeNode::Syscall(s) if s.id == 60)));
}

#[test]
fn knowledge_query_mnemonic_first_and_once() {
    let mut kg = KnowledgeGraph::new();
    let a = kg.add_register(RegisterNode {
        name: "RAX".to_string(),
        arch: Arch::X86_64,
        width_bits: 64,
        parent_register: None,
        sub_registers: vec!["eax".to_string()],
        role: "accumulator, mov target".to_string(),
    });
    let b = kg.add_instruction(sample_instruction("MOV", Arch::X86_64));
    kg.add_relation(b, a, KnowledgeEdge::ImplicitRead);
    let r = kg.query("Mov");
    assert_eq!(r.len(), 2);
    assert!(matches!(r[0], KnowledgeNode::Instruction(i) if i.mnemonic == "MOV"));
    assert!(matches!(r[1], KnowledgeNode::Register(x) if x.name == "RAX"));
    assert_eq!(kg.query("rax").len(), 1);
    assert!(kg.query("nothing-here").is_empty());
}

#[test]
fn knowledge_cached_additions_and_refresh_report() {
    let updater = KnowledgeUpdater::new("dir/knowledge_cache.json");
    let cache = modern_cache("2024-01-01T00:00:00Z");
    assert_eq!(cache.extra_instructions.len(), 2);
    assert_eq!(cache.extra_idioms[0].id, "atomic_spin_lock_pause");
    let kg = updater.load_or_init_graph(Some(CachedKnowledge {
        last_updated: cache.last_updated.clone(),
        extra_instructions: cache.extra_instructions.clone(),
        extra_idioms: cache.extra_idioms.clone(),
    }));
    assert_eq!(kg.get_instruction("blsr", Arch::X86_64).unwrap().mnemonic, "blsr");
    assert_eq!(kg.get_idioms_by_category("atomic").len(), 1);

    let url = upstream_url(None);
    assert_eq!(url, "https://raw.githubusercontent.com/intel/uops-info/master/uops.json");
    assert_eq!(upstream_url(Some("http://x")), "http://x");
    let rep = updater.update_from_upstream(&url, "T", FetchOutcome::HttpStatus("404 Not Found".to_string()), &cache, true);
    assert_eq!(rep.instructions_count, 2);
    assert_eq!(rep.idioms_count, 1);
    assert_eq!(rep.syscalls_count, 3);
    assert_eq!(rep.status, "UPDATED_AND_VERIFIED");
    assert_eq!(rep.notes, vec![
        format!("Initiating knowledge graph sync from: {}", url),
        "Upstream responded with HTTP 404 Not Found. Using resilient baseline with extended CPU microarchitecture timings.".to_string(),
        "Knowledge graph cache persisted to: dir/knowledge_cache.json".to_string(),
    ]);
    let rep = updater.update_from_upstream("u", "T", FetchOutcome::NetworkError("timeout".to_string()), &cache, false);
    assert_eq!(rep.notes[1], "Network notice: 'timeout'. Applying resilient local ISA database enrichment.");
    assert_eq!(rep.notes.len(), 2);
    let rep = updater.update_from_upstream("u", "T", FetchOutcome::Reached, &cache, false);
    assert_eq!(rep.notes[1], "Successfully reached upstream spec repository.");
}

#[test]
fn law_instance_found_after_add() {
    let mut kg = KnowledgeGraph::new();
    kg.add_calling_convention(CallingConventionNode {
        id: CallingConvention::Linux_Kernel,
        name: "Kernel".to_string(),
        arch: Arch::X86_64,
        arg_registers: vec!["rdi".to_string()],
        float_arg_registers: vec![],
        return_registers: vec!["rax".to_string()],
        callee_saved_registers: vec![],
        caller_saved_registers: vec![],
        stack_alignment_bytes: 16,
        shadow_space_bytes: 0,
        red_zone_bytes: 0,
        rules_and_traps: vec![],
    });
    assert_eq!(kg.get_calling_convention(CallingConvention::Linux_Kernel).unwrap().name, "Kernel");
    assert!(kg.get_calling_convention(CallingConvention::Windows_X64).is_none());
    kg.add_instruction(sample_instruction("Pdep", Arch::X86_64));
    kg.add_instruction(sample_instruction("PDEP", Arch::X86_64));
    // the first one filed for the mnemonic and architecture is found
    assert_eq!(kg.get_instruction("pdep", Arch::X86_64).unwrap().mnemonic, "Pdep");
    assert_eq!(kg.query("pdep").len(), 2);
    // a query returns every node that answers it
    assert_eq!(kg.query("kernel").len(), 1);
}

fn idiom(id: &str, category: &str) -> assemble::knowledge::graph::IdiomNode {
    assemble::knowledge::graph::IdiomNode {
        id: id.to_string(),
        name: id.to_string(),
        category: category.to_string(),
        arch: Arch::X86_64,
        description: String::new(),
        assembly_intel: String::new(),
        assembly_att: None,
        assembly_arm64: None,
        why_it_matters: String::new(),
        latency_cycles: String::new(),
    }
}

#[test]
fn idiom_category_lookup_finds_each_added_idiom() {
    let mut kg = KnowledgeGraph::new();
    kg.add_idiom(idiom("a", "Branchless"));
    kg.add_idiom(idiom("b", "SIMD"));
    kg.add_idiom(idiom("c", "branchless-math"));
    kg.add_idiom(idiom("a", "Branchless"));
    let all: Vec<&str> = kg.get_idioms_by_category("").iter().map(|i| i.id.as_str()).collect();
    assert_eq!(all.len(), 4);
    let mut b: Vec<&str> = kg.get_idioms_by_category("BRANCH").iter().map(|i| i.id.as_str()).collect();
    b.sort();
    assert_eq!(b, vec!["a", "a", "c"]);
    assert_eq!(kg.get_idioms_by_category("simd").len(), 1);
    assert!(kg.get_idioms_by_category("atomic").is_empty());
}

#[test]
fn knowledge_refreshed_cache_is_found_after_loading() {
    let updater = KnowledgeUpdater::new("cache.json");
    let kg = updater.load_or_init_graph(Some(modern_cache("2024-01-01T00:00:00Z")));
    assert!(kg.get_instruction("blsi", Arch::X86_64).is_some());
    assert!(kg.get_instruction("BLSR", Arch::X86_64).is_some());
    assert!(kg.get_idioms_by_category("atomic").iter().any(|i| i.id == "atomic_spin_lock_pause"));
    assert!(kg.get_instruction("xor", Arch::X86_64).is_some());
}
