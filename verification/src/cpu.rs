//! The emulated CPU state: named 64-bit registers and status flags, and the
//! per-step differences that a trace reports.
use vstd::prelude::*;
use crate::text::{ascii_lower_text, ascii_upper_text, chars_of, eq_chars, eq_str, is_ascii_text, to_lowercase, unicode_lowercase};

verus! {

/// The status flags the emulator tracks.
#[derive(Debug, Clone, Copy, PartialEq, Eq, Structural)]
pub struct CpuFlags {
    pub cf: bool,
    pub pf: bool,
    pub af: bool,
    pub zf: bool,
    pub sf: bool,
    pub of: bool,
    pub df: bool,
}

impl CpuFlags {
    /// All flags clear.
    pub open spec fn cleared() -> CpuFlags {
        CpuFlags { cf: false, pf: false, af: false, zf: false, sf: false, of: false, df: false }
    }

    pub fn new() -> (f: CpuFlags)
        ensures
            f == CpuFlags::cleared(),
    {
        CpuFlags { cf: false, pf: false, af: false, zf: false, sf: false, of: false, df: false }
    }
}

impl Default for CpuFlags {
    fn default() -> (f: CpuFlags)
        ensures
            f == CpuFlags::cleared(),
    {
        CpuFlags::new()
    }
}

/// Lexicographic order of texts by code point, as `String`'s `Ord`.
pub open spec fn lex_lt(a: Seq<char>, b: Seq<char>) -> bool
    decreases a.len(),
{
    if a.len() == 0 {
        b.len() > 0
    } else if b.len() == 0 {
        false
    } else if a[0] < b[0] {
        true
    } else if a[0] == b[0] {
        lex_lt(a.drop_first(), b.drop_first())
    } else {
        false
    }
}

pub proof fn lemma_lex_irreflexive(a: Seq<char>)
    ensures
        !lex_lt(a, a),
    decreases a.len(),
{
    if a.len() > 0 {
        lemma_lex_irreflexive(a.drop_first());
    }
}

pub proof fn lemma_lex_transitive(a: Seq<char>, b: Seq<char>, c: Seq<char>)
    requires
        lex_lt(a, b),
        lex_lt(b, c),
    ensures
        lex_lt(a, c),
    decreases a.len(),
{
    if a.len() > 0 && b.len() > 0 && c.len() > 0 && a[0] == b[0] && b[0] == c[0] {
        lemma_lex_transitive(a.drop_first(), b.drop_first(), c.drop_first());
    }
}

pub proof fn lemma_lex_total(a: Seq<char>, b: Seq<char>)
    requires
        a != b,
    ensures
        lex_lt(a, b) || lex_lt(b, a),
    decreases a.len(),
{
    if a.len() == 0 && b.len() == 0 {
        assert(a =~= b);
    }
    if a.len() > 0 && b.len() > 0 && a[0] == b[0] {
        if a.drop_first() == b.drop_first() {
            assert(a =~= seq![a[0]] + a.drop_first());
            assert(b =~= seq![b[0]] + b.drop_first());
        }
        lemma_lex_total(a.drop_first(), b.drop_first());
    }
}

pub fn lex_lt_exec(a: &Vec<char>, b: &Vec<char>) -> (r: bool)
    ensures
        r == lex_lt(a@, b@),
{
    let mut i: usize = 0;
    proof {
        assert(a@.skip(0) =~= a@);
        assert(b@.skip(0) =~= b@);
    }
    while i < a.len() && i < b.len()
        invariant
            i <= a.len(),
            i <= b.len(),
            lex_lt(a@, b@) == lex_lt(a@.skip(i as int), b@.skip(i as int)),
            a@.subrange(0, i as int) == b@.subrange(0, i as int),
        decreases a.len() - i,
    {
        proof {
            assert(a@.skip(i as int)[0] == a@[i as int]);
            assert(b@.skip(i as int)[0] == b@[i as int]);
        }
        if a[i] < b[i] {
            return true;
        }
        if a[i] != b[i] {
            return false;
        }
        proof {
            assert(a@.skip(i as int).drop_first() =~= a@.skip(i + 1));
            assert(b@.skip(i as int).drop_first() =~= b@.skip(i + 1));
            assert(a@.subrange(0, i + 1) =~= a@.subrange(0, i as int).push(a@[i as int]));
            assert(b@.subrange(0, i + 1) =~= b@.subrange(0, i as int).push(b@[i as int]));
        }
        i = i + 1;
    }
    proof {
        assert(a@.skip(i as int).len() == a.len() - i);
        assert(b@.skip(i as int).len() == b.len() - i);
    }
    i < b.len()
}

/// Names in strictly increasing order (so none occurs twice).
pub open spec fn sorted_names(ns: Seq<Seq<char>>) -> bool {
    forall|i: int, j: int| 0 <= i < j < ns.len() ==> lex_lt(#[trigger] ns[i], #[trigger] ns[j])
}

/// The position of `k` among the names.
pub open spec fn key_index(ns: Seq<Seq<char>>, k: Seq<char>) -> int {
    choose|i: int| 0 <= i < ns.len() && ns[i] == k
}

/// The registers as a map from name to value.
pub open spec fn regs_map(ns: Seq<Seq<char>>, vs: Seq<u64>) -> Map<Seq<char>, u64> {
    Map::new(|k: Seq<char>| ns.contains(k), |k: Seq<char>| vs[key_index(ns, k)])
}

proof fn lemma_key_index(ns: Seq<Seq<char>>, i: int)
    requires
        sorted_names(ns),
        0 <= i < ns.len(),
    ensures
        key_index(ns, ns[i]) == i,
{
    let j = key_index(ns, ns[i]);
    assert(0 <= j < ns.len() && ns[j] == ns[i]);
    if j < i {
        assert(lex_lt(ns[j], ns[i]));
        lemma_lex_irreflexive(ns[i]);
    } else if j > i {
        assert(lex_lt(ns[i], ns[j]));
        lemma_lex_irreflexive(ns[i]);
    }
}

/// `name` → value of a register map, 0 for a name that is not there.
pub open spec fn reg_or_zero(m: Map<Seq<char>, u64>, name: Seq<char>) -> u64 {
    if m.contains_key(name) {
        m[name]
    } else {
        0
    }
}

/// The 64-bit register a 32-bit name writes, if it is one.
pub open spec fn alias_parent(r: Seq<char>) -> Option<Seq<char>> {
    if r == "eax"@ { Some("rax"@) }
    else if r == "ebx"@ { Some("rbx"@) }
    else if r == "ecx"@ { Some("rcx"@) }
    else if r == "edx"@ { Some("rdx"@) }
    else if r == "esi"@ { Some("rsi"@) }
    else if r == "edi"@ { Some("rdi"@) }
    else if r == "esp"@ { Some("rsp"@) }
    else if r == "ebp"@ { Some("rbp"@) }
    else if r == "r8d"@ { Some("r8"@) }
    else if r == "r9d"@ { Some("r9"@) }
    else if r == "r10d"@ { Some("r10"@) }
    else if r == "r11d"@ { Some("r11"@) }
    else if r == "r12d"@ { Some("r12"@) }
    else if r == "r13d"@ { Some("r13"@) }
    else if r == "r14d"@ { Some("r14"@) }
    else if r == "r15d"@ { Some("r15"@) }
    else { None }
}

/// What `set(r, val)` writes for a lower-case name: a 32-bit name writes the
/// zero-extended low half into its 64-bit register.
pub open spec fn set_target(r: Seq<char>, val: u64) -> (Seq<char>, u64) {
    match alias_parent(r) {
        Some(p) => (p, val & 0xFFFF_FFFF),
        None => (r, val),
    }
}

/// The register file a fresh x86_64 CPU starts with: every general register
/// and `rip` at 0, except `rsp` and `rbp` at 0x7fffffff0000.
pub open spec fn initial_x86_regs() -> Map<Seq<char>, u64> {
    Map::empty()
        .insert("rax"@, 0).insert("rbx"@, 0).insert("rcx"@, 0).insert("rdx"@, 0)
        .insert("rsi"@, 0).insert("rdi"@, 0).insert("rsp"@, 0).insert("rbp"@, 0)
        .insert("r8"@, 0).insert("r9"@, 0).insert("r10"@, 0).insert("r11"@, 0)
        .insert("r12"@, 0).insert("r13"@, 0).insert("r14"@, 0).insert("r15"@, 0)
        .insert("rip"@, 0)
        .insert("rsp"@, 0x7fff_ffff_0000).insert("rbp"@, 0x7fff_ffff_0000)
}

/// The general registers (by name) and the flags of the emulated CPU.
#[derive(Debug, Clone)]
pub struct CpuRegisters {
    pub names: Vec<Vec<char>>,
    pub values: Vec<u64>,
    pub flags: CpuFlags,
}

impl CpuRegisters {
    /// Names in order, each once, with a value each.
    pub open spec fn wf(&self) -> bool {
        &&& self.names.len() == self.values.len()
        &&& sorted_names(self.names.deep_view())
    }

    /// The register names, in increasing order.
    pub closed spec fn names(&self) -> Seq<Seq<char>> {
        self.names.deep_view()
    }

    /// The register file as a map.
    pub closed spec fn regs(&self) -> Map<Seq<char>, u64> {
        regs_map(self.names.deep_view(), self.values@)
    }

    /// The value of the `i`-th register in name order.
    pub closed spec fn value_at(&self, i: int) -> u64 {
        self.values@[i]
    }

    pub proof fn lemma_names_index(&self, i: int)
        requires
            self.wf(),
            0 <= i < self.names().len(),
        ensures
            self.regs().contains_key(self.names()[i]),
            self.regs()[self.names()[i]] == self.value_at(i),
    {
        lemma_key_index(self.names.deep_view(), i);
        assert(self.names.deep_view().contains(self.names.deep_view()[i]));
    }

    pub fn empty() -> (r: CpuRegisters)
        ensures
            r.wf(),
            r.regs() == Map::<Seq<char>, u64>::empty(),
            r.flags == CpuFlags::cleared(),
    {
        let r = CpuRegisters { names: Vec::new(), values: Vec::new(), flags: CpuFlags::new() };
        proof {
            assert(r.names.deep_view() =~= Seq::<Seq<char>>::empty());
            assert(r.regs() =~= Map::<Seq<char>, u64>::empty());
        }
        r
    }

    /// The number of registers held.
    pub fn len(&self) -> (n: usize)
        requires
            self.wf(),
        ensures
            n == self.names().len(),
    {
        self.names.len()
    }

    /// The `i`-th register in name order.
    pub fn entry(&self, i: usize) -> (e: (Vec<char>, u64))
        requires
            self.wf(),
            i < self.names().len(),
        ensures
            e.0@ == self.names()[i as int],
            e.1 == self.value_at(i as int),
    {
        let n = self.names[i].clone();
        proof {
            assert(self.names.deep_view()[i as int] == self.names@[i as int]@);
        }
        (n, self.values[i])
    }

    /// The value of register `k` (a lower-case name), 0 if there is none.
    pub fn get_name(&self, k: &Vec<char>) -> (v: u64)
        requires
            self.wf(),
        ensures
            v == reg_or_zero(self.regs(), k@),
    {
        let mut i: usize = 0;
        while i < self.names.len()
            invariant
                self.wf(),
                i <= self.names.len() == self.values.len(),
                forall|j: int| 0 <= j < i ==> self.names.deep_view()[j] != k@,
            decreases self.names.len() - i,
        {
            proof {
                assert(self.names.deep_view()[i as int] == self.names@[i as int]@);
            }
            if eq_chars(&self.names[i], k) {
                proof {
                    lemma_key_index(self.names.deep_view(), i as int);
                    assert(self.names.deep_view().contains(k@));
                }
                return self.values[i];
            }
            i = i + 1;
        }
        proof {
            assert(!self.names.deep_view().contains(k@));
        }
        0
    }

    /// Stores `val` in register `k` (a lower-case name), adding it in order
    /// if it is new.
    pub fn put(&mut self, k: Vec<char>, val: u64)
        requires
            old(self).wf(),
        ensures
            final(self).wf(),
            final(self).regs() == old(self).regs().insert(k@, val),
            final(self).flags == old(self).flags,
    {
        let ghost ns = self.names.deep_view();
        let ghost vs = self.values@;
        let n = self.names.len();
        let mut p: usize = 0;
        while p < n && lex_lt_exec(&self.names[p], &k)
            invariant
                p <= n == self.names.len() == self.values.len(),
                ns == self.names.deep_view(),
                forall|j: int| 0 <= j < p ==> lex_lt(#[trigger] ns[j], k@),
            decreases n - p,
        {
            proof {
                assert(ns[p as int] == self.names@[p as int]@);
            }
            p = p + 1;
        }
        proof {
            if p < n {
                assert(ns[p as int] == self.names@[p as int]@);
                assert(!lex_lt(ns[p as int], k@));
            }
        }
        if p < n && eq_chars(&self.names[p], &k) {
            self.values.set(p, val);
            proof {
                let m = self.regs();
                let m0 = regs_map(ns, vs).insert(k@, val);
                assert(self.names.deep_view() == ns);
                assert forall|x: Seq<char>| #[trigger] m.contains_key(x) == m0.contains_key(x) by {
                    if x == k@ {
                        assert(ns[p as int] == k@);
                    }
                }
                assert forall|x: Seq<char>| m.contains_key(x) implies #[trigger] m[x] == m0[x] by {
                    let i = key_index(ns, x);
                    lemma_key_index(ns, i);
                    if x == k@ {
                        lemma_key_index(ns, p as int);
                    }
                }
                assert(m =~= m0);
            }
        } else {
            let ghost kk = k@;
            let ghost old_names = self.names@;
            self.names.insert(p, k);
            self.values.insert(p, val);
            proof {
                let ns2 = self.names.deep_view();
                assert(self.names@ == old_names.insert(p as int, self.names@[p as int]));
                assert forall|j: int| 0 <= j < ns2.len() implies ns2[j] == ns.insert(p as int, kk)[j] by {
                    if j < p {
                        assert(self.names@[j] == old_names[j]);
                    } else if j > p {
                        assert(self.names@[j] == old_names[j - 1]);
                    }
                }
                assert(ns2 =~= ns.insert(p as int, kk));
                if p < n {
                    assert(ns[p as int] != kk);
                    lemma_lex_total(ns[p as int], kk);
                    assert(lex_lt(kk, ns[p as int]));
                }
                assert forall|i: int, j: int| 0 <= i < j < ns2.len() implies lex_lt(#[trigger] ns2[i], #[trigger] ns2[j]) by {
                    if j < p {
                    } else if j == p {
                        assert(ns2[i] == ns[i]);
                    } else if i < p {
                        assert(ns2[j] == ns[j - 1]);
                        assert(lex_lt(ns[i], kk));
                        if j - 1 > p {
                            assert(lex_lt(ns[p as int], ns[j - 1]));
                            lemma_lex_transitive(kk, ns[p as int], ns[j - 1]);
                        }
                        lemma_lex_transitive(ns[i], kk, ns[j - 1]);
                    } else if i == p {
                        assert(ns2[j] == ns[j - 1]);
                        if j - 1 > p {
                            assert(lex_lt(ns[p as int], ns[j - 1]));
                            lemma_lex_transitive(kk, ns[p as int], ns[j - 1]);
                        }
                    } else {
                        assert(ns2[i] == ns[i - 1]);
                        assert(ns2[j] == ns[j - 1]);
                    }
                }
                let vs2 = self.values@;
                let m = regs_map(ns2, vs2);
                let m0 = regs_map(ns, vs).insert(kk, val);
                assert forall|x: Seq<char>| #[trigger] m.contains_key(x) == m0.contains_key(x) by {
                    if ns.contains(x) {
                        let i = choose|i: int| 0 <= i < ns.len() && ns[i] == x;
                        if i < p {
                            assert(ns2[i] == x);
                        } else {
                            assert(ns2[i + 1] == x);
                        }
                    }
                    if x == kk {
                        assert(ns2[p as int] == kk);
                    }
                    if ns2.contains(x) {
                        let i = choose|i: int| 0 <= i < ns2.len() && ns2[i] == x;
                        if i < p {
                            assert(ns[i] == x);
                        } else if i > p {
                            assert(ns[i - 1] == x);
                        }
                    }
                }
                assert forall|x: Seq<char>| m.contains_key(x) implies #[trigger] m[x] == m0[x] by {
                    let i = key_index(ns2, x);
                    lemma_key_index(ns2, i);
                    if i < p {
                        assert(ns[i] == x);
                        lemma_key_index(ns, i);
                        assert(x != kk) by {
                            lemma_lex_irreflexive(kk);
                        }
                    } else if i > p {
                        assert(ns[i - 1] == x);
                        lemma_key_index(ns, i - 1);
                        assert(x != kk);
                    }
                }
                assert(m =~= m0);
            }
        }
    }

    /// Replaces the flags.
    pub fn set_flags(&mut self, f: CpuFlags)
        requires
            old(self).wf(),
        ensures
            final(self).wf(),
            final(self).regs() == old(self).regs(),
            final(self).names() == old(self).names(),
            final(self).flags == f,
    {
        self.flags = f;
    }

    /// A fresh x86_64 register file.
    pub fn new_x86_64() -> (r: CpuRegisters)
        ensures
            r.wf(),
            r.regs() == initial_x86_regs(),
            r.flags == CpuFlags::cleared(),
    {
        let mut r = CpuRegisters::empty();
        r.put(chars_of("rax"), 0);
        r.put(chars_of("rbx"), 0);
        r.put(chars_of("rcx"), 0);
        r.put(chars_of("rdx"), 0);
        r.put(chars_of("rsi"), 0);
        r.put(chars_of("rdi"), 0);
        r.put(chars_of("rsp"), 0);
        r.put(chars_of("rbp"), 0);
        r.put(chars_of("r8"), 0);
        r.put(chars_of("r9"), 0);
        r.put(chars_of("r10"), 0);
        r.put(chars_of("r11"), 0);
        r.put(chars_of("r12"), 0);
        r.put(chars_of("r13"), 0);
        r.put(chars_of("r14"), 0);
        r.put(chars_of("r15"), 0);
        r.put(chars_of("rip"), 0);
        r.put(chars_of("rsp"), 0x7fff_ffff_0000);
        r.put(chars_of("rbp"), 0x7fff_ffff_0000);
        r
    }

    /// The value of a register, by a name in any case; 0 for an unknown name.
    pub fn get(&self, reg: &str) -> (v: u64)
        requires
            self.wf(),
        ensures
            v == reg_or_zero(self.regs(), unicode_lowercase(reg@)),
            is_ascii_text(reg@) ==> v == reg_or_zero(self.regs(), ascii_lower_text(reg@)),
    {
        let r = to_lowercase(&chars_of(reg));
        self.get_name(&r)
    }

    /// Writes a register, by a name in any case. A 32-bit name (`eax`,
    /// `r8d`, ...) writes its 64-bit register, zero-extended.
    pub fn set(&mut self, reg: &str, val: u64)
        requires
            old(self).wf(),
        ensures
            final(self).wf(),
            final(self).regs() == old(self).regs().insert(
                set_target(unicode_lowercase(reg@), val).0,
                set_target(unicode_lowercase(reg@), val).1,
            ),
            final(self).flags == old(self).flags,
            is_ascii_text(reg@) ==> final(self).regs() == old(self).regs().insert(
                set_target(ascii_lower_text(reg@), val).0,
                set_target(ascii_lower_text(reg@), val).1,
            ),
    {
        let r = to_lowercase(&chars_of(reg));
        self.set_name(r, val);
    }

    /// `set` for a name already in lower case.
    pub fn set_name(&mut self, r: Vec<char>, val: u64)
        requires
            old(self).wf(),
        ensures
            final(self).wf(),
            final(self).regs() == old(self).regs().insert(set_target(r@, val).0, set_target(r@, val).1),
            final(self).flags == old(self).flags,
    {
        match alias_parent_exec(&r) {
            Some(p) => self.put(p, val & 0xFFFF_FFFF),
            None => self.put(r, val),
        }
    }
}

fn alias_parent_exec(r: &Vec<char>) -> (p: Option<Vec<char>>)
    ensures
        match p {
            Some(x) => alias_parent(r@) == Some(x@),
            None => alias_parent(r@) is None,
        },
{
    if eq_str(r, "eax") { Some(chars_of("rax")) }
    else if eq_str(r, "ebx") { Some(chars_of("rbx")) }
    else if eq_str(r, "ecx") { Some(chars_of("rcx")) }
    else if eq_str(r, "edx") { Some(chars_of("rdx")) }
    else if eq_str(r, "esi") { Some(chars_of("rsi")) }
    else if eq_str(r, "edi") { Some(chars_of("rdi")) }
    else if eq_str(r, "esp") { Some(chars_of("rsp")) }
    else if eq_str(r, "ebp") { Some(chars_of("rbp")) }
    else if eq_str(r, "r8d") { Some(chars_of("r8")) }
    else if eq_str(r, "r9d") { Some(chars_of("r9")) }
    else if eq_str(r, "r10d") { Some(chars_of("r10")) }
    else if eq_str(r, "r11d") { Some(chars_of("r11")) }
    else if eq_str(r, "r12d") { Some(chars_of("r12")) }
    else if eq_str(r, "r13d") { Some(chars_of("r13")) }
    else if eq_str(r, "r14d") { Some(chars_of("r14")) }
    else if eq_str(r, "r15d") { Some(chars_of("r15")) }
    else { None }
}

/// A register whose value changed in one step.
#[derive(Debug, Clone)]
pub struct RegisterDiff {
    pub reg: String,
    pub before: u64,
    pub after: u64,
}

/// A flag whose value changed in one step.
#[derive(Debug, Clone)]
pub struct FlagDiff {
    pub flag: String,
    pub before: bool,
    pub after: bool,
}

/// One executed instruction of a trace.
#[derive(Debug, Clone)]
pub struct TraceStep {
    pub step: usize,
    pub address: u64,
    pub instruction: String,
    pub bytes: String,
    pub reg_diffs: Vec<RegisterDiff>,
    pub flag_diffs: Vec<FlagDiff>,
    pub memory_writes: Vec<String>,
}

/// The mathematical content of a register change.
pub struct RegChange {
    pub reg: Seq<char>,
    pub before: u64,
    pub after: u64,
}

impl View for RegisterDiff {
    type V = RegChange;

    open spec fn view(&self) -> RegChange {
        RegChange { reg: self.reg@, before: self.before, after: self.after }
    }
}

/// The mathematical content of a flag change.
pub struct FlagChange {
    pub flag: Seq<char>,
    pub before: bool,
    pub after: bool,
}

impl View for FlagDiff {
    type V = FlagChange;

    open spec fn view(&self) -> FlagChange {
        FlagChange { flag: self.flag@, before: self.before, after: self.after }
    }
}

/// The mathematical content of a trace step.
pub struct Step {
    pub step: int,
    pub address: u64,
    pub instruction: Seq<char>,
    pub bytes: Seq<char>,
    pub reg_diffs: Seq<RegChange>,
    pub flag_diffs: Seq<FlagChange>,
    pub memory_writes: Seq<Seq<char>>,
}

impl View for TraceStep {
    type V = Step;

    open spec fn view(&self) -> Step {
        Step {
            step: self.step as int,
            address: self.address,
            instruction: self.instruction@,
            bytes: self.bytes@,
            reg_diffs: self.reg_diffs@.map_values(|r: RegisterDiff| r@),
            flag_diffs: self.flag_diffs@.map_values(|f: FlagDiff| f@),
            memory_writes: self.memory_writes.deep_view(),
        }
    }
}

pub open spec fn steps_view(v: Seq<TraceStep>) -> Seq<Step> {
    v.map_values(|s: TraceStep| s@)
}

/// The names of a register map in increasing order.
pub open spec fn sorted_keys(m: Map<Seq<char>, u64>) -> Seq<Seq<char>> {
    choose|s: Seq<Seq<char>>| sorted_names(s) && (forall|k: Seq<char>| s.contains(k) <==> m.contains_key(k))
}

proof fn lemma_sorted_unique(a: Seq<Seq<char>>, b: Seq<Seq<char>>)
    requires
        sorted_names(a),
        sorted_names(b),
        forall|k: Seq<char>| a.contains(k) <==> b.contains(k),
    ensures
        a == b,
    decreases a.len(),
{
    if a.len() == 0 {
        if b.len() > 0 {
            assert(b.contains(b[0]));
        }
        assert(a =~= b);
    } else {
        assert(a.contains(a[0]));
        let j = choose|j: int| 0 <= j < b.len() && b[j] == a[0];
        assert(b.contains(b[0]));
        let i = choose|i: int| 0 <= i < a.len() && a[i] == b[0];
        if j > 0 {
            assert(lex_lt(b[0], b[j]));
            if i == 0 {
                lemma_lex_irreflexive(a[0]);
            } else {
                assert(lex_lt(a[0], a[i]));
                lemma_lex_transitive(a[0], a[i], a[0]);
                lemma_lex_irreflexive(a[0]);
            }
        }
        assert(a[0] == b[0]);
        let a1 = a.drop_first();
        let b1 = b.drop_first();
        assert forall|k: Seq<char>| a1.contains(k) <==> b1.contains(k) by {
            if a1.contains(k) {
                let x = choose|x: int| 0 <= x < a1.len() && a1[x] == k;
                assert(a[x + 1] == k);
                assert(lex_lt(a[0], a[x + 1]));
                lemma_lex_irreflexive(k);
                assert(b.contains(k));
                let y = choose|y: int| 0 <= y < b.len() && b[y] == k;
                assert(y != 0);
                assert(b1[y - 1] == k);
            }
            if b1.contains(k) {
                let x = choose|x: int| 0 <= x < b1.len() && b1[x] == k;
                assert(b[x + 1] == k);
                assert(lex_lt(b[0], b[x + 1]));
                lemma_lex_irreflexive(k);
                assert(a.contains(k));
                let y = choose|y: int| 0 <= y < a.len() && a[y] == k;
                assert(y != 0);
                assert(a1[y - 1] == k);
            }
        }
        assert(sorted_names(a1)) by {
            assert forall|x: int, y: int| 0 <= x < y < a1.len() implies lex_lt(#[trigger] a1[x], #[trigger] a1[y]) by {
                assert(a1[x] == a[x + 1] && a1[y] == a[y + 1]);
            }
        }
        assert(sorted_names(b1)) by {
            assert forall|x: int, y: int| 0 <= x < y < b1.len() implies lex_lt(#[trigger] b1[x], #[trigger] b1[y]) by {
                assert(b1[x] == b[x + 1] && b1[y] == b[y + 1]);
            }
        }
        lemma_sorted_unique(a1, b1);
        assert(a =~= seq![a[0]] + a1);
        assert(b =~= seq![b[0]] + b1);
    }
}

impl CpuRegisters {
    /// The names are the map's names in increasing order.
    pub proof fn lemma_names_are_sorted_keys(&self)
        requires
            self.wf(),
        ensures
            self.names() == sorted_keys(self.regs()),
    {
        let ns = self.names.deep_view();
        assert(forall|k: Seq<char>| ns.contains(k) <==> self.regs().contains_key(k));
        let s = sorted_keys(self.regs());
        assert(sorted_names(s) && (forall|k: Seq<char>| s.contains(k) <==> self.regs().contains_key(k)));
        lemma_sorted_unique(s, ns);
    }

    /// A copy of the register file.
    pub fn snapshot(&self) -> (r: CpuRegisters)
        requires
            self.wf(),
        ensures
            r.wf(),
            r.regs() == self.regs(),
            r.names() == self.names(),
            r.flags == self.flags,
    {
        let mut names: Vec<Vec<char>> = Vec::new();
        let mut values: Vec<u64> = Vec::new();
        let mut i: usize = 0;
        while i < self.names.len()
            invariant
                i <= self.names.len() == self.values.len(),
                names.deep_view() == self.names.deep_view().take(i as int),
                values@ == self.values@.take(i as int),
            decreases self.names.len() - i,
        {
            let ghost old_names = names.deep_view();
            let n = crate::text::slice_chars(&self.names[i], 0, self.names[i].len());
            proof {
                assert(n@ =~= self.names@[i as int]@);
            }
            crate::text::push_text(&mut names, n);
            values.push(self.values[i]);
            proof {
                assert(self.names.deep_view()[i as int] == self.names@[i as int]@);
                assert(self.names.deep_view().take(i + 1) =~= self.names.deep_view().take(i as int).push(self.names.deep_view()[i as int]));
                assert(names.deep_view() =~= self.names.deep_view().take(i + 1));
                assert(values@ =~= self.values@.take(i + 1));
            }
            i = i + 1;
        }
        proof {
            assert(self.names.deep_view().take(i as int) =~= self.names.deep_view());
            assert(self.values@.take(i as int) =~= self.values@);
        }
        CpuRegisters { names, values, flags: self.flags }
    }
}


/// Reading back a register after writing it gives the written value: a
/// 64-bit (or any non-32-bit) name reads back exactly what `set` wrote.
pub proof fn law_register_read_after_write(m: Map<Seq<char>, u64>, r: Seq<char>, v: u64)
    requires
        alias_parent(r) is None,
    ensures
        reg_or_zero(m.insert(set_target(r, v).0, set_target(r, v).1), r) == v,
{
}

/// Writing a 32-bit name (`eax`, `r8d`, ...) zero-extends the value into its
/// 64-bit register: that register reads back the low 32 bits.
pub proof fn law_register_zero_extension(m: Map<Seq<char>, u64>, r: Seq<char>, v: u64)
    requires
        alias_parent(r) is Some,
    ensures
        reg_or_zero(m.insert(set_target(r, v).0, set_target(r, v).1), alias_parent(r)->0) == v & 0xFFFF_FFFF,
        v & 0xFFFF_FFFF <= 0xFFFF_FFFF,
{
    assert(v & 0xFFFF_FFFF <= 0xFFFF_FFFF) by (bit_vector);
}

/// Register names are read and written without regard to ASCII case: after
/// a write by one spelling of a name, any spelling that lower-cases to the
/// same name reads the value back.
pub proof fn law_register_case_insensitive(m: Map<Seq<char>, u64>, written: Seq<char>, read: Seq<char>, v: u64)
    requires
        is_ascii_text(written),
        is_ascii_text(read),
        ascii_lower_text(written) == ascii_lower_text(read),
        alias_parent(ascii_lower_text(written)) is None,
    ensures
        reg_or_zero(
            m.insert(set_target(ascii_lower_text(written), v).0, set_target(ascii_lower_text(written), v).1),
            ascii_lower_text(read),
        ) == v,
{
}

/// After `set(name, v)` with an ASCII name that is not a 32-bit alias,
/// `get` reads `v` back by the name itself, by its upper-case form and by
/// its lower-case form (`get` and `set` look an ASCII name up by
/// `ascii_lower_text`, and `to_uppercase`/`to_lowercase` of an ASCII name
/// are `ascii_upper_text`/`ascii_lower_text`).
pub proof fn law_register_read_in_any_case(m: Map<Seq<char>, u64>, name: Seq<char>, v: u64)
    requires
        is_ascii_text(name),
        alias_parent(ascii_lower_text(name)) is None,
    ensures
        ({
            let after = m.insert(set_target(ascii_lower_text(name), v).0, set_target(ascii_lower_text(name), v).1);
            &&& reg_or_zero(after, ascii_lower_text(name)) == v
            &&& is_ascii_text(ascii_upper_text(name))
            &&& reg_or_zero(after, ascii_lower_text(ascii_upper_text(name))) == v
            &&& is_ascii_text(ascii_lower_text(name))
            &&& reg_or_zero(after, ascii_lower_text(ascii_lower_text(name))) == v
        }),
{
    crate::text::law_ascii_case_folding(name);
}

/// A register that the file does not hold reads as 0; a fresh x86_64 CPU
/// holds no vector register such as `xmm0`.
pub proof fn law_absent_register_reads_zero(m: Map<Seq<char>, u64>, r: Seq<char>)
    requires
        !m.contains_key(r),
    ensures
        reg_or_zero(m, r) == 0,
        !initial_x86_regs().contains_key("xmm0"@),
{
    reveal_strlit("xmm0");
    reveal_strlit("rax");
    reveal_strlit("rbx");
    reveal_strlit("rcx");
    reveal_strlit("rdx");
    reveal_strlit("rsi");
    reveal_strlit("rdi");
    reveal_strlit("rsp");
    reveal_strlit("rbp");
    reveal_strlit("r8");
    reveal_strlit("r9");
    reveal_strlit("r10");
    reveal_strlit("r11");
    reveal_strlit("r12");
    reveal_strlit("r13");
    reveal_strlit("r14");
    reveal_strlit("r15");
    reveal_strlit("rip");
    assert("xmm0"@[0] != "rax"@[0]);
    assert("xmm0"@[0] != "rbx"@[0]);
    assert("xmm0"@[0] != "rcx"@[0]);
    assert("xmm0"@[0] != "rdx"@[0]);
    assert("xmm0"@[0] != "rsi"@[0]);
    assert("xmm0"@[0] != "rdi"@[0]);
    assert("xmm0"@[0] != "rsp"@[0]);
    assert("xmm0"@[0] != "rbp"@[0]);
    assert("xmm0"@[0] != "r8"@[0]);
    assert("xmm0"@[0] != "r9"@[0]);
    assert("xmm0"@[0] != "r10"@[0]);
    assert("xmm0"@[0] != "r11"@[0]);
    assert("xmm0"@[0] != "r12"@[0]);
    assert("xmm0"@[0] != "r13"@[0]);
    assert("xmm0"@[0] != "r14"@[0]);
    assert("xmm0"@[0] != "r15"@[0]);
    assert("xmm0"@[0] != "rip"@[0]);
}

/// A register write leaves every other register as it was.
pub proof fn law_register_write_frame(m: Map<Seq<char>, u64>, r: Seq<char>, v: u64, other: Seq<char>)
    requires
        other != set_target(r, v).0,
    ensures
        reg_or_zero(m.insert(set_target(r, v).0, set_target(r, v).1), other) == reg_or_zero(m, other),
{
}

} // verus!
