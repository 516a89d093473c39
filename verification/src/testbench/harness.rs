//! Emulated test runs of assembled code: each test sets registers, traces
//! the code from 0x400000, and compares registers against expectations.
use vstd::prelude::*;
use crate::cpu::{initial_x86_regs, CpuFlags, RegChange, Step};
use crate::emulator::tracer::{reg_write, trace_spec, Machine, StepTracer};
use crate::text::{append, append_str, chars_of, chars_of_string, decimal, eq_ignore_ascii_case, eq_ignore_ascii_case_exec, fmt_hex, fmt_u64, string_of};

verus! {

/// Where the code under test is placed.
pub const LOAD_ADDRESS: u64 = 0x400000;

/// One test: registers to set before running, and registers expected after.
#[derive(Debug, Clone)]
pub struct TestCase {
    pub name: String,
    pub initial_registers: Vec<(String, u64)>,
    pub expected_registers: Vec<(String, u64)>,
}

/// The outcome of one test.
#[derive(Debug, Clone)]
pub struct TestResult {
    pub name: String,
    pub passed: bool,
    pub steps_executed: usize,
    pub mismatches: Vec<String>,
}

/// The outcome of a run of tests.
#[derive(Debug, Clone)]
pub struct VerificationReport {
    pub total_tests: usize,
    pub passed_tests: usize,
    pub failed_tests: usize,
    pub results: Vec<TestResult>,
}

pub open spec fn pairs_view(v: Seq<(String, u64)>) -> Seq<(Seq<char>, u64)> {
    v.map_values(|p: (String, u64)| (p.0@, p.1))
}

/// The mathematical content of a test.
pub struct Case {
    pub name: Seq<char>,
    pub initial: Seq<(Seq<char>, u64)>,
    pub expected: Seq<(Seq<char>, u64)>,
}

impl View for TestCase {
    type V = Case;

    open spec fn view(&self) -> Case {
        Case {
            name: self.name@,
            initial: pairs_view(self.initial_registers@),
            expected: pairs_view(self.expected_registers@),
        }
    }
}

/// The mathematical content of a test outcome.
pub struct Outcome {
    pub name: Seq<char>,
    pub passed: bool,
    pub steps_executed: int,
    pub mismatches: Seq<Seq<char>>,
}

impl View for TestResult {
    type V = Outcome;

    open spec fn view(&self) -> Outcome {
        Outcome {
            name: self.name@,
            passed: self.passed,
            steps_executed: self.steps_executed as int,
            mismatches: self.mismatches.deep_view(),
        }
    }
}

/// The mathematical content of a run's report.
pub struct Report {
    pub total_tests: int,
    pub passed_tests: int,
    pub failed_tests: int,
    pub results: Seq<Outcome>,
}

impl View for VerificationReport {
    type V = Report;

    open spec fn view(&self) -> Report {
        Report {
            total_tests: self.total_tests as int,
            passed_tests: self.passed_tests as int,
            failed_tests: self.failed_tests as int,
            results: self.results@.map_values(|r: TestResult| r@),
        }
    }
}

/// A fresh machine.
pub open spec fn fresh_machine() -> Machine {
    Machine { regs: initial_x86_regs(), flags: CpuFlags::cleared(), mem: Map::empty() }
}

/// The machine after setting the first `k` initial registers.
pub open spec fn with_initial(m: Machine, regs: Seq<(Seq<char>, u64)>, k: int) -> Machine
    decreases k,
{
    if k <= 0 || k > regs.len() {
        m
    } else {
        reg_write(with_initial(m, regs, k - 1), regs[k - 1].0, regs[k - 1].1)
    }
}

/// The first change whose register matches `name` regardless of ASCII case.
pub open spec fn find_change(ds: Seq<RegChange>, name: Seq<char>, i: int) -> Option<u64>
    decreases ds.len() - i,
{
    if i < 0 || i >= ds.len() {
        None
    } else if eq_ignore_ascii_case(ds[i].reg, name) {
        Some(ds[i].after)
    } else {
        find_change(ds, name, i + 1)
    }
}

/// What the last step of `steps` wrote to register `name`, 0 if nothing.
pub open spec fn last_value(steps: Seq<Step>, name: Seq<char>) -> u64 {
    if steps.len() == 0 {
        0
    } else {
        match find_change(steps.last().reg_diffs, name, 0) {
            Some(v) => v,
            None => 0,
        }
    }
}

pub open spec fn mismatch_text(name: Seq<char>, expected: u64, actual: u64) -> Seq<char> {
    "Register '"@ + name + "' expected 0x"@ + crate::text::digits(expected as nat, 16) + " ("@
        + decimal(expected as int) + "), got 0x"@ + crate::text::digits(actual as nat, 16) + " ("@
        + decimal(actual as int) + ")"@
}

/// Checking the first `k` expectations: each runs the trace once more on
/// the same machine, and, when that run succeeds, reads the register from
/// the last step of the first run.
pub open spec fn check_expected(m: Machine, code: Seq<u8>, steps: Seq<Step>, exp: Seq<(Seq<char>, u64)>, k: int) -> (Machine, Seq<Seq<char>>)
    decreases k,
{
    if k <= 0 || k > exp.len() {
        (m, Seq::empty())
    } else {
        let prev = check_expected(m, code, steps, exp, k - 1);
        let again = trace_spec(prev.0, code, LOAD_ADDRESS, 1000);
        let (name, want) = exp[k - 1];
        let actual = if again.1 is Ok { last_value(steps, name) } else { 0 };
        if actual != want {
            (again.0, prev.1.push(mismatch_text(name, want, actual)))
        } else {
            (again.0, prev.1)
        }
    }
}

/// One test: `Err` when its first trace faults.
pub open spec fn run_case(code: Seq<u8>, t: Case) -> Result<Outcome, Seq<char>> {
    let m1 = with_initial(fresh_machine(), t.initial, t.initial.len() as int);
    let first = trace_spec(m1, code, LOAD_ADDRESS, 1000);
    match first.1 {
        Err(e) => Err(e),
        Ok(steps) => {
            let ms = check_expected(first.0, code, steps, t.expected, t.expected.len() as int).1;
            Ok(Outcome { name: t.name, passed: ms.len() == 0, steps_executed: steps.len() as int, mismatches: ms })
        },
    }
}

/// The first `k` tests, or the fault of the first one whose trace faults.
pub open spec fn run_cases(code: Seq<u8>, ts: Seq<Case>, k: int) -> Result<Seq<Outcome>, Seq<char>>
    decreases k,
{
    if k <= 0 || k > ts.len() {
        Ok(Seq::empty())
    } else {
        match run_cases(code, ts, k - 1) {
            Err(e) => Err(e),
            Ok(done) => match run_case(code, ts[k - 1]) {
                Err(e) => Err(e),
                Ok(o) => Ok(done.push(o)),
            },
        }
    }
}

pub open spec fn count_passed(rs: Seq<Outcome>) -> int
    decreases rs.len(),
{
    if rs.len() == 0 { 0 } else { count_passed(rs.drop_last()) + if rs.last().passed { 1int } else { 0int } }
}

/// What a run of `tests` against assembled `code` reports.
pub open spec fn verification_spec(code: Seq<u8>, tests: Seq<Case>) -> Result<Report, Seq<char>> {
    match run_cases(code, tests, tests.len() as int) {
        Err(e) => Err(e),
        Ok(rs) => {
            let passed = count_passed(rs);
            Ok(Report { total_tests: tests.len() as int, passed_tests: passed, failed_tests: tests.len() - passed, results: rs })
        },
    }
}

proof fn lemma_count_passed_bound(rs: Seq<Outcome>)
    ensures
        0 <= count_passed(rs) <= rs.len(),
    decreases rs.len(),
{
    if rs.len() > 0 {
        lemma_count_passed_bound(rs.drop_last());
    }
}

fn find_change_exec(ds: &Vec<crate::cpu::RegisterDiff>, name: &Vec<char>) -> (r: Option<u64>)
    ensures
        r == find_change(ds@.map_values(|d: crate::cpu::RegisterDiff| d@), name@, 0),
{
    let ghost v = ds@.map_values(|d: crate::cpu::RegisterDiff| d@);
    let mut i: usize = 0;
    while i < ds.len()
        invariant
            i <= ds.len(),
            v == ds@.map_values(|d: crate::cpu::RegisterDiff| d@),
            find_change(v, name@, 0) == find_change(v, name@, i as int),
        decreases ds.len() - i,
    {
        let reg = chars_of_string(&ds[i].reg);
        proof {
            assert(v[i as int] == ds@[i as int]@);
        }
        if eq_ignore_ascii_case_exec(&reg, name) {
            return Some(ds[i].after);
        }
        i = i + 1;
    }
    None
}

fn last_value_exec(steps: &Vec<crate::cpu::TraceStep>, name: &Vec<char>) -> (v: u64)
    ensures
        v == last_value(crate::cpu::steps_view(steps@), name@),
{
    if steps.len() == 0 {
        0
    } else {
        let last = &steps[steps.len() - 1];
        proof {
            assert(crate::cpu::steps_view(steps@).last() == last@);
        }
        match find_change_exec(&last.reg_diffs, name) {
            Some(v) => v,
            None => 0,
        }
    }
}

fn mismatch_text_exec(name: &Vec<char>, expected: u64, actual: u64) -> (s: String)
    ensures
        s@ == mismatch_text(name@, expected, actual),
{
    let mut t = chars_of("Register '");
    append(&mut t, name);
    append_str(&mut t, "' expected 0x");
    append(&mut t, &fmt_hex(expected));
    append_str(&mut t, " (");
    append(&mut t, &fmt_u64(expected));
    append_str(&mut t, "), got 0x");
    append(&mut t, &fmt_hex(actual));
    append_str(&mut t, " (");
    append(&mut t, &fmt_u64(actual));
    append_str(&mut t, ")");
    string_of(&t)
}

fn run_case_exec(bytes: &[u8], t: &TestCase) -> (r: Result<TestResult, String>)
    ensures
        match r {
            Ok(o) => run_case(bytes@, t@) == Ok::<Outcome, Seq<char>>(o@),
            Err(e) => run_case(bytes@, t@) == Err::<Outcome, Seq<char>>(e@),
        },
{
    let mut tracer = StepTracer::new();
    let ghost init = pairs_view(t.initial_registers@);
    let mut i: usize = 0;
    while i < t.initial_registers.len()
        invariant
            i <= t.initial_registers@.len(),
            init == pairs_view(t.initial_registers@),
            tracer.wf(),
            tracer.step_limit() == 1000,
            tracer.machine() == with_initial(fresh_machine(), init, i as int),
        decreases t.initial_registers@.len() - i,
    {
        let (name, val) = (&t.initial_registers[i].0, t.initial_registers[i].1);
        proof {
            assert(init[i as int] == (name@, val));
        }
        tracer.set_initial_register(name.as_str(), val);
        i = i + 1;
    }
    let steps = match tracer.trace(bytes, LOAD_ADDRESS) {
        Ok(s) => s,
        Err(e) => {
            return Err(e);
        },
    };
    let ghost sv = crate::cpu::steps_view(steps@);
    let ghost exp = pairs_view(t.expected_registers@);
    let ghost m_after = tracer.machine();
    let mut mismatches: Vec<Vec<char>> = Vec::new();
    let mut k: usize = 0;
    proof {
        assert(mismatches.deep_view() =~= Seq::<Seq<char>>::empty());
    }
    while k < t.expected_registers.len()
        invariant
            k <= t.expected_registers@.len(),
            exp == pairs_view(t.expected_registers@),
            sv == crate::cpu::steps_view(steps@),
            tracer.wf(),
            tracer.step_limit() == 1000,
            (tracer.machine(), mismatches.deep_view()) == check_expected(m_after, bytes@, sv, exp, k as int),
        decreases t.expected_registers@.len() - k,
    {
        let name = chars_of_string(&t.expected_registers[k].0);
        let want = t.expected_registers[k].1;
        proof {
            assert(exp[k as int] == (name@, want));
        }
        let again = tracer.trace(bytes, LOAD_ADDRESS);
        let actual = match again {
            Ok(_) => last_value_exec(&steps, &name),
            Err(_) => 0,
        };
        if actual != want {
            let ghost before = mismatches.deep_view();
            let msg = mismatch_text_exec(&name, want, actual);
            crate::text::push_text(&mut mismatches, chars_of_string(&msg));
            let ghost pushed = mismatches.deep_view();
            proof {
                assert(pushed == before.push(msg@));
            }
        }
        k = k + 1;
    }
    let ghost ms = mismatches.deep_view();
    let n = steps.len();
    let passed = mismatches.len() == 0;
    let strings = to_strings(mismatches);
    Ok(TestResult { name: string_of(&chars_of_string(&t.name)), passed, steps_executed: n, mismatches: strings })
}

fn to_strings(v: Vec<Vec<char>>) -> (r: Vec<String>)
    ensures
        r.deep_view() == v.deep_view(),
{
    let mut r: Vec<String> = Vec::new();
    let mut i: usize = 0;
    while i < v.len()
        invariant
            i <= v.len(),
            r.deep_view() == v.deep_view().take(i as int),
        decreases v.len() - i,
    {
        let s = string_of(&v[i]);
        let ghost before = r.deep_view();
        r.push(s);
        proof {
            assert(r.deep_view() =~= before.push(s@));
            assert(v.deep_view()[i as int] == v@[i as int]@);
            assert(v.deep_view().take(i + 1) =~= v.deep_view().take(i as int).push(v.deep_view()[i as int]));
        }
        i = i + 1;
    }
    proof {
        assert(v.deep_view().take(i as int) =~= v.deep_view());
    }
    r
}

/// Runs each test on a fresh emulator against code already assembled; the
/// first trace that faults ends the run with its error.
pub fn run_verification(bytes: &[u8], tests: &[TestCase]) -> (r: Result<VerificationReport, String>)
    ensures
        match r {
            Ok(rep) => verification_spec(bytes@, tests@.map_values(|t: TestCase| t@)) == Ok::<Report, Seq<char>>(rep@),
            Err(e) => verification_spec(bytes@, tests@.map_values(|t: TestCase| t@)) == Err::<Report, Seq<char>>(e@),
        },
{
    let ghost ts = tests@.map_values(|t: TestCase| t@);
    let mut results: Vec<TestResult> = Vec::new();
    let mut passed_count: usize = 0;
    let mut i: usize = 0;
    proof {
        assert(results@.map_values(|r: TestResult| r@) =~= Seq::<Outcome>::empty());
    }
    while i < tests.len()
        invariant
            i <= tests@.len(),
            ts == tests@.map_values(|t: TestCase| t@),
            run_cases(bytes@, ts, i as int) == Ok::<Seq<Outcome>, Seq<char>>(results@.map_values(|r: TestResult| r@)),
            passed_count as int == count_passed(results@.map_values(|r: TestResult| r@)),
            results@.len() == i,
        decreases tests@.len() - i,
    {
        proof {
            assert(ts[i as int] == tests@[i as int]@);
            lemma_count_passed_bound(results@.map_values(|r: TestResult| r@));
        }
        let o = match run_case_exec(bytes, &tests[i]) {
            Ok(o) => o,
            Err(e) => {
                proof {
                    lemma_run_cases_err(bytes@, ts, i as int, e@);
                }
                return Err(e);
            },
        };
        let ghost before = results@.map_values(|r: TestResult| r@);
        let p = o.passed;
        results.push(o);
        proof {
            assert(results@.map_values(|r: TestResult| r@) =~= before.push(o@));
            assert(results@.map_values(|r: TestResult| r@).drop_last() =~= before);
        }
        if p {
            passed_count = passed_count + 1;
        }
        i = i + 1;
    }
    proof {
        lemma_count_passed_bound(results@.map_values(|r: TestResult| r@));
    }
    let total = tests.len();
    Ok(VerificationReport { total_tests: total, passed_tests: passed_count, failed_tests: total - passed_count, results })
}

proof fn lemma_run_cases_err(code: Seq<u8>, ts: Seq<Case>, i: int, e: Seq<char>)
    requires
        0 <= i < ts.len(),
        run_cases(code, ts, i) is Ok,
        run_case(code, ts[i]) == Err::<Outcome, Seq<char>>(e),
    ensures
        run_cases(code, ts, ts.len() as int) == Err::<Seq<Outcome>, Seq<char>>(e),
    decreases ts.len() - i,
{
    lemma_run_cases_stays_err(code, ts, i + 1, e);
}

proof fn lemma_run_cases_stays_err(code: Seq<u8>, ts: Seq<Case>, k: int, e: Seq<char>)
    requires
        1 <= k <= ts.len(),
        run_cases(code, ts, k) == Err::<Seq<Outcome>, Seq<char>>(e),
    ensures
        run_cases(code, ts, ts.len() as int) == Err::<Seq<Outcome>, Seq<char>>(e),
    decreases ts.len() - k,
{
    if k < ts.len() {
        lemma_run_cases_stays_err(code, ts, k + 1, e);
    }
}


proof fn lemma_run_cases_shape(code: Seq<u8>, ts: Seq<Case>, k: int)
    requires
        0 <= k <= ts.len(),
    ensures
        run_cases(code, ts, k) matches Ok(rs) ==> {
            &&& rs.len() == k
            &&& forall|i: int| 0 <= i < k ==> {
                &&& (#[trigger] rs[i]).name == ts[i].name
                &&& rs[i].passed <==> rs[i].mismatches.len() == 0
            }
        },
    decreases k,
{
    if k > 0 {
        lemma_run_cases_shape(code, ts, k - 1);
    }
}

/// A run that completes reports one result per test, in the tests' order and
/// under their names; a test passes exactly when it has no mismatch; and the
/// passed and failed counts add up to the number of tests.
pub proof fn law_verification_report_counts(code: Seq<u8>, tests: Seq<Case>)
    ensures
        verification_spec(code, tests) matches Ok(rep) ==> {
            &&& rep.total_tests == tests.len()
            &&& rep.passed_tests + rep.failed_tests == rep.total_tests
            &&& 0 <= rep.passed_tests <= rep.total_tests
            &&& rep.results.len() == tests.len()
            &&& forall|i: int| 0 <= i < tests.len() ==> {
                &&& (#[trigger] rep.results[i]).name == tests[i].name
                &&& rep.results[i].passed <==> rep.results[i].mismatches.len() == 0
            }
        },
{
    lemma_run_cases_shape(code, tests, tests.len() as int);
    if let Ok(rs) = run_cases(code, tests, tests.len() as int) {
        lemma_count_passed_bound(rs);
    }
}


/// Each expectation is checked against the register values the trace left
/// in its final step: when the final step of the run wrote `v` to register
/// `name` (any ASCII case), the expectation `(name, v)` raises no mismatch,
/// and an expectation `(name, w)` with `w != v` raises the mismatch that
/// reports `v` as the value got. (Both when the repeated run succeeds.)
pub proof fn law_expectations_read_final_step(
    m: Machine,
    code: Seq<u8>,
    steps: Seq<Step>,
    exp: Seq<(Seq<char>, u64)>,
    k: int,
    v: u64,
)
    requires
        0 < k <= exp.len(),
        steps.len() > 0,
        find_change(steps[steps.len() - 1].reg_diffs, exp[k - 1].0, 0) == Some(v),
        trace_spec(check_expected(m, code, steps, exp, k - 1).0, code, LOAD_ADDRESS, 1000).1 is Ok,
    ensures
        exp[k - 1].1 == v ==> check_expected(m, code, steps, exp, k).1 == check_expected(m, code, steps, exp, k - 1).1,
        exp[k - 1].1 != v ==> check_expected(m, code, steps, exp, k).1
            == check_expected(m, code, steps, exp, k - 1).1.push(mismatch_text(exp[k - 1].0, exp[k - 1].1, v)),
{
}

/// A test with one expectation passes when the final step of its run wrote
/// the expected value to that register (and the repeated run succeeds).
pub proof fn law_single_expectation_passes(code: Seq<u8>, t: Case, steps: Seq<Step>, v: u64)
    requires
        t.expected.len() == 1,
        t.expected[0].1 == v,
        trace_spec(with_initial(fresh_machine(), t.initial, t.initial.len() as int), code, LOAD_ADDRESS, 1000).1 == Ok::<Seq<Step>, Seq<char>>(steps),
        steps.len() > 0,
        find_change(steps[steps.len() - 1].reg_diffs, t.expected[0].0, 0) == Some(v),
        trace_spec(
            trace_spec(with_initial(fresh_machine(), t.initial, t.initial.len() as int), code, LOAD_ADDRESS, 1000).0,
            code,
            LOAD_ADDRESS,
            1000,
        ).1 is Ok,
    ensures
        run_case(code, t) matches Ok(o) && o.passed && o.mismatches.len() == 0,
{
    let m1 = with_initial(fresh_machine(), t.initial, t.initial.len() as int);
    let first = trace_spec(m1, code, LOAD_ADDRESS, 1000);
    assert(check_expected(first.0, code, steps, t.expected, 0).0 == first.0);
    law_expectations_read_final_step(first.0, code, steps, t.expected, 1, v);
}

} // verus!
