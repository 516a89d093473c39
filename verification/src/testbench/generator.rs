//! Harness programs that call an assembled function: a C driver and a
//! Python `ctypes` loader.
use vstd::prelude::*;
use crate::text::{append, append_str, chars_of, decimal, join, string_of};

verus! {

pub const C_PRELUDE: &'static str = "#include <stdio.h>\n#include <stdint.h>\n#include <assert.h>\n\n";
pub const C_FINALE: &'static str = "    printf(\"All tests completed successfully!\\n\");\n    return 0;\n}\n";

pub const PY_HEAD: &'static str = r##"import ctypes
import os
import sys

def run_tests():
    lib_path = os.path.abspath(""##;
pub const PY_AFTER_LIB: &'static str = r##"")
    print(f"Loading assembly shared library: {lib_path}")
    try:
        asm_lib = ctypes.CDLL(lib_path)
    except Exception as e:
        print(f"Failed to load shared library: {e}")
        sys.exit(1)

    func = getattr(asm_lib, ""##;
pub const PY_AFTER_GETATTR: &'static str = r##"")
    func.restype = ctypes.c_uint64
    func.argtypes = [ctypes.c_uint64, ctypes.c_uint64]

    print(f"Calling assembly function '"##;
pub const PY_TAIL: &'static str = r##"'...")
    res = func(10, 20)
    print(f"Result: {res}")

if __name__ == "__main__":
    run_tests()
"##;

/// The texts of a list of string slices.
pub open spec fn texts(v: Seq<&str>) -> Seq<Seq<char>> {
    v.map_values(|s: &str| s@)
}

/// The lines of test case `i` (from 0).
pub open spec fn c_case(f: Seq<char>, ret: Seq<char>, args: Seq<Seq<char>>, i: int) -> Seq<char> {
    let n = decimal(i + 1);
    "    // Test case "@ + n + "\n"@
        + "    "@ + ret + " res"@ + n + " = "@ + f + "("@ + join(args, ", "@) + ");\n"@
        + "    printf(\"Test "@ + n + " result: %lu\\n\", (uint64_t)res"@ + n + ");\n\n"@
}

/// The lines of the first `k` test cases.
pub open spec fn c_cases(f: Seq<char>, ret: Seq<char>, tests: Seq<Seq<Seq<char>>>, k: int) -> Seq<char>
    decreases k,
{
    if k <= 0 || k > tests.len() {
        Seq::empty()
    } else {
        c_cases(f, ret, tests, k - 1) + c_case(f, ret, tests[k - 1], k - 1)
    }
}

/// The C driver: includes, the `extern` declaration, then one call and
/// print per test case.
pub open spec fn c_harness(f: Seq<char>, ret: Seq<char>, args: Seq<Seq<char>>, tests: Seq<Seq<Seq<char>>>) -> Seq<char> {
    C_PRELUDE@
        + "extern "@ + ret + " "@ + f + "("@ + join(args, ", "@) + ");\n\n"@
        + "int main(void) {\n"@
        + "    printf(\"Running tests for assembly function '"@ + f + "'...\\n\");\n\n"@
        + c_cases(f, ret, tests, tests.len() as int)
        + C_FINALE@
}

fn join_strs(v: &[&str], sep: &str) -> (s: Vec<char>)
    ensures
        s@ == join(texts(v@), sep@),
{
    let mut parts: Vec<Vec<char>> = Vec::new();
    let mut i: usize = 0;
    while i < v.len()
        invariant
            i <= v@.len(),
            parts.deep_view() == texts(v@).take(i as int),
        decreases v@.len() - i,
    {
        crate::text::push_text(&mut parts, chars_of(v[i]));
        proof {
            assert(parts.deep_view() =~= texts(v@).take(i + 1));
        }
        i = i + 1;
    }
    proof {
        assert(texts(v@).take(i as int) =~= texts(v@));
    }
    crate::text::join_exec(&parts, sep)
}

/// A C program that calls `func_name` once per test case and prints each
/// result.
pub fn generate_c_harness(func_name: &str, ret_type: &str, arg_types: &[&str], test_args: &[&[&str]]) -> (s: String)
    ensures
        s@ == c_harness(func_name@, ret_type@, texts(arg_types@), test_args@.map_values(|a: &[&str]| texts(a@))),
{
    let ghost tests = test_args@.map_values(|a: &[&str]| texts(a@));
    let mut s = chars_of(C_PRELUDE);
    append_str(&mut s, "extern ");
    append_str(&mut s, ret_type);
    append_str(&mut s, " ");
    append_str(&mut s, func_name);
    append_str(&mut s, "(");
    append(&mut s, &join_strs(arg_types, ", "));
    append_str(&mut s, ");\n\n");
    append_str(&mut s, "int main(void) {\n");
    append_str(&mut s, "    printf(\"Running tests for assembly function '");
    append_str(&mut s, func_name);
    append_str(&mut s, "'...\\n\");\n\n");
    let ghost head = s@;
    let mut i: usize = 0;
    while i < test_args.len()
        invariant
            i <= test_args@.len(),
            tests == test_args@.map_values(|a: &[&str]| texts(a@)),
            s@ == head + c_cases(func_name@, ret_type@, tests, i as int),
        decreases test_args@.len() - i,
    {
        let n = crate::text::fmt_u64((i + 1) as u64);
        let mut c = chars_of("    // Test case ");
        append(&mut c, &n);
        append_str(&mut c, "\n");
        append_str(&mut c, "    ");
        append_str(&mut c, ret_type);
        append_str(&mut c, " res");
        append(&mut c, &n);
        append_str(&mut c, " = ");
        append_str(&mut c, func_name);
        append_str(&mut c, "(");
        append(&mut c, &join_strs(test_args[i], ", "));
        append_str(&mut c, ");\n");
        append_str(&mut c, "    printf(\"Test ");
        append(&mut c, &n);
        append_str(&mut c, " result: %lu\\n\", (uint64_t)res");
        append(&mut c, &n);
        append_str(&mut c, ");\n\n");
        proof {
            assert(tests[i as int] == texts(test_args@[i as int]@));
            assert(c@ =~= c_case(func_name@, ret_type@, tests[i as int], i as int));
        }
        let ghost before = s@;
        append(&mut s, &c);
        proof {
            assert(s@ =~= head + c_cases(func_name@, ret_type@, tests, i + 1));
        }
        i = i + 1;
    }
    append_str(&mut s, C_FINALE);
    proof {
        assert(s@ =~= c_harness(func_name@, ret_type@, texts(arg_types@), tests));
    }
    string_of(&s)
}

/// The Python loader: it opens the shared library and calls the function
/// with 10 and 20.
pub open spec fn python_harness(lib: Seq<char>, func: Seq<char>) -> Seq<char> {
    PY_HEAD@ + lib + PY_AFTER_LIB@ + func + PY_AFTER_GETATTR@ + func + PY_TAIL@
}

/// A Python `ctypes` script that loads `lib_name` and calls `func_name`.
pub fn generate_python_ctypes_harness(lib_name: &str, func_name: &str) -> (s: String)
    ensures
        s@ == python_harness(lib_name@, func_name@),
{
    let mut s = chars_of(PY_HEAD);
    append_str(&mut s, lib_name);
    append_str(&mut s, PY_AFTER_LIB);
    append_str(&mut s, func_name);
    append_str(&mut s, PY_AFTER_GETATTR);
    append_str(&mut s, func_name);
    append_str(&mut s, PY_TAIL);
    string_of(&s)
}

} // verus!
