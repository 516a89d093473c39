# assemble

A toolkit for people and programs that write assembly, verified with Verus.

The library (`src/`) holds the logic, each public function with a contract
over a mathematical model, and public proof functions (`law_*`) that state
what holds across operations:

- `linter`: static ABI and trap checks for x86_64, ARM64 and RISC-V.
- `fixer`: automatic repair of x86_64 prologues, epilogues and idioms.
- `safety`: the safety audit of source text before it is run, for user,
  kernel or bare-metal code.
- `assembler`: machine-code listings (through `iced-x86`) and the source text
  handed to NASM.
- `emulator`, `cpu`: a step tracer over registers, flags and a sparse memory.
- `knowledge`: a graph of instructions, flags, conventions, idioms and system
  calls (held in a `petgraph` graph), with its lookups.
- `templates`, `testbench`: source templates, test harness generation and
  running tests against machine code.
- `text`, `pattern`, `types`, `util`: text handling, regular expressions
  (through `regex`), the shared vocabulary and command-input parsing.
- `mcp`: what the MCP server answers each request with, the tools it offers,
  their default arguments, and the audit that gates tracing.

`app/` is the command-line tool and the MCP server loop around the library:
argument handling, files, the NASM process, the network, and JSON.
