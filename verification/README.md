# shlang

A small statically typed scripting language: a lexer, a compiler to bytecode and a
stack machine with a reference-counted heap. The library is written in Verus, and
its functions carry contracts that Verus proves.

## Layout

- `src/` — the library, all of it verified.
  - `tokens`, `text`, `lexer`: tokens, character helpers, the scanner.
  - `compiler`: the symbol table, the expression and statement compilers, and the
    compilation of a whole program; `expr_compiler` is the smaller arithmetic
    compiler.
  - `bytecode`, `value`, `objects`, `rc`, `lists`, `strings`: instructions, values,
    functions and structs, the reference-counted heap, and the built-in `List` and
    `String` types.
  - `natives`, `pattern`: the built-in functions and the pattern checks they use
    (through the `regex` crate).
  - `vm`: the machine. Work that cannot be done in the library (printing, reading
    input, floating point) is handed out as an outcome, and its result comes back
    through `resume` or `finish_call`.
  - `debug`, `errors`: listings of compiled code and error kinds.
- `app/` — the command-line program: reads a source file, runs the library, and
  does the input, output and float work the machine hands out.
- `tests/` — tests of the library, from single steps of the machine to whole
  programs.
