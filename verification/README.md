# ax_lang

A small bytecode language (source files end in `.ax`). Its library is checked
by Verus: every function is proved free of panics and overflow against its
contract. The scanner, the virtual machine's step, the signature pre-pass and
the emission helpers have contracts that fix their results; the statement and
expression compiler's contracts state what each part emits and reports in the
cases they name, and otherwise that it keeps the parser well formed and moves
forward.

- `scanner` — turns source text into tokens; `spec_scan` says what one call reads.
- `compiler` — the parser state and its token reading with error recovery
  (`parser`), bytecode emission (`emit`), scopes and locals (`locals`),
  declarations (`decl`, `declarations`), the type rules of built-in methods
  (`methode`), type annotations (`type_safety`), the pass that reads function
  signatures (`prepass`), the Pratt parser for expressions and its type rules
  (`expr`), calls and method calls (`call`), `or`, `and` and indexing
  (`logic`), and statements, functions and whole programs (`stmt`, `jumping`).
- `sdl` — built-in functions: the string ones, and reading a typed value from
  a line of input (`io`).
- `chunk` — bytecode and constants; `debug` — the disassembler.
- `value` — runtime values (a float is held as its bits); `table` — named values.
- `vm` — the virtual machine, one instruction per `Vm::step`; a step that needs
  printing or float arithmetic hands it to the caller.
- `text` — string helpers and the trusted character classes of `char`.

`app/` is the command-line program: it reads a file, reads the bits of its float
literals, compiles it with the library's compiler, and drives the machine, doing
the printing, the reading of input and the float arithmetic.
