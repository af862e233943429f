# juicyj

The semantic analysis of a compiler for Joos (a subset of Java), verified
with Verus.

- `src/parse.rs` builds the abstract syntax tree of a compilation unit from
  its parse tree.
- `src/analysis/environment` builds the environment of a program: its
  classes and interfaces, with their fields, constructors and methods, and
  each type built from its supertypes.
- `src/analysis/types` type checks the program: type lookup, the rules for
  each kind of expression, statements and declarations, and the checks on
  the hierarchy and on package prefixes.
- `src/error` holds the error messages of every stage.

Each public function's contract states its result through a mathematical
model of what it computes; the laws of the library (type equality,
comparison and casts, the hierarchy check, what building and applying a
type keeps) are proof functions beside the code they are about.

`app/` runs the analysis on a program and prints its result; `tests/` runs
the library on concrete programs.
