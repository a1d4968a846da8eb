# Autarky

Autarky is a small, linearly typed functional language: integers, pairs,
tagged sums, arrays, lambdas, recursive bindings, and full (`Lin T`) and
half permissions that `split` and `merge` take apart and put back together. This crate holds its compiler front end and
runtime, verified with Verus, and a command-line driver.

## Layout

- `src/ast.rs`: types and expressions, and their mathematical models.
- `src/parser.rs`: the lexer and the recursive-descent parser, each specified
  by a spec function on character and token sequences.
- `src/typecheck.rs`: the linear type checker, specified by `check_spec`:
  every bound name is consumed exactly once, the branches of a match
  consume the same names, and a name bound in a scope hides an outer binding
  of that name only inside the scope.
- `src/ir.rs`: the untyped IR and the erasure of type annotations.
- `src/vm.rs`: the evaluator of the IR, specified by `eval` with a bound on the
  nesting depth. Sums are tagged values.
- `src/driver.rs`: the pipeline from source text to a result, with the two
  external resources `SYS_COMPUTE` and `SYS_CREDITS` bound around the program.
- `src/soundness.rs`: well-typed programs do not go wrong, on the programs
  whose directly applied lambdas do not see their parameter in a non-lambda
  argument and whose recursive functions have the type that the checker
  assumes for them.
- `src/bindings.rs`: lists of name bindings and the maps they stand for.
- `src/llvm.rs`, `src/codegen.rs`: generation of LLVM IR through `inkwell`.
  What is modelled of LLVM's state: the instructions a builder inserts and
  the block it is in, a module's name and globals, function names, block
  parents and integer constants; arithmetic nodes are specified down to the
  instructions that compute them.
- `app/main.rs`: the `atk` command (file input, JSON or text output).
- `tests/`: the tests of the library.
