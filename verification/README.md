# petitc

The front end of a compiler for petit C, a small subset of C: type checking of
parsed programs and the reports of their errors, verified with Verus.

- `src/ast.rs`: parsed programs, their well-formedness and its check.
- `src/typing.rs`: types, their names and compatibility.
- `src/environment.rs`: scoped environments.
- `src/typechecker.rs`: the checker; `typecheck` gives the checked program, or
  every error found, in order, each as the specification functions say.
- `src/typed.rs`: checked programs and their conversion once all types are known.
- `src/full_types.rs`: a check that reports no error builds an expression whose
  parts are all there, with every type known.
- `src/span.rs`, `src/text.rs`: places in the source, styled text.
- `src/error.rs`, `src/error/display.rs`, `src/error/render.rs`: errors and their
  reports, each span shown on the lines of its own file.
- `app/main.rs`: the command line program (reading files, colours, exit codes).
