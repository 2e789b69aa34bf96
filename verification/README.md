# hern_core

The type checker of a small functional language: Hindley-Milner types with levels, row
types for records, traits with functional dependencies and dictionary passing, methods of
types, recursive groups of functions and macros.

- `src/ty.rs`, `rows.rs`, `vars.rs`, `subst.rs`, `apply.rs`, `unify.rs`: types,
  substitutions and unification. Its laws: it makes types equal (`unify_laws.rs`), whenever
  that can be done, and solves no more than it must (`unify_complete.rs`); the counter of
  variables only grows (`counter_laws.rs`); the order in which variables are shown
  (`var_laws.rs`)
- `src/ast*.rs`, `type_syntax.rs`: the syntax tree and its mathematical view
- `src/error.rs`, `messages.rs`, `display.rs`: errors and how types are shown
- `src/env.rs`, `state.rs`, `tables.rs`: what is known while a program is checked
- `src/dicts.rs`, `dict_uses.rs`, `dispatch.rs`: which dictionary a use of a trait gets;
  that none is left open (`settle_laws.rs`)
- `src/exhaust.rs`, `patterns.rs`, `pattern_infer.rs`: patterns and exhaustive matches; that
  an accepted match covers every value (`exhaust_laws.rs`)
- `src/checker.rs`: the rules for expressions and statements as spec functions; the
  modules `exprs`, `operators`, `aggregates`, `flow`, `bodies`, `arguments`, `calls`,
  `receiver_calls`, `impls`, `groups` and `statements` are the code that follows them.
  `typing.rs` says when an expression of the simplest forms has a type, and that the rules
  give one
- `src/macro_phase.rs`, `macro_defs.rs`: what the body of a macro can see, and macros
- `src/decls.rs`, `programs.rs`, `collecting.rs`: declarations, whole programs up to the
  first error, and whole programs with all their errors (`collecting_laws.rs`)
- `src/snippets.rs`: ranges in a source that is made of snippets

`app/` gives the errors the traits that callers of `std` expect.
