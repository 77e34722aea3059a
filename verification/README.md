# qsc_partial_eval

Partial evaluation of quantum programs: the entry expression of a package is evaluated, and what
cannot be computed before the program runs becomes a straight-line sequence of instructions.

## The classical evaluator

Expressions and statements that are classical are run by an evaluator of execution graphs that is
not part of this library. `partially_evaluate` takes the replies of that evaluator so far. When
they run out, the outcome is the next request (`Stop::Pending`); the caller has it answered, adds
the reply and repeats the evaluation. The proofs in `replay.rs` say why this is sound: a decided
outcome never changes, and requests come one at a time in a fixed order.

When a part of the program fails, so does what it is a part of. The outcome is the first error,
which is the cause of the others.

Conditions that no well-formed program brings about are outcomes too (`Stop::Fault`), and so is
nesting beyond the given limit (`Stop::DepthLimit`). The evaluator itself never panics.

## Layout

- `src/fir.rs`, `src/rca.rs`: the program that is evaluated, and what the analysis says of it
- `src/rir.rs`: the program that is generated
- `src/value.rs`, `src/lowering.rs`: values, types and callables, and how they are lowered
- `src/management.rs`, `src/evaluation_context.rs`, `src/index_map.rs`, `src/callable_ids.rs`: the
  state of an evaluation
- `src/semantics.rs`: what evaluation does, as functions on states
- `src/evaluator.rs`: the evaluator, proved to do exactly that
- `src/validity.rs`: the invariant of evaluation states
- `src/laws.rs`, `src/replay.rs`, `src/causes.rs`: what holds of every evaluation
- `src/protocol.rs`: the plain types of the language service
- `app/`: the loop that answers requests, and errors as diagnostics
