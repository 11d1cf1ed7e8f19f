# generator_light

Resumable generators and combinators over them, verified with Verus.

A generator is resumed with a value and gives back either an item it
yields or, once finished, its result (`GeneratorState`). The `Generator`
trait carries its contract as two relations every implementation defines:
`resume_requires` (when a resume may be made) and `resume_ensures` (how the
state before, the value handed in, the state after and the outcome relate).

- `src/lib.rs` — the `Generator` trait, and its impl for `Box`.
- `src/generator_state.rs` — `GeneratorState` with `map_yield` / `map_complete`.
- `src/ext.rs` — the combinators (`once`, `once_with`, `from_iter`, `from_fn`,
  `Compose`, `MapYield`, `MapComplete`, `Receiving`, `AndThen`, `Flatten`),
  `GeneratorExt`, and iteration over a generator (`Iter`, `GeneratorIterator`).
- `src/gen_context.rs`, `src/fut_generator.rs` — the protocol between a
  generator and an async body: the shared slot, what a suspension point does
  when polled, and what a resume gives back after polling the body.
- `src/fn_trait.rs` — `FnOnceOutput`, a one-shot call whose output can be
  named in bounds.
- `src/laws.rs` — properties that span several resumes.
- `app/lib.rs` — the async front end (`generator`, `Yielder`, `yield_!`),
  which polls futures; the slot, the suspension points, starting the body
  and the resume's result are decided by the library. It panics where a
  body suspends without handing out an item (there is no state for a resume
  that gives back nothing). It also holds conversions to the `either`
  crate's `Either` and a standard `Iterator`.

Whole runs are stated with `generator_runs` (what resuming a generator with
a sequence of values can give back); `laws.rs` and `ext.rs` prove what a
chain (`and_then_run`, `and_then_run_shape`) and a flattened generator
(`flatten_run`) do over a whole run.

A limitation of Verus to keep in mind: where a closure or a named function
is the concrete type argument of `FromFn`, `OnceWith`, `MapComplete`,
`Receiving` or `AndThen` (or of the continuations of `Flatten`), Verus does
not resolve the closure's output type, and cannot unfold those generators'
relations at that type. Verified callers with concrete closures go through
generic code, where everything stated here applies.
