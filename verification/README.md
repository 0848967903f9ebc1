# oximo (verified core)

The data-handling core of the oximo algebraic modelling library, written in
Verus:

- `src/number.rs`: real numbers as the decimal text that `f64`'s `Display`
  gives, with zero, infinity and negation tests.
- `src/expr.rs`: the append-only expression arena, its arithmetic and `sum`.
- `src/model.rs`, `src/ids.rs`: domains, senses, objectives, parameters, ids.
- `src/linear.rs`, `src/mps.rs`: the linear view of a model and the
  fixed-format MPS writer, specified line by line, with its laws (integer
  markers, maximization as negated minimization, default bounds).
- `src/options.rs`: universal solver options and their builder setters.
- `src/set.rs`, `src/indexed.rs`: index sets, keys and indexed variables.
- `src/result.rs`, `src/solver.rs`: solver results, statuses, backends' names
  and supported model kinds, and the mapping of Gurobi's status codes.

`app/` holds what stays outside the proofs: writing to any `std::io::Write`,
float conversions, rayon's parallel iteration, the `Display` error type, and
the calls into Gurobi.
