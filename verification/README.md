# sim_core

A bottom-up economic simulation: pops consume, work and trade at their home
settlement; merchants own facilities and trade across settlements; markets
clear by call auction; labor markets match pops to facilities; pops die or
grow with their food satisfaction.

## Layout

- `src/` is the verified library. It holds the parts of the model that are
  exact: identifiers and their slot-map encodings, the goods catalogue,
  canonical orderings that make every tick deterministic, resource slots and
  their claims, the route network, skill hierarchies, recipe allocations, the
  subsistence queue, and the run labels of the instrumentation. Each public
  function states its result in its contract, and the laws that tie the
  functions together (canonical order does not depend on input order, a slot
  is held by at most one facility, routes are undirected, the subsistence
  queue holds exactly the unemployed in arrival order, keys survive their
  FFI round trip, ...) are proof functions beside them.
- `app/` is the simulation proper: consumption, auctions, wages, production,
  mortality and the world tick. It computes on floating-point prices and
  quantities, draws random numbers, records traces with `tracing` and writes
  them with `polars`, and calls the library for everything listed above.
- `tests/` exercises the library on concrete values.
