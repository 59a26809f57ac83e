# hpc

A job coordination hub whose state converges by lattice joins, with its
core verified by Verus.

- `src/` is the verified library:
  - `lattice.rs`: the `Lattice` and `OrderBot` traits, their laws, and the
    instances for `u64` and `bool`;
  - `write_once.rs`: `WriteOnce`, the set lattice;
  - `str_map.rs`: `StrMap`, the string-keyed map the state is kept in;
  - `map_lattice.rs`: maps of lattice values, ordered pointwise;
  - `facts.rs`: `JobInfo`, `NodeInfo` and `Facts`, the system's state;
  - `decimal.rs`: reading and writing unsigned decimal numbers;
  - `domain.rs`: events, namespace and generator specifications, control
    requests;
  - `batch.rs`, `simulation.rs`, `monitor.rs`: the namespaces and their
    delta functions;
  - `domain.rs`'s `DeltaFn` names the delta functions the library has
    (batch, simulation, monitor, and one that learns nothing); Verus has no
    function pointers, so a new namespace's delta function is added as a
    new variant of it, with its verified function beside the others, and
    `hub::known_delta_fns` maps generator kinds to them for a hub whose
    generators register over the wire;
  - `hub.rs`: the hub's decisions (registration, well-formedness, deltas,
    pokes, pulls) and the laws of pulling;
  - `relay.rs`: which pulled jobs a relay runs, and which jobs to relay.
- `app/` is the node program around it: the command line, the HTTP server
  and client, SQLite storage, the hardware monitor, and serializable copies
  of the library's types.
- `tests/` exercises the library on concrete values.
