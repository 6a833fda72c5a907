# sps2_builder

The package builder of sps2, written in Verus: the logic that turns a
recipe's build steps into commands, environments and reports, with each
function's behaviour stated as a `requires`/`ensures` contract and proved.

## Layout

- `src/` is the verified library.
  - `build_systems/`: argument, environment and test-output rules of the
    Autotools, CMake, Cargo, Go, Node.js and Python build systems, the
    detection of which one a source tree uses, and the lock-file steps.
  - `artifact_qa/`: the quality checks run over a staging directory. It holds
    the scanners (build paths in files, archives and Mach-O load commands),
    the patchers (binary strings, RPATHs and install names, `pkg-config`
    files, permissions, Python leftovers, code signing), their reports, and
    the pipeline that decides which check runs next and whether the build
    passes.
  - `dependencies.rs`: dependency contexts and the dependency graph, with
    topological sorting, cycle detection and path search. The law that a
    graph has a topological order exactly when it has no cycle is proved
    there.
  - `environment/`, `cross.rs`, `cache.rs`, `config.rs`, `api.rs` and the
    rest: build environments and sandboxes, cross-compilation files, caches,
    configuration and the builder's API results.
  - `text.rs`, `paths.rs`, `string_map.rs`: the character, path and map
    models that the contracts are written in.
- `tests/` runs the library on concrete values.
- `app/` is the unverified layer around the library: it walks directories,
  reads and writes files, runs tools, and feeds what it finds to the
  library's decision functions.

Calls into outside crates (`object`, `bstr`, `md-5`, `sha2`, `serde_json`, `which`,
`num_cpus`) go through a few trusted wrappers in `src/`, each documented
with what its contract claims of the outside function.
