# chariot

Chariot builds packages from recipes. A recipe names its sources, the tools and packages it needs
and the scripts to run; it is built in an environment that holds just these, and what comes out is
kept in a store under a hash of everything that went into it. Building the same recipe again finds
the result in the store.

This crate is the verified core of the tool, written in [Verus](https://github.com/verus-lang/verus),
with the rest of the tool around it.

## Layout

- `src/` is the library. Every function in it has a contract that Verus proves.
  - `config/`: recipes, and the hashes that identify them
  - `hashes.rs`, `util/hash.rs`, `depshash.rs`: hashes of configurations, of directories and of
    environments
  - `store.rs`, `ledger.rs`, `workdir.rs`, `buildcache.rs`, `cache.rs`, `lock.rs`: where things are
    kept, and when they may be taken away
  - `source/`, `package.rs`, `environment.rs`, `execenv.rs`, `execenv_create.rs`,
    `dependencies.rs`, `install.rs`, `xbps.rs`: how sources are fetched, environments are made, and
    packages are built and installed
  - `runtime.rs`: how a program is run in a root file system of its own
  - `cli/`: the course of a run, what a prune keeps, profiles, options and tables
  - `util/`: paths, names, texts, byte forms and sorting
- `tests/` runs the library on concrete values.
- `app/` reads and writes files, runs processes, asks the database and talks to the terminal.

## How the library and the tool work together

The library does no input or output. Where a course of action needs some, the library has a function
from what has come back so far to what to do next: run this program, make a directory, look in the
store, put a directory into the store, stop with this error. The tool does it, adds the outcome to
what has come back, and asks again. The contract of such a function says exactly which step follows,
and the laws beside it say what holds of every course whatever comes back, for example that a result
is recorded only after it has been stored, stored only after every program has succeeded, and that
a prune leaves just what the live recipes stand for.

The hash function is that of the crate `xxhash-rust`. What is proved about hashes is which bytes are
fed to it, and that two recipes which differ in what they state themselves, or in the hashes of what
they depend on, feed it different bytes.
