# az-tui

A terminal browser for AKS namespaces, Azure Key Vault secrets and Container
Registry images, and the same reads as subcommands for a shell.

The logic is a Verus library; the program around it is ordinary Rust.

- `src/` is the library. Every function states what it returns or changes, and
  Verus proves it.
  - `azure/`: the client (tokens, throttles, refusals, the registry exchange),
    Resource Graph, Key Vault and Container Registry.
  - `app/`: the screens, the keys, the pointer, the clock and what the workers
    answer, as one state machine, and the words a frame is painted with.
    `app/promises.rs` states what holds of it whatever is pressed,
    `app/histories.rs`, `app/turns.rs` and `app/reached.rs` what holds over a
    whole run.
  - `commands/`: the subcommands, from a query to what is printed.
  - `store.rs`, `cache.rs`, `snapshot.rs`, `session.rs`: what has been read,
    what the next start paints, and the layout it opens with.
  - `columns.rs`, `filter.rs`, `order.rs`, `input.rs`, `text.rs`,
    `timestamp.rs`, `clipboard.rs`, `cli.rs`, `config.rs`, `kube.rs`,
    `worker.rs`: what the rest is made of.
- `tests/` runs the library on concrete values.
- `app/` is the program: arguments, the Azure CLI, the network, the disk, the
  clipboard and the screen. It reads vaults and registries; it reads no
  configuration file and drives no cluster, so the library's cluster tabs are
  opened by the tests alone.

Laws of the library, such as that a value never stands next to another name or
that a cluster changes only on a yes, are public proof functions whose names
start with `law_`.

A few things are believed rather than proved: what `time` reads and writes of
dates, what `serde_json` reads and writes of a document, how `str` prints in quotes, and
`String::push` and `String::push_str`. Each stands in the module that uses it,
with a comment that says what is claimed.

A secret's value is never written to the cache, the session or a listing. It is
shown for sixty seconds, next to its own name, and `az-tui secret get` is the
one command that prints one.
