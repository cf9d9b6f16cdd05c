# command_hills

Declarative command lines: an arguments structure read by clap is *filled*
into the value the program works with, each field taken as given, asked for
when it is missing, resolved by a function, or resolved with a context.

The library (`src/`) holds the logic of the attribute macros and of their run
time, each function with a contract that Verus proves:

- `parser`, `generate`: `#[fill(target = ..., context = ...)]` — reading a
  declaration and writing its clap parser and `resolve` method;
- `commands`: `#[commands(context = ...)]` — an enum of actions, one arguments
  structure and one subcommand per variant, and `fill`;
- `root`: `#[root(action = ..., ask = "...")]` — the command structure, its
  parser `Cli` and `parse`;
- `group`: `#[group(fallback = ...)]` — a variant per mutually exclusive flag
  or option;
- `clean`: the item given back without the macros' attributes when expanding
  fails;
- `syntax`, `item`, `text`: the Rust syntax the macros read, held as plain
  values, and the printed form of tokens;
- `runtime`, `question`: resolving fields and the choices offered when a value
  is asked for;
- `paths`, `completion`: which paths a file prompt offers and how a typed path
  is completed;
- `spikes`: the small command lines the design was tried on.

`app/` reads tokens with `syn` into the library's models, turns the written
code back into tokens, asks questions with `inquire`, and holds the clap
parsers of the experiments.
