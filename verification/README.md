# crateplace

Places the crates of an embedded Rust project, and chosen symbols, into sections
of flash memory. The sections, the crates assigned to them and symbol patterns are
configured in `Memory.toml`; crateplace assigns every crate of the dependency tree
a section (dependencies follow the crate they belong to, and of two sections the
one with the lower priority number wins), writes the `memory.x` linker script that
gathers each crate's symbols in its section, shows the tree with its sections, and
checks a built binary against the assignment.

The library under `src/` is verified with Verus:

- `config`: byte units, the configuration and its validation;
- `deps`: the dependency tree, built from `cargo metadata` records, and its
  rendering;
- `assignment`: assigning sections to crates;
- `generation`: the linker script;
- `mangling`: mangling schemes and their detection from LLVM IR;
- `validation`: reading a binary's symbol table and debug information, classifying
  its symbols and checking their placement;
- `init`: the steps of setting a project up, from what exists to what is written;
- `file_error`, `text`, `foreign`: file errors, character helpers, and the other crates' types that values carry;
- the crate root: the `CratePlacer` that ties them together.

`app/` is the command-line program around it: argument parsing, reading files,
running `cargo` and `rustc`, the file work of setting a project up, and
printing.
