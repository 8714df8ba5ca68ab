# mdnt_extractor

Extraction of Midnight circuits into the Picus constraint language, with its decision
logic verified by Verus.

- `src/` is the verified library:
  - `lookups/`: the lookup handlers (plain/spread tables, tag ranges, automata, the
    multiplexer) that turn a circuit's lookups into IR statements;
  - `decompose.rs`: the rewrite of the decomposition gates into row equations;
  - `field.rs`, `spread.rs`, `expr.rs`, `ir.rs`: the expression and IR model, field
    folding of constant expressions and the spread encoding's bounds;
  - `layout.rs`: region placement, absolute rows, constants and table lengths of the
    layouter;
  - `query.rs`, `chips.rs`: harness names and the queries that select harnesses;
  - `cli.rs`, `config.rs`, `extraction.rs`, `picus.rs`: the command line's settings, the
    run's bookkeeping and error messages, and the Picus header;
  - `harness_macro.rs`, `harness_parse.rs`: the signature check and settings of the
    harness attributes;
  - `cells.rs`: sizes and acceptance rules of the values loaded from cells.
- `tests/` runs the library on concrete values.
- `app/` is the command-line program: argument parsing, logging, the harness registry,
  file output, and the token-level expansion of the harness attributes.
