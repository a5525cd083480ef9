# seddish

A small `sed`-like stream editor whose library is verified with Verus.

- `src/parser/` turns a script into a `SedProgram`: addresses, ranges,
  blocks, labels and the command table. `Parser::parse` is specified
  against `parse_script_spec`, and every parsed program is proved to have
  unique labels and in-range branch targets.
- `src/commands/` holds one module per command (`s`, `y`, `a`, `i`, `c`,
  `d`, `D`, `p`, `P`, `=`, `q`, `Q`, `h`, `H`, `g`, `G`, `x`, `n`, `N`,
  `b`, `t`, `T`, `:`, `r`, `w`, `W`), each with the effect it has on a line
  stated as a contract.
- `src/program/` runs a program over a document, one line and one effect
  at a time; `run_spec` is the interpreter that the engine is proved
  against.
- `src/compiled_regex.rs` is the only place that calls the `regex` crate;
  what it relies on from that crate is written next to each call.
- `app/main.rs` is the command-line front end: it reads standard input and
  prints what the engine produces.
