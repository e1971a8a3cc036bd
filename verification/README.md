# oj_tools

A helper for competitive-programming practice: it pulls the sample tests of a
Luogu problem, generates code files from a template, compiles and runs code,
and judges a solution against the samples.

- `src/` is the library, verified with Verus: the configuration types, the
  sample extraction from a problem page, template filling, file naming, the
  command planner, compile commands and the judge.
- `app/main.rs` is the command-line program around it: argument parsing,
  configuration files, the network, processes, the clipboard and the
  terminal.
- `tests/` runs the library on concrete values.
