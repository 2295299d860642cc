# haiti-lite-rust

Identifies the type of a hash from rule data
(`prototypes.json` and `commons.json`): every prototype regex that matches the
hash, compiled case-insensitively, contributes its modes; common modes come
first; the modes are reported as hashcat numbers (`hc`) or John the Ripper
format names (`jtr`), extended modes only with `--extended`.

- `src/` is the library, verified with Verus: `cli` (what the command line asks
  for), `data` (the rule data and its checks), `matcher` (compiling, matching,
  rendering), `laws` (properties proved over all inputs), `text` (white space
  and decimal notation), `outside` (the calls into serde_json and
  fancy_regex whose contracts are trusted).
- `app/` is the program: argument parsing with clap, reading the rule files
  and standard input, decoding JSON with serde, printing the JSON response.
- `tests/` runs the library with the real outside crates.
