# codex_skin

The rules of a theme store for the Codex desktop program, written and proved in
[Verus](https://github.com/verus-lang/verus).

- `src/` is the library. It decides which catalogs, repositories and themes are
  sound, where files are fetched from and when they are taken, what the user
  has, and how a theme gets into the running program and out again. It does no
  I/O: it is handed what was found, and hands back what is to be done. Each
  function states in `ensures` what it returns; what holds across functions is
  proved in the modules whose names end in `_laws` and at the end of the others.
- `src/outside.rs` and `src/json.rs` hold the calls into outside crates, and
  `src/outside.rs` and `src/text.rs` four into the standard library, each with
  the contract that the proofs rest on.
- `app/` is the program around the library: files, servers, processes, pages
  and the window. The window needs Tauri and is compiled into desktop builds
  only.
- `tests/` runs the library with the outside crates linked.
