# nix-init

Generate Nix packages from URLs.

`src/` is the library: what a session asks and decides, the commands it runs, and the text of the
package, verified with Verus. `session` holds the course of a session, a type for each point of it;
the other modules hold what it decides by. `app/` is the program around it: arguments, prompts,
processes, files and the network. It reads the licenses it knows from `cache/askalono-cache.zstd`
beside the program.

The library calls four other crates, each behind a few functions whose contracts are taken as given:
`url` for the path of a URL (`src/pname.rs`), and `askalono`, `serde_json` and `rustc_hash` for
licenses (`src/license.rs`). The rest of what is taken as given is of the standard library, in
`src/text.rs`, `src/revision.rs` and `src/pname.rs`.
