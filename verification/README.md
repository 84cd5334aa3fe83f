# gemini_draw

Gemini Draw is a desktop app (Tauri) that draws images with Gemini through the
`gemini-web-cli` engine: each task holds reference images and a prompt, the
engine makes the image, and the results are downloaded into an output folder.

This crate is the app's logic, written in Verus and proved against its
contracts:

- `src/text.rs`: `trim`, `lines`, `starts_with`, `find`, `contains`, `replace`,
  `split_whitespace` and number formatting, stated over `Seq<char>`.
- `src/engine.rs`: the arguments each engine command is run with, what its
  output means (`parse_ask_output`, `parse_status_output`, `--version`), where
  the engine is looked for, and which release package fits a platform.
- `src/archive.rs`: taking the executable out of a zip or `.tar.gz` package.
- `src/commands.rs`: cookie checks, ids, file names, progress messages and the
  plan of a generation.
- `src/generation.rs`: the decisions of a generation as a step from phase and
  event to the next phase and action.
- `src/paths.rs`: the data directory's layout.
- `src/picture.rs`: previews of local images.
- `src/json.rs`: JSON documents as plain values, read with `serde_json`.
- `src/laws.rs`: properties proved for every input.

`app/` is the program around it: the Tauri commands, running processes, the
file system and the network. `tests/` runs the library on concrete inputs.
