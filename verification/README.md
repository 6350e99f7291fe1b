# dfu

The rules of a tool that keeps the image tags of dockerfiles up to date, written in Rust and
proved with Verus.

- `src/` is the library. Work that needs files, the network or the clock is cut into steps:
  a function takes what has just happened and returns what is to be done next and what is
  said, and its contract says exactly which.
  - `strategy`: how far an update may go, and the names of the strategies.
  - `image`, `tags`: dockerfiles, their base images, updates of their tags, the order of tags.
  - `look_up`: the new tag of one image, under one strategy or under all.
  - `files`: one dockerfile, or all dockerfiles below a folder.
  - `cache`: tags that were fetched before.
  - `release`: newer releases of the program.
  - `cli`: the arguments of a run and the order of its steps.
  - `line`, `text`: what is said, and operations on text.
- `app/` performs the steps: it parses the command line, reads and writes files, talks to the
  network and writes the log. What is known of registries, of the order of tags and of the
  text of dockerfiles comes in through the trait `Images`.
- `tests/` runs the library on concrete values.

The library trusts `PossibleValue::matches` and `OsStr` of clap, and `str::to_ascii_lowercase`
and the `Debug` of a list of strings of the standard library, to do what their contracts in
`strategy` and `text` say.
