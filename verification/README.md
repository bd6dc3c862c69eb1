# saycmd

`saycmd` turns a tagged natural-language request typed in Zsh into a command
or multi-line script that the user reviews before running it.

The crate is a Verus library (`src/`) with a thin command-line program around
it (`app/`).

- `src/` holds the verified logic: checking a request, reading the model's
  JSON reply (code fences, the command object, limits, explanation cleaning),
  the configuration rules (file, environment, defaults), the Zsh integration
  script with its safely quoted prefix, the API endpoints and reply handling,
  and the steps of a translation.
- `app/` performs the outside work that the library's steps ask for: reading
  the configuration file and environment, running Git and Zsh, and talking to
  the chat-completions API over HTTP.
- `tests/` exercises the library on concrete values.
