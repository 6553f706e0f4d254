# a2native

A native form window for AI agents: an agent sends a JSON form spec (in the
a2native format, as Google A2UI JSONL, or inside an AG-UI tool call), the user
fills the form in, and the answers go back as JSON.

## Layout

- `src/` is the library, verified with Verus: the form protocol and its JSON
  model (`protocol`, `json`, `strmap`), the form's values and what a form
  reports (`form`, `defaults`), telling the input formats apart (`format`),
  reading A2UI and AG-UI input (`a2ui`, `agui`), dates for timestamps (`date`), the security banner (`banner`), colours
  (`color`), the Markdown dialect (`markdown`), what widgets decide (`widgets`),
  the life of a window (`window`), session files (`session`) and the HTTP and
  WebSocket endpoints' decisions (`server`). Text helpers live in `text`.
- `app/` is the program around it: the command line, reading and writing JSON
  text with serde, drawing with egui, sockets, files and threads.
- `tests/` exercises the library.
