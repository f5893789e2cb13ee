# chibi-tui

A terminal client for the Chibi assistant. The client starts the `chibi` program
and talks to it in lines of JSON; it shows chats with markdown answers, and
stores them on disk.

* `src/` is the library: everything that is computed. It is written in Verus,
  and every contract in it is proved, but for those of the wrappers below.
  * text and screens: `text`, `width`, `style`, `theme`, `wrap`, `transcript`,
    `markdown`, `ui`, `splash`, `setup_screen`
  * input: `keys`, `keymap`, `editor`, `log_keys`, `modal_keys`, `mouse`,
    `selection`, `find`, `event_loop`, `prompts`
  * the backend: `protocol`, `frame_text`, `request_pipeline`, `live`, `terminal`
  * data: `app`, `model`, `model_picker`, `popup`, `mock`
* `tests/` runs the library.
* `app/` is the program around it: the terminal, the backend process, the files
  and the JSON form of the messages.

What other crates compute, the library calls behind a few wrappers whose
contracts are not proved: display widths (`unicode-width`), the events of a
markdown text (`pulldown-cmark`), syntax highlighting (`syntect`), the split of
an area and the inside of a bordered block (`ratatui`), a string member of a JSON
object (`serde_json`). So it is with a few functions of the standard library:
`char::is_whitespace`, `char::to_ascii_lowercase`, `String::push`, the hash of a
text into the default hasher, the `Debug` text of a string, and the separator of
paths. Each of them is marked `external_body` or `assume_specification` and says
what it relies on.
