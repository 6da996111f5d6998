# portfolio

The content and presentation logic of a personal portfolio site, written in
Verus and verified: page stylesheets, markdown rendering with highlighted
code blocks (pulldown-cmark and syntect), reading times and excerpts, the
contact form's spam screening, validation and replies, the request log, the
assembly of each page's data, and the decisions of the browser scripts.

- `src/` — the verified library (`css`, `markdown`, `highlight`, `models`,
  `contact`, `config`, `pages`, `templates`, `request_log`, `theme`, `text`).
- `tests/` — tests of the library on concrete values.
- `app/` — the web server around it (axum, SurrealDB, askama templates, the
  Discord webhook) and the browser scripts (wasm-bindgen).

What is proved of markdown rendering is the highlighting pass itself: which
code is highlighted, in which language, and where the result goes. The
events that pulldown-cmark's parser yields, the HTML its `push_html` writes
and the HTML syntect writes for a block are named results of those crates,
trusted rather than proved.

The stylesheets in `src/css.rs` are minimal stand-ins for the site's css
files, which are not part of this repository.
