# trance

A local screensaver host and picker: a terminal UI that lists the installed
`.scr` screensavers and the curated registry, lets the user choose one or
several (the random cycle), applies the choice as the system screensaver, and
downloads missing scenes.

The crate has two parts.

- `src/` is the library, verified with Verus. It holds the picker's state
  machine and everything it decides: key handling, the preference fields, the
  selection and how it is applied, the shown list and its scrolling, merging
  the registry, choosing a download URL for the platform, the random cycle,
  theme detection from system metrics, Markdown rendering and text layout.
  Work that touches the outside world is not done there: the state records a
  `Request` (save the settings, launch a screensaver, delete a file,
  rediscover, download, load a document) and the front end answers it with a
  `Reply`, which `App::resume` folds back into the state.
- `app/` is the front end: terminal set-up and drawing with ratatui and
  crossterm, files and processes, downloads with ureq, and the Windows calls.

Modules of the library:

| module | contents |
|---|---|
| `text` | character-level string operations with their specifications |
| `theme` | colours, system metrics, theme detection, minimum terminal size |
| `styled` | styled lines of text, independent of the terminal crate |
| `markdown` | the document viewer's Markdown rendering |
| `layout` | truncation, word wrapping, help rows, list scrolling |
| `registry` | registry entries, download URL choice, install hints |
| `model` | screensavers, configuration, path facts, list rows |
| `app` | the picker's state, requests and navigation |
| `actions` | the commands on the state |
| `catalog` | sorting and merging the registry into the list |
| `flow` | answering requests |
| `keys` | keyboard handling |
| `events` | construction, outside events, event-loop clocks |
| `cycle` | the random cycle's candidates, seed and decisions |
| `view` | the preference pane and the list rows |
| `laws` | properties of the commands taken together |
