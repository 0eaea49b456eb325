# Argus

A file search tool: text and regular expressions across text, code and images,
with an index of extracted text, a command line and a full-screen interface.

The library in `src/` holds what the tool decides and computes, with contracts that
Verus proves. The contracts of the few wrappers around other crates and the standard
library are taken on trust.

| Module | What it holds |
|---|---|
| `text`, `paths`, `places` | characters and lines, paths by their components, places by count |
| `types` | file types, matches, results and their order, configurations, statistics |
| `extensions` | which file type an extension stands for |
| `folding` | where a pattern stands in a text, with or without regard to case |
| `matching` | literal search with overlapping matches, and regular expressions |
| `ranking` | the stable order of results |
| `index` | the entries of the index, when they are stale, and how it is rebuilt |
| `search` | which files are searched, what becomes of each, and what is shown |
| `doubles` | the numbers that are shown, as double arithmetic rounds them |
| `ui` | the lines of the plain terminal output |
| `tui` | the form, the key handling, the screen areas and the painted lines |
| `vision_llm`, `ocr_models` | requests and replies of a vision model, files of the OCR models |

The wrapped crates are `regex`, `base64`, `image` and, for its layout, `ratatui`.

The program in `app/` does the rest: the command line, reading and writing files,
HTTP, threads, the terminal, and the confidence score, which is a floating-point
number and reaches the library as its bit pattern.
