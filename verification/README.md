# testito

A small log for manual testing, written by AI agents and read by humans:
agents report runs, tests, steps and notes from the command line, and a
local dashboard shows them live.

This crate is verified with Verus.

- `src/` is the library. Its functions are proved against their contracts,
  except a few small functions marked `#[verifier::external_body]` that
  call outside crates (hashing, hex, URL encoding, markdown, time parsing,
  the clock, `String::push`); their contracts are trusted. The library covers
  the records and their text forms (`models`), relative times (`time`),
  markdown rendering with raw HTML dropped (`md`), screenshot names and
  hashing (`storage`), the run page and its PR summary and markdown export
  (`runpage`, `dashboard`), run and step comparison (`compare`), the text of
  `show` and `list` (`show`), the command line's messages (`cli`),
  metadata detection (`auto`), the decisions of the SQLite store (`store`)
  and of the dashboard's handlers (`web`). Properties that span several
  functions are public proof functions named `lemma_*`.
- `app/` is the program around it: argument parsing, the SQLite file, the
  HTTP server, git and the file system.
- `tests/` runs the library on concrete values.
