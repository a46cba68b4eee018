# imagesync

Imports photos and videos from a camera or memory card into a date-based library, without
ever overwriting a file.

The library under `src/` holds everything that decides: configuration and catalogues, path
templates, camera profiles, the plan of an import, duplicate detection, the course of a scan
and of an import, and the state and contents of the interactive frontend. Every function
states what it does, and Verus proves it. Where outside work is needed (files, processes,
the terminal), the library says what is to be done next and is told what came of it; the
`engine` and `tui` modules hold these state machines and the laws about them.

- `template`, `classify`, `profiles`, `metadata`, `exiftool`: what a file is and when it was
  taken
- `index`, `dedupe`, `plan`: what is to be copied, and where to
- `copy`, `roots`, `engine`: how a scan and an import proceed
- `mount`, `source`: where files come from
- `config`: the configuration and its catalogues
- `report`: what the command line prints
- `tui`: the interactive frontend
- `text`, `path`, `datetime`: texts, paths and dates

`app/` is the program around the library: it reads and writes files, runs ExifTool, draws on
the terminal and drives the library's state machines. `tests/` runs the library on examples.
