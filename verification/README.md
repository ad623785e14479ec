# riff

`riff` records a session: audio, screenshots, the clipboard and a live transcript, and turns it into
a Markdown note and an HTML page. This repository holds its logic as a Verus library and the program
around it.

- `src/` is the library. Every function states in `ensures` what it returns or changes, over plain
  mathematical models: texts are `Seq<char>`, JSON values are trees (`json::Tree`), quantities are
  IEEE 754 encodings (`measure::Measure`), and points in time are seconds and nanoseconds
  (`moment::Moment`).
- `app/` is the program: the command line, files, sockets, processes, the clock and floating-point
  arithmetic. It performs what the library decides and hands back what it sees.
- `tests/` runs the library on concrete values.

## Where things are

| Modules | What they hold |
| --- | --- |
| `text`, `pattern`, `number`, `measure`, `moment`, `template` | texts, numbers, time, command templates |
| `json`, `wire` | JSON values, and reading them from text |
| `config`, `paths`, `locate`, `cli`, `error`, `models` | settings, files, arguments, shared types |
| `events`, `bus`, `watch`, `http`, `daemon` | the event bus, its followers and its daemon |
| `session`, `pipeline`, `stopping`, `recorder`, `audio` | starting, pausing, splitting and ending a session |
| `engine`, `chunk`, `transcription`, `watcher`, `parakeet`, `servers`, `setup`, `probe` | transcription and the processes that do it |
| `annotations`, `note`, `html`, `pages`, `images`, `shots` | what a session leaves behind |
| `history`, `delivery`, `perf` | finding, showing and sending past sessions |

## What is believed

A few functions of `std`, `chrono`, `image` and `serde_json` are called behind functions marked
`#[verifier::external_body]`, and `String::push` has an `assume_specification`. Each says in its doc
comment which function it is about and what it claims of it. Everything else is proved.

Laws that relate several functions stand as public proof functions beside them, for example
`events::envelope_wins`, `bus::polls_give_every_line_once`, `annotations::marks_are_put_in_once`,
`history::notes_give_what_was_said_back`, `shots::originals_come_back`
and `pipeline::dry_stops_only_look`.
