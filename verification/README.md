# cooklang_sync_server

The server side of a file sync protocol, with its decisions verified in Verus.

Clients of an account upload the chunks of their files, commit a file's state
as a list of chunks, list what other clients of the account have committed, and
wait in a long poll for the next commit.

- `src/` is the verified library. It decides what each request is answered
  with, where a chunk is stored, how a batch download is framed, which records
  a peer is told of, and who is woken by a commit. Work that has to be done
  outside (reading a form, writing a file, asking the database) is the state of
  a machine: the state says what is to be done, a step takes what came of it.
  - `auth`: bearer tokens, entitlement, what each handler asks for, and the JSON
    rejections.
  - `chunks`: uploads, downloads and single chunks; `storage` and `framing`
    state what uploads leave behind and what downloads consist of.
  - `metadata`: records, commits, listings and polls; `journal` states what
    commits leave among the records and what peers are told of it.
  - `error`, `http`, `answers`: error pages and which answers they replace.
  - `route`: the tables of routes.
- `app/` is the program around it: HTTP, files, the database, the clock.
- `tests/` runs the library, with chunks and records kept in memory.
