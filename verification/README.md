# log_archive

An append-only archive for log records, with a recorder, a replayer, a metadata indexer and
command-line tools. The library under `src/` is written in Verus: every function states what it
returns in a contract, and the contracts are proved.

## What an archive is

- Segments hold frames: a header, a user header, a payload and a checksum.
- The catalog holds a summary of every sealed segment.
- The commit logs hold an entry for every record, in the order of their commits.
- Pins protect segments while they are replayed.
- A metadata indexer follows the commit logs and keeps a watermark.

## Layout

- `store`, `layout`, `bytes`, `text`: files as values, their names, and encodings.
- `header`, `frame`, `commit_entry`, `summary`, `adapter`: the binary formats.
- `state`, `segment`, `catalog`, `commit_log`, `recorder`, `refused_append`, `startup`,
  `maintenance`, `retention`: the recorder, what it is when the disk refuses a change, its recovery
  and its upkeep.
- `replayer`, `metadata`, `record_index`, `indexer`: reading records back, and indexing them.
- `io_queue`: the queue of writes for an asynchronous ring.
- `command`, `admin_tool`, `control_tool`, `record_tool`, `replay_tool`, `selectors`,
  `query_tool`, `query_answer`, `align`, `checkpoint`: the rules of the tools.
- `guarantees`, `history`, `numbering`, `log_cap`, `recovery`, `lifecycle`, `index_laws`: what holds
  of the library as a whole.
- `app/`: the program around the library. It reads and writes files, waits, and prints.

The library never touches a disk. It works on an image of the archive and notes every change, and
the program carries the changes out.
