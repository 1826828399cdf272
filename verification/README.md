# Foothold

Foothold keeps track of which tasks of a batch have been successful, failed, or
skipped, in this session and in those before it. Its core is written in Verus:
what each function returns and changes is stated in its contract and proved. Where
that depends on the system clock, a function whose name ends in `_at` takes the
reading and states the result for every reading.

## Layout

- `src/` is the verified library. It decides what is written to the two logs of a
  session and when they are synchronized, reads the logs back, and counts. It does
  no file I/O.
  - `clock`: points in time
  - `sync`: when the logs are to be synchronized
  - `lines`: the lines of a text
  - `record`: tasks, outcomes, and the JSON lines that record them
  - `tasks`, `state`: the successful and failed tasks of a session
  - `inner`, `foothold`: a session on top of the sessions before it
  - `stats`: the progress in numbers
  - `laws`: what holds of sessions as a whole, such as that a session takes up
    where the last one stopped
- `app/` keeps the logs in files, shares a session between threads, and takes tasks
  and outcomes of any type that `serde` can write and read.
- `tests/` runs the library.

## What is trusted

`serde_json::to_string` and `serde_json::from_str` (`src/record.rs`), the system
clock (`src/clock.rs`), the text of a `Duration` (`src/stats.rs`) and `String::push`
(`src/lines.rs`). The doc comment of each says what is claimed of it.
