# body_image

HTTP message bodies that are in RAM, in files or in memory maps; dialogs of an
HTTP request and its response; and BARC, a container format in which dialogs are
recorded. The library is written in Rust and verified with Verus.

## Layout

- `src/` is the library.
  - `body`, `buf`, `read_from`, `read_pos`: bodies while they are written, read
    and kept, and positioned reads of shared files.
  - `dialog`, `headers`, `tune`: dialogs, header blocks, and limits.
  - `barc`: record heads, readers, writers, compression, and the conversion
    between dialogs and records.
  - `codec`: gzip, deflate and Brotli.
  - `futio`, `blocking`: streams and sinks for asynchronous use, the permission
    to block, decoding of responses, and what a client has to decide.
  - `cli`, `logger`, `mem_util`: the options of the command line tool, log
    filters, and advice on memory.
- `tests/` runs the library, with the outside crates that it calls.
- `app/` is the `barc` command line tool, and the adaptors to files, memory maps,
  executors and an HTTP client.

## How the library does without input and output

A body is generic in the handle of its file. A function that needs a file to be
opened, read, written or mapped returns a value that says so, and is told the
outcome by another call. A stream or a sink that needs to block asks an arbiter
first, and says that it is pending where that is refused.

## What is proved

Every function states what it returns. The functions named `law_..` state what
holds across several of them, such as:

- what is written as a record is read back as the same record (`barc::reader`,
  `barc::stored`);
- a record that is being written is the end of the file to a reader
  (`barc::stored`);
- a dialog that is converted to a record and back is the same dialog
  (`barc::convert`);
- a record head is read as it was written, and written as it was read
  (`barc::head`);
- a body never holds more than the limit on its length (`read_from`,
  `futio::sink`);
- items of a stream are the bytes of the body, in order (`futio::stream`);
- permission to block once is good for one operation (`blocking`,
  `futio::stream`).

What the outside crates compute is trusted, and each such declaration says what is
taken for granted.
