# video_plucker

The core of a desktop video downloader built around yt-dlp, verified with Verus.

- `src/` decides: how a failed download is explained, which cookie profile
  applies to a URL, how a profile name becomes a file name, what yt-dlp's answer
  about a URL means, which engine runs and how it is updated, and what a job
  does as its process speaks and ends.
- `app/` acts: it reads and writes files, runs the engine, talks to the window,
  and hands plain values to the library and takes plain values back.
- `tests/` runs the library on concrete values.

Each module of `src/` states its functions over spec functions on sequences of
characters and plain values. The proof functions named `law_...` state what
holds across functions.

Three things are taken on trust, each behind a small function whose contract
says what is claimed: the case mapping and the lossy decoding of the standard
library, and the parser of `serde_json`. `String::push` has a specification of
its own in `src/text.rs`.
