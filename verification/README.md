# cadmus

Whisper transcription for Rust: a verified core and the I/O around it.

- `src/` is the library, verified with Verus. It holds every decision the
  library makes: the model catalog and its six built-in defaults, the cache
  layout and what counts as a cached model, the download protocol (a state
  machine that asks for each filesystem or network step and decides what
  follows), `file://` URL decoding, the parsing of Whisper's timestamped
  output into segments and transcripts, which track of an audio container
  to decode, the Opus identification header, the model lifecycle (`free()` never aborts a transcription under way),
  the error surface and the JavaScript-facing checks and conversions.
- `app/` performs the work the core asks for: the filesystem and HTTP
  steps of downloads, audio decoding and resampling (floating point), the
  libopus decoder, the CTranslate2 Whisper engine and the N-API bindings.
- `tests/` exercises the core on concrete values.

Beside the contracts, the core proves laws of the library as a whole:
among them, that a download which finishes successfully leaves every file
of the model in place, so that the model is then found and loadable by
name; that a download over a cache that already holds the model fetches
nothing; that a partial file is always removed before a download fails; that
download progress, counted for the whole model against its
declared size, never goes backwards; and that cancellation is checked before
every chunk.
