# Beacon

Zone detection from ambient and ultrasonic sound: a recording is fingerprinted,
compared with what is stored, and assigned to a named zone.

- `src/` is the library, written in Verus. Its functions are verified against
  their contracts, and laws that span several functions stand beside them as
  proof functions. A few contracts on outside code are trusted instead: see
  below.
- `tests/` runs the library on concrete values.
- `app/` is the `beacond` program around the library: files, the database, the
  network, the microphone, the terminal, and floating-point signal processing.

Numbers that are measured in floating point (magnitudes, similarities,
confidences) enter the library as bit patterns, which it compares and carries
through but does not compute with.

## What is trusted

Four contracts are believed without proof, each about code outside the library.
Everything else in `src/` rests on them and on Verus and its standard library
alone.

| Item | Outside code | What is believed of it |
|---|---|---|
| `hashing` | `xxhash_rust::xxh3::xxh3_64` | the hash depends on the bytes alone; which number it is, is not stated (`xxh3_of`) |
| `text::lossy_text` | `String::from_utf8_lossy` | the text depends on the bytes alone (`lossy_of`), and valid UTF-8 is decoded as such |
| `text` | `String::push` | it appends the character |
| `zone_api::json_text` | `serde_json::from_str` into a `Value`, then `Value::get` and `Value::as_str` | the member's text depends on the body and the member's name alone (`json_text_of`) |

## Modules

| Module | What it holds |
|---|---|
| `audio`, `spectrogram` | frequency modes, filter stages, frames of a signal |
| `fingerprint`, `hashing` | constellation peaks, target zones, fingerprint hashes |
| `matching`, `database` | offset histograms, stored rows, ranked results, deletions |
| `signature`, `embeddings` | stored signatures, shapes of learned embeddings |
| `detection`, `monitor` | which zone was detected, and the events of moving |
| `daemon`, `dialogue`, `connection` | requests, responses, the steps between them, and whole connections |
| `capture`, `base64`, `http`, `page`, `zone_api` | the visualiser |
| `cli`, `microphone` | commands, layout, choice of a recording configuration |
| `bloom` | pre-screening of hashes |
| `ieee`, `text`, `wire` | bit patterns, text, little-endian bytes |
