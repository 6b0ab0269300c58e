# nono_core

The decisions of a sandbox launcher and of its signing proxy, written in Rust and verified
with Verus.

- `src/aws`: which SigV4 service and region a route signs for, which credential provider it
  uses, which headers are stripped, the signature of a request, and which requests can be
  signed at all.
- `src/launcher`: the course of a launch. `machine` decides what comes next, `course` states
  what holds of a launch as a whole; `prefix`, `profile`, `conda_meta` and `argv` hold the
  single decisions.
- `src/packaging`: what the build tells the compiler.
- `src/text`: text, character by character.
- `app`: the surroundings, unverified: clocks, credentials, files, environment variables and
  the interpreter.
- `tests`: examples, run against the real AWS and JSON crates.

Functions marked `external_body` call into another crate; the comment above each says what is
claimed of that crate and not proved here.
