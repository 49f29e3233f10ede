# moltis_voice

The verified core of a voice gateway, written in Rust and proved with
[Verus](https://github.com/verus-lang/verus).

- `src/` decides: what is asked of a VoxCPM server and what is made of its
  answers, how a persona becomes a voice design, what the output of host tools
  says of the host, and whether that host can run a local voice backend. Every
  function carries a contract, and public proof functions named `law_...` state
  what holds of the library as a whole.
- `app/` acts: it sends the requests, runs the commands and hands the answers
  back to the library.
- `tests/` runs the library on concrete values.

An exchange with a server or a command is a loop in `app/` around a function of
`src/` that takes what is known so far and returns the next step.

A few functions of `std`, `bytes`, `reqwest` and `serde_json` are taken on trust;
the doc comment of each says what is assumed of it.
