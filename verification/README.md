# lx_audiolabs

The decision logic of five audio plugins, verified with Verus:

- **Equilibrium**: a five band equaliser with a target profile, a listening mode, a pre-master
  gain and a loudness match.
- **Lucent** and **Lucent Relay**: an analyser for resonances and masking, and the senders that
  other tracks feed it with.
- **Aether**: per band settings kept in preset documents, with a library of presets.
- **Aurum**: a mastering chain with linked bands, a limiter and a monitor.

## Layout

- `src/` is the library. Numbers of floating point are held by their bit patterns (`level`,
  `wide`): the library compares, clamps, selects and orders them. Where a result has to be
  computed in floating point, the caller hands in the value or a closure, and the contract speaks
  of it.
- `tests/` runs the library.
- `app/` is the shell: floating point arithmetic, Fourier transforms, files, threads, the host's
  audio and the egui editor of Equilibrium.

Laws that relate several functions are public proof functions named `law_..`.

## What is trusted

- `text`: `String::push`.
- `equilibrium_editor`: `char::is_alphanumeric`.
- `saved_state`: how `truce-core` writes a `String` into a saved session and reads it back.
