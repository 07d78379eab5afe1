# sonora-ns (verified core)

Building blocks of a WebRTC-style noise suppressor, written in Verus.

- `src/` — the verified library:
  - `quantile_noise_estimator`: the schedule of the quantile trackers
    (staggered frame counters, start-up phase, which block is published),
    with laws on its invariant, periodicity and publication pattern;
  - `ns_fft`: the packed layout of a 256-point real FFT, reading bins out of
    it, splitting it into real/imaginary parts and packing them back, with
    the two round-trip laws;
  - `fast_math`: element-wise batch application over the shorter of two
    slices;
  - `config`: frame and spectrum sizes.
- `app/` — the `f32` arithmetic (fast-math approximations through `libm`,
  the per-bin quantile and density updates, the FFT interface), built on the
  library.
- `tests/` — tests of the library.
