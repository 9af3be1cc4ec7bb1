# img4avif

Converts JPEG, PNG and WebP images to AVIF with the `rav1e` AV1 encoder
(through `ravif`), guarded against oversized input, decompression bombs and
memory exhaustion. The library is written in Verus: every function under
`src/` carries a contract that Verus proves, and the calls into `image`,
`img-parts`, `ravif` and `rgb` go through small trusted wrappers whose
contracts are stated next to them.

## Layout

- `src/config.rs`: the settings and their builders (clamping, defaults).
- `src/memory_guard.rs`: the budget on the growth of the resident set.
- `src/rss.rs`: the resident set size read out of `/proc/self/status` or
  `vm_stat` text.
- `src/metadata.rs`: format sniffing and metadata stripping.
- `src/decoder/`: decoding to RGBA, 8 or 16 bits per channel (16-bit
  sources keep their precision), with the pixel cap checked on the header.
- `src/resize.rs`: the output resolutions and the Lanczos3 downscale.
- `src/encoder/`: AVIF encoding (8-bit RGBA, or 10-bit from YCbCr planes
  for 16-bit images) and the structural check of its output.
- `src/pipeline.rs`: the conversion as a state machine that stops at each
  memory checkpoint for an RSS reading, and, before encoding a 16-bit
  image, for its 10-bit BT.601 YCbCr planes; and the laws that tie the
  steps together.
- `app/`: the host side: reading the RSS, driving conversions, thread-pool
  batches, `Display` for errors, and the floating-point YCbCr planes that a
  16-bit conversion asks for.
- `tests/`: tests of the library through its public API.
