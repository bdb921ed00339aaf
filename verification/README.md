# sqzer

A multi-format image optimizer: container sniffing and header walks for
JPEG, PNG, WebP, AVIF, HEIC, JPEG XL, GIF, TIFF, OpenEXR and SVG, the
in-memory image model with its orientation algebra, the backends' dispatch
and listing, and the command line's rules for inputs, outputs, budgets and
refusals. The library is written in Verus, and every function in it is
proved against its contract.

This build decodes every format above but HEIC, plus BMP, TGA, ICO, QOI
and PNM through `codecs::raster::decode_raster`, and writes PNG only: the
lossy encoders' crates are not part of it, so asking the program for
another output format fails with the feature that would provide it.

Layout:

- `src/` — the verified library.
  - `image.rs`, `format.rs`, `params.rs`, `error.rs`: the data model.
  - `codecs/`: one module per container; the decoders call their
    backend crates through small trusted wrappers and verify the rest.
  - `registry.rs`: which decoder gets an input and which encoder owns a
    format.
  - `content.rs`: the photo/graphic guess that picks a default format.
  - `heif_dl.rs`, `heif_wic.rs`, `heif_imageio.rs`: the plane and frame
    handling around the system HEIC decoders.
  - `cli/`: argument values, input resolution, output placement, the
    pixel budget, the codec listing, refusals and the run's tallies.
- `tests/`: the tests, run against the real backend crates.
- `app/`: the program around the library: argument walking, the file
  system, threads, and what rests on floating point (the quality search,
  sizes in KB and MB).
