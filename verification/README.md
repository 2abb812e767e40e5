# codec_compare

Compares image codecs (mozjpeg, jpegli, zenjpeg, WebP, AVIF, JPEG XL) on
quality and size.

- `src/` is the library, written in Verus: codec configuration and the
  quality mappings between encoders, codec selection and comparison
  planning, report naming and grouping, argument parsing, corpus and sweep
  plans, source-file selection, and the decoding of source images and
  encoder output to RGB (the decoders themselves are outside crates,
  called behind trusted wrappers). Every
  public function carries a contract; the laws that relate several
  functions are public proof functions beside them.
- `tests/` runs the library on concrete values.
- `app/` is the command-line program: argument handling, file I/O, the
  encoders and metrics that work in floating point, and chart output.
