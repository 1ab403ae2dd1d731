# hayro (verified core)

The integer core of a PDF content and image pipeline, written in Verus.
The functions in `src/` carry contracts that Verus proves, except the few
marked `#[verifier::external_body]`: small wrappers around calls into
smallvec, pic-scale, moxcms and std, whose contracts are assumed and say in
their doc comments what they claim of the outside code.

## Layout

- `src/chars.rs`, `decimal.rs`, `number.rs`, `object.rs`, `lexer.rs`:
  PDF tokens and objects, numbers kept as exact decimals, and their text.
- `src/operands.rs`, `stack.rs`, `ops.rs`, `content.rs`, `reader.rs`:
  content stream operators, typed instructions, the instruction iterator
  and the `null` object.
- `src/bits.rs`, `image.rs`, `decode.rs`, `image_dict.rs`: unpacking image
  samples, fixing image lengths, color key and bilevel masks, the decoding
  paths that need no interpolation, and image dictionaries.
- `src/pixels.rs`, `resize.rs`, `render.rs`: premultiplied RGBA pixels,
  resampling with pic-scale, and the pixels an image is drawn with.
- `src/color.rs`, `icc.rs`, `lookup.rs`, `transfer.rs`, `function.rs`,
  `text.rs`: color space families, ICC profiles with moxcms, byte lookup
  tables, transfer functions, sample tables of sampled functions, and text
  rendering modes.
- `app/`: the floating-point parts (colors, interpolated decoding, sampled
  function evaluation) and the glue to vello_cpu and kurbo.
- `tests/`: tests of the library from outside.
