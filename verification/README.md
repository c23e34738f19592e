# glycin_image_rs

Image loading for glycin through the `image` crate, with a DDS decoder for
every BCn format.

- `src/` is verified with Verus:
  - `bc.rs`: the BCn formats, block decoding through `bcdec_rs`, and the
    layout of decoded 4x4 blocks into a row-major image;
  - `dds.rs`: the DDS header, its checks in reading order, and the decoder;
  - `loader.rs`: the decoder and settings for each MIME type;
  - `message.rs`: the messages for malformed DDS streams;
  - `metadata.rs`: Exif, XMP, key/value text and CICP found by `gufo`.
- `app/` holds what surrounds it: reading streams, the `image` and glycin
  decoder traits, animation threads, and the floating-point BC6H blocks.
- `tests/` exercises the library on concrete streams and blocks.
