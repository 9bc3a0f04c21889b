# sevenz_rust

Writing 7z archives, and choosing and configuring 7z decoders, in Rust
with contracts proved by Verus.

- `src/` is the verified library. `writer.rs` builds a whole archive in
  memory (signature header, packed streams, header); `header.rs` and
  `files_info.rs` write the header's records; `header_codec.rs` holds the
  7z number and bit-vector encodings with their read-back laws;
  `encoders.rs` and `coders.rs` choose encoders and decoders for coder
  chains; `lzma_coder.rs` and `lzma2_coder.rs` are the caching LZMA and
  LZMA2 readers; `archive.rs` holds the method table and the entry type.
  The outside crates (`lzma-rs`, `crc`, `bit-set`, `byteorder`) are called
  through small trusted wrappers. Where a call's result can be stated in a
  few lines the contract states it (lzma-rs's LZMA2 encoder writes the data
  in stored, uncompressed LZMA2 chunks; the CRC-32 is stated bit by bit).
  Where the call runs a whole decoder of the outside crate (LZMA, LZMA2),
  the contract names its result and states what it is a function of, and
  the verified code is proved against that name. The BCJ and delta filters are chosen with their parameters, but no
  filter stage is part of this crate.
- `app/` walks directories, reads and writes files, and adapts the
  decoders to `std::io::Read`.
- `tests/` runs the library on concrete inputs.
