//! Writing 7z archives, and the pieces of 7z decoding that choose and
//! configure the decoders, with their contracts proved by Verus.

pub mod archive;
mod bitset;
pub mod checksum;
pub mod coders;
pub mod en_funcs;
pub mod encoders;
pub mod error;
pub mod files_info;
pub mod filetime;
pub mod folder;
pub mod header;
pub mod header_codec;
mod io_types;
pub mod lzma2_coder;
pub mod lzma_coder;
pub mod method_options;
pub mod password;
pub mod writer;

pub use archive::{SevenZArchiveEntry, SevenZMethod, SevenZMethodConfiguration};
pub use coders::{add_decoder, BcjFilter, Decoder};
pub use en_funcs::{compress, compress_encypted, SourceFile};
pub use encoders::{add_encoder, Encoder};
pub use error::Error;
pub use filetime::FileTime;
pub use folder::Coder;
pub use lzma2_coder::Lzma2Reader;
pub use lzma_coder::LzmaReader;
pub use method_options::{LZMA2Options, MethodOptions};
pub use password::Password;
pub use writer::SevenZWriter;
