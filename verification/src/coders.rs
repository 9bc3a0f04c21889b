use vstd::prelude::*;

use crate::archive::SevenZMethod;
use crate::error::Error;
use crate::folder::Coder;
use crate::lzma2_coder::{lzma2_dict_size_error, lzma2_dict_size_outcome, Lzma2Reader};
use crate::lzma_coder::{lzma_dict_size_of, lzma_header, LzmaReader};

verus! {

/// The text that `format!("{:?}", id)` gives for the byte slice `id`.
pub uninterp spec fn debug_text(id: Seq<u8>) -> Seq<char>;

/// Formats a byte slice with `{:?}` (std's `Debug` for `[u8]`). The contract
/// claims only that the text is a function of the bytes.
#[verifier::external_body]
fn debug_bytes(id: &[u8]) -> (s: String)
    ensures
        s@ == debug_text(id@),
{
    format!("{:?}", id)
}

/// The branch-call-jump filters that a folder can apply.
#[allow(non_camel_case_types)]
#[derive(Debug, Clone, Copy, PartialEq, Eq, Structural)]
pub enum BcjFilter {
    X86,
    ARM,
    ARM_THUMB,
    PPC,
    SPARC,
}

/// The decoder chosen for a coder, with its input (the coder's packed
/// bytes).
pub enum Decoder {
    /// The input as it is.
    COPY(Vec<u8>),
    /// An LZMA decoder over the input.
    LZMA(LzmaReader),
    /// An LZMA2 decoder over the input.
    LZMA2(Lzma2Reader),
    /// A branch-call-jump filter to undo on the input.
    BCJ(BcjFilter, Vec<u8>),
    /// A delta filter with the given distance to undo on the input.
    Delta(usize, Vec<u8>),
}

/// The distance of a delta filter: one more than its first property byte,
/// and 1 where it has none.
pub open spec fn delta_distance(props: Seq<u8>) -> usize {
    if props.len() == 0 {
        1
    } else {
        (props[0] + 1) as usize
    }
}

/// A delta filter's distance is its first property byte plus one, so the
/// bytes 0 to 254 give the distances 1 to 255; without properties it is 1.
/// Distinct property bytes give distinct distances.
pub proof fn lemma_delta_distance_is_property_plus_one(props: Seq<u8>, other: Seq<u8>)
    requires
        props.len() > 0 ==> props[0] < 255,
        other.len() > 0 ==> other[0] < 255,
    ensures
        props.len() == 0 ==> delta_distance(props) == 1,
        props.len() > 0 ==> delta_distance(props) - 1 == props[0],
        1 <= delta_distance(props) <= 255,
        props.len() > 0 && other.len() > 0 && props[0] != other[0] ==> delta_distance(props)
            != delta_distance(other),
{
}

/// Chooses the decoder for `coder` over `input`, the coder's packed bytes
/// (as read by the caller): the method whose id the
/// coder names decides. LZMA and LZMA2 get decoders configured from the
/// coder's properties (LZMA2 fails where they are invalid), BCJ and delta
/// filters get their parameters; a method without a decoder, or an id
/// that names no method, is unsupported. LZMA coders must have at least
/// five property bytes, and a delta filter's property byte must be below
/// 255.
pub fn add_decoder(
    input: Vec<u8>,
    uncompressed_len: usize,
    coder: &Coder,
    _password: &[u8],
    max_mem_limit_kb: usize,
) -> (r: Result<Decoder, Error>)
    requires
        SevenZMethod::spec_by_id(coder.method_id@) == Some(SevenZMethod::LZMA)
            ==> coder.properties@.len() >= 5,
        SevenZMethod::spec_by_id(coder.method_id@) == Some(SevenZMethod::DELTA)
            && coder.properties@.len() > 0 ==> coder.properties@[0] < 255,
    ensures
        match SevenZMethod::spec_by_id(coder.method_id@) {
            None => r matches Err(Error::UnsupportedCompressionMethod(s)) && s@ == debug_text(
                coder.method_id@,
            ),
            Some(SevenZMethod::COPY) => r matches Ok(Decoder::COPY(x)) && x@ == input@,
            Some(SevenZMethod::LZMA) => r matches Ok(Decoder::LZMA(l)) && l.wf() && l.cached().len()
                == 0 && l.cache_pos() == 0 && l.header() == lzma_header(
                coder.properties@[0],
                lzma_dict_size_of(coder.properties@),
            ) && l.limits() == (uncompressed_len as u64, max_mem_limit_kb, true) && l.rest() == input@
                && l.handed().len() == 0 && l.produced().len() == 0,
            Some(SevenZMethod::LZMA2) => {
                &&& lzma2_dict_size_error(coder.properties@) is Some ==> lzma2_dict_size_outcome(
                    coder.properties@,
                    r,
                    |d: Decoder| 0u32,
                )
                &&& lzma2_dict_size_error(coder.properties@) is None ==> (r matches Ok(
                    Decoder::LZMA2(l),
                ) && l.wf() && l.cached().len() == 0 && l.cache_pos() == 0 && l.rest() == input@
                    && l.handed().len() == 0 && l.produced().len() == 0)
            },
            Some(SevenZMethod::BCJ_X86) => r matches Ok(Decoder::BCJ(f, x)) && f == BcjFilter::X86
                && x@ == input@,
            Some(SevenZMethod::BCJ_ARM) => r matches Ok(Decoder::BCJ(f, x)) && f == BcjFilter::ARM
                && x@ == input@,
            Some(SevenZMethod::BCJ_ARM_THUMB) => r matches Ok(Decoder::BCJ(f, x)) && f
                == BcjFilter::ARM_THUMB && x@ == input@,
            Some(SevenZMethod::BCJ_PPC) => r matches Ok(Decoder::BCJ(f, x)) && f == BcjFilter::PPC
                && x@ == input@,
            Some(SevenZMethod::BCJ_SPARC) => r matches Ok(Decoder::BCJ(f, x)) && f
                == BcjFilter::SPARC && x@ == input@,
            Some(SevenZMethod::DELTA) => r matches Ok(Decoder::Delta(d, x)) && d == delta_distance(
                coder.properties@,
            ) && x@ == input@ && (if coder.properties@.len() == 0 {
                d == 1
            } else {
                d == coder.properties@[0] + 1
            }),
            Some(m) => r matches Err(Error::UnsupportedCompressionMethod(s)) && s@ == m.spec_name(),
        },
        coder.method_id@ == seq![0x00u8] ==> r matches Ok(Decoder::COPY(_)),
        coder.method_id@ == seq![0x03u8] ==> r matches Ok(Decoder::Delta(_, _)),
        coder.method_id@ == seq![0x03u8, 0x03, 0x01, 0x03] ==> (r matches Ok(Decoder::BCJ(f, _)) && f
            == BcjFilter::X86),
        coder.method_id@ == seq![0x03u8, 0x03, 0x02, 0x05] ==> (r matches Ok(Decoder::BCJ(f, _)) && f
            == BcjFilter::PPC),
        coder.method_id@ == seq![0x03u8, 0x03, 0x05, 0x01] ==> (r matches Ok(Decoder::BCJ(f, _)) && f
            == BcjFilter::ARM),
        coder.method_id@ == seq![0x03u8, 0x03, 0x07, 0x01] ==> (r matches Ok(Decoder::BCJ(f, _)) && f
            == BcjFilter::ARM_THUMB),
        coder.method_id@ == seq![0x03u8, 0x03, 0x08, 0x05] ==> (r matches Ok(Decoder::BCJ(f, _)) && f
            == BcjFilter::SPARC),
{
    proof {
        SevenZMethod::lemma_ids_follow_format_table();
    }
    let method = match SevenZMethod::by_id(coder.decompression_method_id()) {
        Some(m) => m,
        None => {
            return Err(Error::UnsupportedCompressionMethod(debug_bytes(coder.decompression_method_id())));
        },
    };
    match method {
        SevenZMethod::COPY => Ok(Decoder::COPY(input)),
        SevenZMethod::LZMA => {
            let lz = LzmaReader::new(input, coder, uncompressed_len, max_mem_limit_kb);
            Ok(Decoder::LZMA(lz))
        },
        SevenZMethod::LZMA2 => {
            let lz = match Lzma2Reader::new(input, coder) {
                Ok(lz) => lz,
                Err(e) => {
                    return Err(e);
                },
            };
            Ok(Decoder::LZMA2(lz))
        },
        SevenZMethod::BCJ_X86 => Ok(Decoder::BCJ(BcjFilter::X86, input)),
        SevenZMethod::BCJ_ARM => Ok(Decoder::BCJ(BcjFilter::ARM, input)),
        SevenZMethod::BCJ_ARM_THUMB => Ok(Decoder::BCJ(BcjFilter::ARM_THUMB, input)),
        SevenZMethod::BCJ_PPC => Ok(Decoder::BCJ(BcjFilter::PPC, input)),
        SevenZMethod::BCJ_SPARC => Ok(Decoder::BCJ(BcjFilter::SPARC, input)),
        SevenZMethod::DELTA => {
            let d: u8 = if coder.properties.len() == 0 {
                1
            } else {
                let p0 = coder.properties[0];
                assert(p0 & 0xffu8 == p0) by (bit_vector);
                (p0 & 0xff) + 1
            };
            Ok(Decoder::Delta(d as usize, input))
        },
        _ => Err(Error::UnsupportedCompressionMethod(String::from_str(method.name()))),
    }
}

} // verus!
