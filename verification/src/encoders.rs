use vstd::prelude::*;
use vstd::std_specs::bits::u32_leading_zeros;
use vstd::std_specs::bits::axiom_u32_leading_zeros;

use crate::archive::{SevenZMethod, SevenZMethodConfiguration};
use crate::error::Error;
use crate::lzma2_coder::{lzma2_dict_size_error, lzma2_dict_size_of};
use crate::method_options::{LZMA2Options, MethodOptions};

verus! {

/// What `lzma_rs::lzma2_compress` writes for `data`: the data in stored
/// (uncompressed) LZMA2 chunks of at most 64 KiB, each a control byte 1,
/// the chunk's size less one in two big-endian bytes, and the chunk's
/// bytes; then an end byte 0.
pub open spec fn lzma2_stored(data: Seq<u8>) -> Seq<u8>
    decreases data.len(),
{
    if data.len() == 0 {
        seq![0u8]
    } else {
        let n: int = if data.len() < 0x10000 {
            data.len() as int
        } else {
            0x10000
        };
        seq![1u8, ((n - 1) / 256) as u8, ((n - 1) % 256) as u8] + data.take(n) + lzma2_stored(
            data.skip(n),
        )
    }
}

/// Calls `lzma_rs::lzma2_compress` on `data` and returns what it wrote: the
/// data in stored LZMA2 chunks (reading 64 KiB at a time from the slice),
/// as `lzma2_stored` states. A slice reader and a `Vec` writer make no I/O
/// error possible.
#[verifier::external_body]
fn lzma2_compress_bytes(data: &[u8]) -> (r: Vec<u8>)
    ensures
        r@ == lzma2_stored(data@),
{
    let mut input: &[u8] = data;
    let mut out: Vec<u8> = Vec::new();
    let _done = lzma_rs::lzma2_compress(&mut input, &mut out);
    out
}

/// An encoder stage of an entry's coder chain, with the options it was
/// chosen with; the LZMA2 stage writes stored chunks, whatever the options.
#[derive(Debug, Clone, Copy)]
pub enum Encoder {
    LZMA2(LZMA2Options),
}

impl Encoder {
    /// The bytes that this stage writes for `data`.
    pub open spec fn spec_encode(self, data: Seq<u8>) -> Seq<u8> {
        match self {
            Encoder::LZMA2(_) => lzma2_stored(data),
        }
    }

    /// Runs this stage over `data`.
    pub fn encode(&self, data: &[u8]) -> (r: Vec<u8>)
        ensures
            r@ == self.spec_encode(data@),
    {
        match self {
            Encoder::LZMA2(_) => lzma2_compress_bytes(data),
        }
    }
}

/// The LZMA2 options that a method configuration asks for: its own options,
/// the default options with its number as dictionary size, or the defaults.
pub open spec fn lzma2_options_of(options: Option<MethodOptions>) -> LZMA2Options {
    match options {
        Some(MethodOptions::LZMA2(o)) => o,
        Some(MethodOptions::Num(n)) => LZMA2Options { dict_size: n },
        None => LZMA2Options { dict_size: LZMA2Options::DICT_SIZE_DEFAULT },
    }
}

/// The LZMA2 options chosen for a configuration are the caller's: options
/// given as LZMA2 options are taken as they are, a number is taken as the
/// dictionary size, and without options the dictionary is 8 MiB. Two
/// configurations with different dictionary sizes get different options.
pub proof fn lemma_lzma2_options_are_the_configured_ones(
    options: Option<MethodOptions>,
    other: Option<MethodOptions>,
)
    ensures
        options matches Some(MethodOptions::LZMA2(o)) ==> lzma2_options_of(options) == o,
        options matches Some(MethodOptions::Num(n)) ==> lzma2_options_of(options).dict_size == n,
        options is None ==> lzma2_options_of(options).dict_size == 0x80_0000,
        lzma2_options_dict_size(options) == lzma2_options_of(options).dict_size,
        lzma2_options_dict_size(options) != lzma2_options_dict_size(other) ==> lzma2_options_of(options)
            != lzma2_options_of(other),
{
}

/// Chooses the encoder for one method of an entry's coder chain: LZMA2 with
/// the options that the configuration asks for. AES-256 needs options that
/// carry a password, which `MethodOptions` cannot hold, so it always fails
/// with `PasswordRequired`; any other method is unsupported for writing.
pub fn add_encoder(method_config: &SevenZMethodConfiguration) -> (r: Result<Encoder, Error>)
    ensures
        method_config.method == SevenZMethod::LZMA2 ==> r == Ok::<Encoder, Error>(
            Encoder::LZMA2(lzma2_options_of(method_config.options)),
        ),
        method_config.method == SevenZMethod::LZMA2 ==> (r matches Ok(Encoder::LZMA2(o)) && match method_config.options {
            Some(MethodOptions::LZMA2(given)) => o == given,
            Some(MethodOptions::Num(n)) => o.dict_size == n,
            None => o.dict_size == 0x80_0000,
        }),
        method_config.method == SevenZMethod::AES256SHA256 ==> r matches Err(Error::PasswordRequired),
        method_config.method != SevenZMethod::LZMA2 && method_config.method
            != SevenZMethod::AES256SHA256 ==> (r matches Err(Error::UnsupportedCompressionMethod(n))
            && n@ == method_config.method.spec_name()),
{
    let method = method_config.method;
    match method {
        SevenZMethod::LZMA2 => {
            let mut def_opts = LZMA2Options::default();
            let options = match method_config.options {
                Some(MethodOptions::LZMA2(opts)) => opts,
                Some(MethodOptions::Num(n)) => {
                    def_opts.dict_size = n;
                    def_opts
                },
                None => {
                    def_opts.dict_size = LZMA2Options::DICT_SIZE_DEFAULT;
                    def_opts
                },
            };
            Ok(Encoder::LZMA2(options))
        },
        SevenZMethod::AES256SHA256 => Err(Error::PasswordRequired),
        _ => Err(Error::UnsupportedCompressionMethod(String::from_str(method.name()))),
    }
}

/// The index of the highest set bit of `d`, for `d != 0`.
pub open spec fn highest_bit(d: u32) -> u32 {
    (31 - u32_leading_zeros(d)) as u32
}

/// The LZMA2 property byte that records the dictionary size `d`
/// (`d >= 4096`): twice the distance of `d`'s highest set bit from bit 12,
/// plus the bit just below the highest one.
pub open spec fn lzma2_dict_prop(d: u32) -> u8 {
    (2 * (highest_bit(d) - 12) + ((d >> ((highest_bit(d) - 1) as u32)) & 1u32)) as u8
}

/// The coder properties that the archive records for a method with the
/// given options.
pub open spec fn spec_options_as_properties(method: SevenZMethod, options: Option<MethodOptions>) -> Seq<u8> {
    match method {
        SevenZMethod::LZMA2 => seq![lzma2_dict_prop(lzma2_options_dict_size(options))],
        _ => Seq::empty(),
    }
}

/// The dictionary size that LZMA2 options ask for, with the default where
/// there are none.
pub open spec fn lzma2_options_dict_size(options: Option<MethodOptions>) -> u32 {
    match options {
        Some(o) => o.spec_lzma2_dict_size(),
        None => LZMA2Options::DICT_SIZE_DEFAULT,
    }
}

/// Whether the archive can record the options of `method`: an LZMA2
/// dictionary must be at least 4 KiB.
pub open spec fn options_recordable(method: SevenZMethod, options: Option<MethodOptions>) -> bool {
    method == SevenZMethod::LZMA2 ==> lzma2_options_dict_size(options) >= 4096
}

proof fn lemma_prop_computation(d: u32, lead: u32)
    requires
        d >= 4096,
        lead == u32_leading_zeros(d),
    ensures
        lead <= 19,
        highest_bit(d) == 31 - lead,
        (d >> (30 - lead) as u32) == 2 + ((d >> (30 - lead) as u32) & 1u32),
        (d >> (30 - lead) as u32) & 1u32 <= 1,
{
    assert((d >> (30 - lead) as u32) & 1u32 <= 1) by (bit_vector);
    axiom_u32_leading_zeros(d);
    assert(lead <= 19) by (bit_vector)
        requires
            d >= 4096,
            lead <= 32,
            d >> (32 - lead) as u32 == 0,
    ;
    assert((d >> (30 - lead) as u32) == 2 + ((d >> (30 - lead) as u32) & 1u32)) by (bit_vector)
        requires
            lead <= 19,
            d >> (32 - lead) as u32 == 0,
            (d >> (31 - lead) as u32) & 1u32 != 0,
    ;
}

/// The options that an optional reference points to.
pub open spec fn opt_value(options: Option<&MethodOptions>) -> Option<MethodOptions> {
    match options {
        Some(o) => Some(*o),
        None => None,
    }
}

/// The coder properties that the archive records for `method` with
/// `options`: the LZMA2 dictionary property byte, or nothing.
pub fn get_options_as_properties(method: SevenZMethod, options: Option<&MethodOptions>) -> (r: Vec<u8>)
    requires
        options_recordable(method, opt_value(options)),
    ensures
        r@ == spec_options_as_properties(method, opt_value(options)),
{
    match method {
        SevenZMethod::LZMA2 => {
            let dict_size = match options {
                Some(o) => o.get_lzma2_dict_size(),
                None => LZMA2Options::DICT_SIZE_DEFAULT,
            };
            let lead = dict_size.leading_zeros();
            proof {
                lemma_prop_computation(dict_size, lead);
            }
            let second_bit = (dict_size >> (30u32 - lead)) - 2;
            let prop = ((19u32 - lead) * 2 + second_bit) as u8;
            let r = vec![prop];
            assert(r@ =~= spec_options_as_properties(method, opt_value(options)));
            r
        },
        _ => Vec::new(),
    }
}

/// Recording a representable LZMA2 dictionary size gives back the property
/// byte that stands for it: for every property byte `p` from 1 to 39, the
/// size it stands for is at least 4 KiB and is recorded as `p`.
pub proof fn lemma_lzma2_dict_prop_roundtrip(p: u8)
    requires
        1 <= p < 40,
    ensures
        lzma2_dict_size_of(p) >= 4096,
        lzma2_dict_prop(lzma2_dict_size_of(p)) == p,
{
    let d = lzma2_dict_size_of(p);
    let b: u32 = p as u32 & 1u32;
    let s: u32 = (p as u32 / 2u32 + 11u32) as u32;
    assert(d == (2u32 | b) << s);
    axiom_u32_leading_zeros(d);
    let lead = u32_leading_zeros(d);
    assert(d >= 4096 && lead == 30 - s && (d >> (s - 0) as u32) & 1u32 == b) by (bit_vector)
        requires
            1 <= p < 40,
            b == p as u32 & 1u32,
            s == p as u32 / 2u32 + 11u32,
            d == (2u32 | b) << s,
            lead <= 32,
            d >> (32 - lead) as u32 == 0,
            lead < 32 ==> (d >> (31u32 - lead) as u32) & 1u32 != 0,
            d == 0 <==> lead == 32,
    ;
    assert(2 * (s - 11) + b == p) by (bit_vector)
        requires
            1 <= p < 40,
            b == p as u32 & 1u32,
            s == p as u32 / 2u32 + 11u32,
    ;
}

/// Recording an LZMA2 dictionary size of at least 4 KiB rounds it down to
/// the nearest size that a property byte can stand for: the recorded size
/// is at most `d`, and `d` lies below the next representable size.
pub proof fn lemma_lzma2_dict_prop_rounds_down(d: u32)
    requires
        d >= 4096,
    ensures
        lzma2_dict_prop(d) < 40,
        lzma2_dict_size_of(lzma2_dict_prop(d)) <= d,
        (d as int) < lzma2_dict_size_of(lzma2_dict_prop(d)) as int
            + (1u64 << (lzma2_dict_prop(d) / 2 + 11) as u64) as int,
{
    let lead = u32_leading_zeros(d);
    lemma_prop_computation(d, lead);
    axiom_u32_leading_zeros(d);
    let p = lzma2_dict_prop(d);
    assert(p < 40
        && ((2u32 | (p as u32 & 1u32)) << (p as u32 / 2u32 + 11u32)) <= d
        && (d as u64) < ((2u32 | (p as u32 & 1u32)) << (p as u32 / 2u32 + 11u32)) as u64
            + (1u64 << (p / 2 + 11) as u64)) by (bit_vector)
        requires
            d >= 4096,
            lead <= 19,
            d >> (32 - lead) as u32 == 0,
            (d >> (31u32 - lead) as u32) & 1u32 != 0,
            p == (2 * (31 - lead - 12) + ((d >> (31 - lead - 1) as u32) & 1u32)) as u8,
    ;
}

/// What the archive records for an LZMA2 coder, an LZMA2 decoder accepts:
/// the recorded properties announce a valid dictionary size, the requested
/// one rounded down to a representable size.
pub proof fn lemma_recorded_lzma2_properties_decode(options: Option<MethodOptions>)
    requires
        options_recordable(SevenZMethod::LZMA2, options),
    ensures
        ({
            let props = spec_options_as_properties(SevenZMethod::LZMA2, options);
            let d = lzma2_options_dict_size(options);
            &&& lzma2_dict_size_error(props) is None
            &&& lzma2_dict_size_of(props[0]) <= d
            &&& (d as int) < lzma2_dict_size_of(props[0]) as int + (1u64 << (props[0] / 2 + 11) as u64) as int
        }),
{
    lemma_lzma2_dict_prop_rounds_down(lzma2_options_dict_size(options));
}

} // verus!
