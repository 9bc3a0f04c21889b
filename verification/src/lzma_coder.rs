use vstd::prelude::*;

use std::io::Read;

use crate::folder::Coder;
use crate::header_codec::{le_bytes, le_value, lemma_le_bytes_index, u32_le_bytes};
use crate::lzma2_coder::{caching_read, copy_to_front, fails_without_input, lemma_hand_out, CacheState};

verus! {

/// The dictionary size that LZMA coder properties announce: their bytes 1
/// to 4, little-endian.
pub open spec fn lzma_dict_size_of(props: Seq<u8>) -> u32 {
    le_value(props.subrange(1, 5)) as u32
}

/// The dictionary size that an LZMA coder's properties announce. The
/// properties must hold at least five bytes.
pub fn get_dic_size(coder: &Coder) -> (d: u32)
    requires
        coder.properties@.len() >= 5,
    ensures
        d == lzma_dict_size_of(coder.properties@),
{
    let p = &coder.properties;
    let b0 = p[1];
    let b1 = p[2];
    let b2 = p[3];
    let b3 = p[4];
    let d: u32 = (b0 as u32) | ((b1 as u32) << 8) | ((b2 as u32) << 16) | ((b3 as u32) << 24);
    proof {
        let s = p@.subrange(1, 5);
        reveal_with_fuel(le_value, 5);
        assert(s.drop_first().drop_first().drop_first().drop_first() =~= Seq::<u8>::empty());
        assert(s[0] == b0 && s[1] == b1 && s[2] == b2 && s[3] == b3);
        assert(s.drop_first()[0] == b1);
        assert(s.drop_first().drop_first()[0] == b2);
        assert(s.drop_first().drop_first().drop_first()[0] == b3);
        let v = le_value(s);
        assert(d == ((b0 as u64) | (((b1 as u64) | (((b2 as u64) | (((b3 as u64) | (0u64 << 8u64))
            << 8u64)) << 8u64)) << 8u64)) as u32) by (bit_vector)
            requires
                d == (b0 as u32) | ((b1 as u32) << 8) | ((b2 as u32) << 16) | ((b3 as u32) << 24),
        ;
    }
    d
}

/// The five-byte header that an LZMA decoder reads first: the property byte
/// and the dictionary size, little-endian.
pub open spec fn lzma_header(props_byte: u8, dict_size: u32) -> Seq<u8> {
    seq![props_byte] + le_bytes(dict_size as u64, 4)
}

/// The header that the LZMA reader rebuilds from a coder's properties is
/// the first five bytes of those properties.
pub proof fn lemma_lzma_header_is_properties(props: Seq<u8>)
    requires
        props.len() >= 5,
    ensures
        lzma_header(props[0], lzma_dict_size_of(props)) == props.subrange(0, 5),
{
    let s = props.subrange(1, 5);
    reveal_with_fuel(le_value, 5);
    reveal_with_fuel(le_bytes, 5);
    let b0 = s[0];
    let b1 = s[1];
    let b2 = s[2];
    let b3 = s[3];
    assert(s.drop_first().drop_first().drop_first().drop_first() =~= Seq::<u8>::empty());
    assert(s.drop_first()[0] == b1);
    assert(s.drop_first().drop_first()[0] == b2);
    assert(s.drop_first().drop_first().drop_first()[0] == b3);
    let v: u64 = ((b0 as u64) | (((b1 as u64) | (((b2 as u64) | (((b3 as u64) | (0u64 << 8u64))
        << 8u64)) << 8u64)) << 8u64));
    assert(le_value(s) == v);
    let d: u32 = v as u32;
    assert((d as u64) & 0xFFu64 == b0 as u64 && ((d as u64) >> 8u64) & 0xFFu64 == b1 as u64
        && (((d as u64) >> 8u64) >> 8u64) & 0xFFu64 == b2 as u64 && ((((d as u64) >> 8u64) >> 8u64)
        >> 8u64) & 0xFFu64 == b3 as u64) by (bit_vector)
        requires
            v == ((b0 as u64) | (((b1 as u64) | (((b2 as u64) | (((b3 as u64) | (0u64 << 8u64))
                << 8u64)) << 8u64)) << 8u64)),
            d == v as u32,
    ;
    assert(lzma_header(props[0], d) =~= props.subrange(0, 5));
}

/// What `lzma_rs::lzma_decompress_with_options` does with `header`
/// followed by the bytes `input` as its reader, with options that give the
/// unpacked size `unpacked_size` (so that it is not read from the header),
/// the memory limit `memlimit` and whether incomplete streams are allowed:
/// where it succeeds, the bytes it decodes and how many bytes of `input` it
/// reads; `None` where it fails.
pub uninterp spec fn lzma_decoded(
    header: Seq<u8>,
    input: Seq<u8>,
    unpacked_size: u64,
    memlimit: usize,
    allow_incomplete: bool,
) -> Option<(Seq<u8>, nat)>;

/// Calls `lzma_rs::lzma_decompress_with_options` on `header` chained with
/// `input`, with the options described at `lzma_decoded`, and returns its
/// outcome (I/O and short-header errors as they are, others wrapped in an
/// I/O error) with the number of bytes of `input` it left unread. Where it
/// succeeds, it appended the decoded bytes and read the count that
/// `lzma_decoded` names; either way `out` keeps what it held. With a
/// five-byte header and no input it fails: the header is read as the
/// property byte and dictionary size, and the range decoder then needs five
/// bytes more.
#[verifier::external_body]
fn lzma_decompress_into(
    header: &[u8],
    input: &[u8],
    out: &mut Vec<u8>,
    unpacked_size: u64,
    memlimit: usize,
    allow_incomplete: bool,
) -> (r: (Result<(), std::io::Error>, usize))
    ensures
        r.1 <= input@.len(),
        final(out)@.len() >= old(out)@.len(),
        final(out)@.subrange(0, old(out)@.len() as int) == old(out)@,
        r.0 is Ok <==> lzma_decoded(header@, input@, unpacked_size, memlimit, allow_incomplete) is Some,
        lzma_decoded(header@, input@, unpacked_size, memlimit, allow_incomplete) matches Some((d, n))
            ==> final(out)@ == old(out)@ + d && r.1 == input@.len() - n,
        header@.len() == 5 && input@.len() == 0 ==> r.0 is Err,
{
    let options = lzma_rs::decompress::Options {
        unpacked_size: lzma_rs::decompress::UnpackedSize::UseProvided(Some(unpacked_size)),
        memlimit: Some(memlimit),
        allow_incomplete,
    };
    let mut rest: &[u8] = input;
    let res = match lzma_rs::lzma_decompress_with_options(&mut header.chain(&mut rest), out, &options) {
        Ok(()) => Ok(()),
        Err(lzma_rs::error::Error::IoError(e)) => Err(e),
        Err(lzma_rs::error::Error::HeaderTooShort(e)) => Err(e),
        Err(e) => Err(std::io::Error::new(std::io::ErrorKind::Other, e)),
    };
    (res, rest.len())
}

/// Reads an LZMA stream held in memory, whose header the coder's properties
/// hold: decodes it into a cache, then hands out the cache's bytes to the
/// reads that follow.
pub struct LzmaReader {
    input: Vec<u8>,
    input_pos: usize,
    props_byte: u8,
    dict_size: u32,
    unpacked_size: u64,
    memlimit: usize,
    allow_incomplete: bool,
    cache: Vec<u8>,
    cache_start: usize,
    handed: Ghost<Seq<u8>>,
    produced: Ghost<Seq<u8>>,
}

impl LzmaReader {
    /// The decoded bytes held.
    pub closed spec fn cached(&self) -> Seq<u8> {
        self.cache@
    }

    /// How many of the held bytes have been handed out.
    pub closed spec fn cache_pos(&self) -> nat {
        self.cache_start as nat
    }

    /// The input that the decoder has not read yet.
    pub closed spec fn rest(&self) -> Seq<u8> {
        self.input@.skip(self.input_pos as int)
    }

    /// Every byte handed out by the reads so far, in order.
    pub closed spec fn handed(&self) -> Seq<u8> {
        self.handed@
    }

    /// Every byte that the decoder has appended to the cache so far, in order.
    pub closed spec fn produced(&self) -> Seq<u8> {
        self.produced@
    }

    /// What the reader holds, as the reads see it.
    pub open spec fn state(&self) -> CacheState {
        CacheState {
            cache: self.cached(),
            pos: self.cache_pos(),
            rest: self.rest(),
            handed: self.handed(),
            produced: self.produced(),
        }
    }

    /// The header handed to the decoder: property byte and dictionary size.
    pub closed spec fn header(&self) -> Seq<u8> {
        lzma_header(self.props_byte, self.dict_size)
    }

    /// The unpacked size, the memory limit, and whether incomplete streams
    /// are allowed, as handed to the decoder.
    pub closed spec fn limits(&self) -> (u64, usize, bool) {
        (self.unpacked_size, self.memlimit, self.allow_incomplete)
    }

    /// What a refill decodes from the input that is left.
    pub open spec fn refill_outcome(&self) -> Option<(Seq<u8>, nat)> {
        lzma_decoded(self.header(), self.rest(), self.limits().0, self.limits().1, self.limits().2)
    }

    /// The reader's invariant: it never hands out more than it holds, and
    /// what it handed out followed by what it holds and has not handed out
    /// is what the decoder produced.
    pub closed spec fn wf(&self) -> bool {
        &&& self.cache_start <= self.cache@.len()
        &&& self.input_pos <= self.input@.len()
        &&& self.handed@ + self.cache@.skip(self.cache_start as int) == self.produced@
    }

    /// A reader over the raw LZMA stream `input` for a coder whose
    /// properties hold the LZMA property byte and dictionary size (at least
    /// five bytes), producing `uncompressed_len` bytes with a memory limit
    /// of `memlimit`, allowing incomplete streams.
    pub fn new(input: Vec<u8>, coder: &Coder, uncompressed_len: usize, memlimit: usize) -> (s: Self)
        requires
            coder.properties@.len() >= 5,
        ensures
            s.wf(),
            s.cached().len() == 0,
            s.cache_pos() == 0,
            s.rest() == input@,
            s.handed().len() == 0,
            s.produced().len() == 0,
            s.header() == lzma_header(coder.properties@[0], lzma_dict_size_of(coder.properties@)),
            s.limits() == (uncompressed_len as u64, memlimit, true),
    {
        let props_byte = coder.properties[0];
        let dict_size = get_dic_size(coder);
        let s = LzmaReader {
            input,
            input_pos: 0,
            props_byte,
            dict_size,
            unpacked_size: uncompressed_len as u64,
            memlimit,
            allow_incomplete: true,
            cache: Vec::with_capacity(8192),
            cache_start: 0,
            handed: Ghost(Seq::empty()),
            produced: Ghost(Seq::empty()),
        };
        assert(s.input@.skip(0) =~= s.input@);
        assert(s.handed@ + s.cache@.skip(0) =~= s.produced@);
        s
    }

    /// Reads decoded bytes into `buf`, as `caching_read` describes; a refill
    /// hands the decoder the header, then the input that is left, with the
    /// reader's unpacked size, memory limit and incomplete-stream flag, and
    /// fails where no input is left.
    pub fn read(&mut self, buf: &mut [u8]) -> (r: Result<usize, std::io::Error>)
        requires
            old(self).wf(),
        ensures
            final(self).wf(),
            final(self).header() == old(self).header(),
            final(self).limits() == old(self).limits(),
            caching_read(
                old(self).state(),
                old(buf)@,
                final(self).state(),
                final(buf)@,
                r,
                old(self).refill_outcome(),
            ),
            fails_without_input(old(self).state(), old(buf)@, r),
    {
        if buf.len() == 0 {
            return Ok(0);
        }
        let start = self.cache_start;
        if start > 0 && start < self.cache.len() {
            let cache_end = if buf.len() < self.cache.len() - start {
                start + buf.len()
            } else {
                self.cache.len()
            };
            let len = cache_end - start;
            copy_to_front(buf, self.cache.as_slice(), start, len);
            self.cache_start = cache_end;
            proof {
                lemma_hand_out(self.handed@, old(self).cache@, start as int, cache_end as int, self.produced@);
                self.handed@ = self.handed@ + self.cache@.subrange(start as int, cache_end as int);
                assert(buf@.take(len as int) =~= self.cache@.subrange(start as int, cache_end as int));
            }
            return Ok(len);
        } else if start > 0 && start == self.cache.len() {
            self.cache.clear();
            self.cache_start = 0;
            assert(old(self).cache@.skip(start as int) =~= Seq::<u8>::empty());
        }
        let mut header: Vec<u8> = Vec::new();
        header.push(self.props_byte);
        let d = u32_le_bytes(self.dict_size);
        proof {
            lemma_le_bytes_index(self.dict_size as u64, 4);
        }
        header.push(d[0]);
        header.push(d[1]);
        header.push(d[2]);
        header.push(d[3]);
        assert(header@ =~= lzma_header(self.props_byte, self.dict_size));
        let ghost base = self.cache@;
        let (res, left) = lzma_decompress_into(
            header.as_slice(),
            &self.input.as_slice()[self.input_pos..self.input.len()],
            &mut self.cache,
            self.unpacked_size,
            self.memlimit,
            self.allow_incomplete,
        );
        proof {
            assert(self.input@.subrange(self.input_pos as int, self.input@.len() as int) =~= old(self).rest());
            self.produced@ = self.produced@ + self.cache@.skip(base.len() as int);
            assert(self.cache@ =~= base + self.cache@.skip(base.len() as int));
        }
        let ghost rest_before = self.input@.skip(self.input_pos as int);
        let used = (self.input.len() - self.input_pos) - left;
        self.input_pos = self.input_pos + used;
        proof {
            assert(self.input@.skip(self.input_pos as int) =~= rest_before.skip(used as int));
            assert(self.handed@ + self.cache@.skip(0) =~= self.produced@);
        }
        match res {
            Ok(()) => {
                let len = self.cache.len();
                let cache_start = if len < buf.len() {
                    len
                } else {
                    buf.len()
                };
                copy_to_front(buf, self.cache.as_slice(), 0, cache_start);
                self.cache_start = cache_start;
                proof {
                    lemma_hand_out(self.handed@, self.cache@, 0, cache_start as int, self.produced@);
                    self.handed@ = self.handed@ + self.cache@.subrange(0, cache_start as int);
                    assert(buf@.take(cache_start as int) =~= self.cache@.subrange(0, cache_start as int));
                    assert(self.cache@.subrange(0, cache_start as int) =~= self.cache@.take(cache_start as int));
                }
                Ok(cache_start)
            },
            Err(e) => Err(e),
        }
    }
}

/// What the LZMA reader keeps: the bytes handed out so far, followed by the
/// held bytes not handed out yet, are the bytes the decoder produced; so
/// what the reads hand out is, in order and with nothing repeated or
/// skipped, a prefix of what the decoder produced.
pub proof fn lemma_lzma_reader_hands_out_prefix(r: LzmaReader)
    requires
        r.wf(),
    ensures
        r.cache_pos() <= r.cached().len(),
        r.handed() + r.cached().skip(r.cache_pos() as int) == r.produced(),
        r.handed() == r.produced().take(r.handed().len() as int),
{
    assert(r.handed() =~= r.produced().take(r.handed().len() as int));
}

} // verus!
