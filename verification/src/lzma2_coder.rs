use vstd::prelude::*;

use crate::error::Error;
use crate::folder::Coder;

verus! {

/// The dictionary size that the LZMA2 property byte `p` stands for, where
/// `p <= 40`: `2 | (p & 1)` shifted left by `p / 2 + 11`, and `0xFFFF_FFFF` for 40.
pub open spec fn lzma2_dict_size_of(p: u8) -> u32 {
    if p == 40 {
        0xFFFF_FFFFu32
    } else {
        ((2u32 | (p as u32 & 1u32)) << (p as u32 / 2u32 + 11u32)) as u32
    }
}

/// Why LZMA2 coder properties announce no dictionary size: empty
/// properties, unknown property bits, or a size above 4 GiB; `None` where
/// they announce one.
pub open spec fn lzma2_dict_size_error(props: Seq<u8>) -> Option<Seq<char>> {
    if props.len() < 1 {
        Some("LZMA2 properties too short"@)
    } else if props[0] >= 64 {
        Some("Unsupported LZMA2 property bits"@)
    } else if props[0] > 40 {
        Some("Dictionary larger than 4GiB maximum size"@)
    } else {
        None
    }
}

/// Whether `r` is the outcome that LZMA2 coder properties `props` call for:
/// the error that `lzma2_dict_size_error` names, else the dictionary size
/// of the first property byte.
pub open spec fn lzma2_dict_size_outcome<T>(props: Seq<u8>, r: Result<T, Error>, size: spec_fn(T) -> u32) -> bool {
    match lzma2_dict_size_error(props) {
        Some(msg) => r matches Err(Error::Other(m)) && m@ == msg,
        None => r matches Ok(v) && size(v) == lzma2_dict_size_of(props[0]),
    }
}

/// The dictionary size that an LZMA2 coder's properties announce; errors on
/// properties that are empty or whose first byte is not a valid LZMA2 property.
pub fn get_dic_size(coder: &Coder) -> (r: Result<u32, Error>)
    ensures
        lzma2_dict_size_outcome(coder.properties@, r, |d: u32| d),
{
    if coder.properties.len() < 1 {
        return Err(Error::other("LZMA2 properties too short"));
    }
    let p: u8 = coder.properties[0];
    let dict_size_bits: u32 = 0xff & p as u32;
    assert(dict_size_bits == p as u32) by (bit_vector)
        requires
            dict_size_bits == 0xff & p as u32,
    ;
    if (dict_size_bits & (!0x3fu32)) != 0 {
        assert(dict_size_bits >= 64) by (bit_vector)
            requires
                dict_size_bits & (!0x3fu32) != 0,
        ;
        return Err(Error::other("Unsupported LZMA2 property bits"));
    }
    assert(dict_size_bits < 64) by (bit_vector)
        requires
            dict_size_bits & (!0x3fu32) == 0,
    ;
    if dict_size_bits > 40 {
        return Err(Error::other("Dictionary larger than 4GiB maximum size"));
    }
    if dict_size_bits == 40 {
        return Ok(0xFFFFffff);
    }
    let size: u32 = (2 | (dict_size_bits & 0x1)) << (dict_size_bits / 2 + 11);
    Ok(size)
}

/// What `lzma_rs::lzma2_decompress` does with the bytes `input` as its
/// reader: where it succeeds, the bytes it decodes and how many input bytes
/// it reads; `None` where it fails.
pub uninterp spec fn lzma2_decoded(input: Seq<u8>) -> Option<(Seq<u8>, nat)>;

/// Calls `lzma_rs::lzma2_decompress` with `input` as its reader and `out`
/// as its writer, and returns its outcome (I/O and short-header errors as
/// they are, others wrapped in an I/O error) with the number of input bytes
/// it left unread. Where it succeeds, it appended the decoded bytes and read the
/// count that `lzma2_decoded` names; either way `out` keeps what it held.
/// With no input it fails: the decoder's first step reads a chunk's control
/// byte.
#[verifier::external_body]
fn lzma2_decompress_into(input: &[u8], out: &mut Vec<u8>) -> (r: (Result<(), std::io::Error>, usize))
    ensures
        r.1 <= input@.len(),
        final(out)@.len() >= old(out)@.len(),
        final(out)@.subrange(0, old(out)@.len() as int) == old(out)@,
        r.0 is Ok <==> lzma2_decoded(input@) is Some,
        lzma2_decoded(input@) matches Some((d, n)) ==> final(out)@ == old(out)@ + d && r.1 == input@.len() - n,
        input@.len() == 0 ==> r.0 is Err,
{
    let mut rest: &[u8] = input;
    let res = match lzma_rs::lzma2_decompress(&mut rest, out) {
        Ok(()) => Ok(()),
        Err(lzma_rs::error::Error::IoError(e)) => Err(e),
        Err(lzma_rs::error::Error::HeaderTooShort(e)) => Err(e),
        Err(e) => Err(std::io::Error::new(std::io::ErrorKind::Other, e)),
    };
    (res, rest.len())
}

/// Copies `src[start..start + n]` to the front of `buf`.
pub(crate) fn copy_to_front(buf: &mut [u8], src: &[u8], start: usize, n: usize)
    requires
        n <= old(buf)@.len(),
        start + n <= src@.len(),
    ensures
        final(buf)@ == src@.subrange(start as int, start + n) + old(buf)@.skip(n as int),
{
    let mut i: usize = 0;
    let src_len = src.len();
    while i < n
        invariant
            src_len == src@.len(),
            i <= n,
            n <= buf@.len(),
            buf@.len() == old(buf)@.len(),
            start + n <= src@.len(),
            buf@ == src@.subrange(start as int, start + i) + old(buf)@.skip(i as int),
        decreases n - i,
    {
        buf[i] = src[start + i];
        i += 1;
        assert(buf@ =~= src@.subrange(start as int, start + i) + old(buf)@.skip(i as int));
    }
}

/// Whether a read into `buf` refills the cache: the buffer is not empty,
/// and no held byte remains to hand out, or none has been handed out yet.
pub open spec fn refills(cache: Seq<u8>, pos: nat, buf: Seq<u8>) -> bool {
    buf.len() > 0 && !(0 < pos < cache.len())
}

/// The decoded bytes of a decoder outcome.
pub open spec fn decoded_bytes(outcome: Option<(Seq<u8>, nat)>) -> Option<Seq<u8>> {
    match outcome {
        Some((d, _)) => Some(d),
        None => None,
    }
}

/// Whether one read of a caching decoder went as it should, where a refill
/// would decode `refill` (`None` where the decoder fails). A read into an
/// empty buffer does nothing and returns 0. While some but not all held
/// bytes have been handed out, the read hands out the next ones, as many as
/// fit. Otherwise the cache (emptied once all of it has been handed out) is
/// refilled: on success the decoded bytes are appended and the read hands
/// out the cache's first bytes, as many as fit; on failure the decoder may
/// have appended some bytes, the buffer is untouched and nothing counts as
/// handed out.
pub open spec fn cache_read(
    cache: Seq<u8>,
    pos: nat,
    buf: Seq<u8>,
    cache2: Seq<u8>,
    pos2: nat,
    buf2: Seq<u8>,
    r: Result<usize, std::io::Error>,
    refill: Option<Seq<u8>>,
) -> bool {
    if buf.len() == 0 {
        &&& r matches Ok(n) && n == 0
        &&& cache2 == cache
        &&& pos2 == pos
        &&& buf2 == buf
    } else if 0 < pos < cache.len() {
        let end: int = if pos + buf.len() < cache.len() {
            (pos + buf.len()) as int
        } else {
            cache.len() as int
        };
        &&& r matches Ok(n) && n == end - pos
        &&& cache2 == cache
        &&& pos2 == end
        &&& buf2 == cache.subrange(pos as int, end) + buf.skip(end - pos)
    } else {
        let base = if pos > 0 {
            Seq::<u8>::empty()
        } else {
            cache
        };
        match refill {
            Some(d) => {
                &&& cache2 == base + d
                &&& r matches Ok(n) && n == (if cache2.len() < buf.len() {
                    cache2.len()
                } else {
                    buf.len()
                }) && pos2 == n && buf2 == cache2.take(n as int) + buf.skip(n as int)
            },
            None => {
                &&& r is Err
                &&& cache2.len() >= base.len()
                &&& cache2.subrange(0, base.len() as int) == base
                &&& pos2 == 0
                &&& buf2 == buf
            },
        }
    }
}

/// Whether the input left after a read is as it should be: untouched
/// unless the read refills; after a successful refill, the input less what
/// the decoder read; after a failed one, some suffix of it.
pub open spec fn input_after_read(
    refilled: bool,
    outcome: Option<(Seq<u8>, nat)>,
    rest: Seq<u8>,
    rest2: Seq<u8>,
) -> bool {
    if !refilled {
        rest2 == rest
    } else {
        match outcome {
            Some((_, n)) => rest2 == rest.skip(n as int),
            None => rest2.len() <= rest.len() && rest2 == rest.skip(rest.len() - rest2.len()),
        }
    }
}

/// How the record of what a read handed out and what the decoder produced
/// moves: a successful read adds the bytes it placed in the buffer to what
/// was handed out, a failed one adds nothing; a successful refill adds the
/// decoded bytes to what was produced, a failed one adds what the decoder
/// appended before failing, and a read from the cache adds nothing.
pub open spec fn record_after_read(
    cache: Seq<u8>,
    pos: nat,
    buf: Seq<u8>,
    cache2: Seq<u8>,
    buf2: Seq<u8>,
    r: Result<usize, std::io::Error>,
    handed: Seq<u8>,
    produced: Seq<u8>,
    handed2: Seq<u8>,
    produced2: Seq<u8>,
) -> bool {
    &&& match r {
        Ok(n) => handed2 == handed + buf2.take(n as int),
        Err(_) => handed2 == handed,
    }
    &&& refills(cache, pos, buf) ==> {
        let base_len: int = if pos > 0 {
            0
        } else {
            cache.len() as int
        };
        produced2 == produced + cache2.skip(base_len)
    }
    &&& !refills(cache, pos, buf) ==> produced2 == produced
}

/// What a caching reader holds, as the reads see it: the decoded bytes
/// held, how many of them have been handed out, the input the decoder has
/// not read yet, every byte handed out so far, and every byte the decoder
/// has produced so far.
pub struct CacheState {
    pub cache: Seq<u8>,
    pub pos: nat,
    pub rest: Seq<u8>,
    pub handed: Seq<u8>,
    pub produced: Seq<u8>,
}

/// One read of a caching reader, from state `s` with buffer `buf` to state
/// `s2` with buffer `buf2` and result `res`, where a refill would have the
/// decoder outcome `outcome` on the input that is left: the cache and
/// buffer move as `cache_read` says, the input as `input_after_read`, and
/// the record of what was handed out and produced as `record_after_read`.
pub open spec fn caching_read(
    s: CacheState,
    buf: Seq<u8>,
    s2: CacheState,
    buf2: Seq<u8>,
    res: Result<usize, std::io::Error>,
    outcome: Option<(Seq<u8>, nat)>,
) -> bool {
    &&& cache_read(s.cache, s.pos, buf, s2.cache, s2.pos, buf2, res, decoded_bytes(outcome))
    &&& input_after_read(refills(s.cache, s.pos, buf), outcome, s.rest, s2.rest)
    &&& record_after_read(
        s.cache,
        s.pos,
        buf,
        s2.cache,
        buf2,
        res,
        s.handed,
        s.produced,
        s2.handed,
        s2.produced,
    )
}

/// A reader that has read nothing: it holds nothing, and has neither handed
/// out nor produced a byte.
pub open spec fn unread(s: CacheState) -> bool {
    &&& s.cache.len() == 0
    &&& s.pos == 0
    &&& s.handed.len() == 0
    &&& s.produced.len() == 0
}

/// A reader that serves the decoding `d`: the decoder produced exactly `d`,
/// the reader holds it, and what it handed out is the first part of `d`, the
/// position in the cache marking how far.
pub open spec fn serving(s: CacheState, d: Seq<u8>) -> bool {
    &&& s.produced == d
    &&& s.cache == d
    &&& s.pos == s.handed.len()
    &&& s.handed.len() <= d.len()
    &&& s.handed == d.take(s.handed.len() as int)
    &&& (s.pos > 0 || d.len() == 0)
}

/// The first read into a non-empty buffer of a reader that has read
/// nothing, where the decoder decodes `d` from the input, reading `k` bytes:
/// it hands out the first bytes of `d`, as many as fit, and the reader then
/// serves `d`, with the input less the `k` bytes read.
pub proof fn lemma_first_read_starts_decoding(
    s: CacheState,
    buf: Seq<u8>,
    s2: CacheState,
    buf2: Seq<u8>,
    res: Result<usize, std::io::Error>,
    d: Seq<u8>,
    k: nat,
)
    requires
        unread(s),
        buf.len() > 0,
        caching_read(s, buf, s2, buf2, res, Some((d, k))),
    ensures
        ({
            let n = if d.len() < buf.len() {
                d.len()
            } else {
                buf.len()
            };
            &&& res matches Ok(m) && m == n
            &&& buf2.take(n as int) == d.take(n as int)
            &&& s2.handed == d.take(n as int)
        }),
        serving(s2, d),
        s2.rest == s.rest.skip(k as int),
{
    let n = if d.len() < buf.len() {
        d.len()
    } else {
        buf.len()
    };
    assert(s.cache + d =~= d);
    assert(s2.cache == d);
    assert(s2.handed =~= buf2.take(n as int));
    assert(buf2.take(n as int) =~= d.take(n as int));
    assert(s2.cache.skip(0) =~= d);
    assert(s2.produced =~= d);
}

/// A read of a reader that serves `d`, into an empty buffer or while part of
/// `d` is still to be handed out: it hands out the next bytes of `d`, as many
/// as fit (at least one where the buffer is not empty), leaves the input
/// alone, and the reader still serves `d`. So successive reads hand out `d`
/// in order, nothing repeated or skipped, and make progress until all of it
/// is handed out.
pub proof fn lemma_serving_read_continues(
    s: CacheState,
    buf: Seq<u8>,
    s2: CacheState,
    buf2: Seq<u8>,
    res: Result<usize, std::io::Error>,
    outcome: Option<(Seq<u8>, nat)>,
    d: Seq<u8>,
)
    requires
        serving(s, d),
        buf.len() == 0 || s.handed.len() < d.len(),
        caching_read(s, buf, s2, buf2, res, outcome),
    ensures
        ({
            let h = s.handed.len();
            let n = if buf.len() < d.len() - h {
                buf.len()
            } else {
                (d.len() - h) as nat
            };
            &&& res matches Ok(m) && m == n
            &&& (buf.len() > 0 ==> n > 0)
            &&& buf2.take(n as int) == d.subrange(h as int, (h + n) as int)
            &&& s2.handed == d.take((h + n) as int)
        }),
        serving(s2, d),
        s2.rest == s.rest,
{
    let h = s.handed.len();
    if buf.len() == 0 {
        assert(buf2.take(0) =~= Seq::<u8>::empty());
        assert(s2.handed =~= s.handed);
        assert(d.subrange(h as int, h as int) =~= Seq::<u8>::empty());
    } else {
        let end: int = if s.pos + buf.len() < s.cache.len() {
            (s.pos + buf.len()) as int
        } else {
            s.cache.len() as int
        };
        assert(buf2.take(end - h) =~= d.subrange(h as int, end));
        assert(s2.handed =~= d.take(end));
        assert(s2.handed.len() == end);
    }
}

/// A reader whose input is used up and which holds nothing more to hand
/// out: every read into a non-empty buffer refills from no input.
pub open spec fn ended(s: CacheState) -> bool {
    &&& s.rest.len() == 0
    &&& !(0 < s.pos < s.cache.len())
}

/// A reader that serves `d` and has handed out all of it, where the decoder
/// read the whole input, has ended.
pub proof fn lemma_served_all_has_ended(s: CacheState, d: Seq<u8>)
    requires
        serving(s, d),
        s.handed.len() == d.len(),
        s.rest.len() == 0,
    ensures
        ended(s),
{
}

/// Whether a read that refills from no input at all fails.
pub open spec fn fails_without_input(s: CacheState, buf: Seq<u8>, res: Result<usize, std::io::Error>) -> bool {
    refills(s.cache, s.pos, buf) && s.rest.len() == 0 ==> res is Err
}

/// Once a caching reader has ended, and a refill from no input fails, a
/// read into a non-empty buffer fails and hands out nothing, and the reader
/// stays ended; so after the whole stream has been handed out, nothing more
/// comes.
pub proof fn lemma_ended_read_fails(
    s: CacheState,
    buf: Seq<u8>,
    s2: CacheState,
    buf2: Seq<u8>,
    res: Result<usize, std::io::Error>,
    outcome: Option<(Seq<u8>, nat)>,
)
    requires
        ended(s),
        buf.len() > 0,
        caching_read(s, buf, s2, buf2, res, outcome),
        fails_without_input(s, buf, res),
    ensures
        res is Err,
        s2.handed == s.handed,
        ended(s2),
{
}

/// Reads an LZMA2 stream held in memory: decodes it into a cache, then hands
/// out the cache's bytes to the reads that follow.
pub struct Lzma2Reader {
    input: Vec<u8>,
    input_pos: usize,
    cache: Vec<u8>,
    cache_start: usize,
    handed: Ghost<Seq<u8>>,
    produced: Ghost<Seq<u8>>,
}

impl Lzma2Reader {
    /// The decoded bytes held.
    pub closed spec fn cached(&self) -> Seq<u8> {
        self.cache@
    }

    /// How many of the held bytes have been handed out.
    pub closed spec fn cache_pos(&self) -> nat {
        self.cache_start as nat
    }

    /// The input that the decoder has not read yet.
    pub closed spec fn rest(&self) -> Seq<u8> {
        self.input@.skip(self.input_pos as int)
    }

    /// Every byte handed out by the reads so far, in order.
    pub closed spec fn handed(&self) -> Seq<u8> {
        self.handed@
    }

    /// Every byte that the decoder has appended to the cache so far, in order.
    pub closed spec fn produced(&self) -> Seq<u8> {
        self.produced@
    }

    /// What the reader holds, as the reads see it.
    pub open spec fn state(&self) -> CacheState {
        CacheState {
            cache: self.cached(),
            pos: self.cache_pos(),
            rest: self.rest(),
            handed: self.handed(),
            produced: self.produced(),
        }
    }

    /// The reader's invariant: it never hands out more than it holds, and
    /// what it handed out followed by what it holds and has not handed out
    /// is what the decoder produced.
    pub closed spec fn wf(&self) -> bool {
        &&& self.cache_start <= self.cache@.len()
        &&& self.input_pos <= self.input@.len()
        &&& self.handed@ + self.cache@.skip(self.cache_start as int) == self.produced@
    }

    /// A reader over the LZMA2 stream `input` for a coder whose properties
    /// announce a valid LZMA2 dictionary size; fails as `get_dic_size` does
    /// otherwise.
    pub fn new(input: Vec<u8>, coder: &Coder) -> (r: Result<Self, Error>)
        ensures
            lzma2_dict_size_error(coder.properties@) is Some ==> lzma2_dict_size_outcome(
                coder.properties@,
                r,
                |s: Self| 0u32,
            ),
            lzma2_dict_size_error(coder.properties@) is None ==> (r matches Ok(s) && s.wf()
                && s.cached().len() == 0 && s.cache_pos() == 0 && s.rest() == input@
                && s.handed().len() == 0 && s.produced().len() == 0),
    {
        let _dict_size = match get_dic_size(coder) {
            Ok(d) => d,
            Err(e) => {
                return Err(e);
            },
        };
        let r = Lzma2Reader {
            input,
            input_pos: 0,
            cache: Vec::with_capacity(8192),
            cache_start: 0,
            handed: Ghost(Seq::empty()),
            produced: Ghost(Seq::empty()),
        };
        assert(r.input@.skip(0) =~= r.input@);
        assert(r.handed@ + r.cache@.skip(0) =~= r.produced@);
        Ok(r)
    }

    /// Reads decoded bytes into `buf`, as `caching_read` describes, a refill
    /// decoding the input that is left; a refill from no input fails.
    pub fn read(&mut self, buf: &mut [u8]) -> (r: Result<usize, std::io::Error>)
        requires
            old(self).wf(),
        ensures
            final(self).wf(),
            caching_read(
                old(self).state(),
                old(buf)@,
                final(self).state(),
                final(buf)@,
                r,
                lzma2_decoded(old(self).rest()),
            ),
            fails_without_input(old(self).state(), old(buf)@, r),
    {
        if buf.len() == 0 {
            return Ok(0);
        }
        let start = self.cache_start;
        if start > 0 && start < self.cache.len() {
            let cache_end = if buf.len() < self.cache.len() - start {
                start + buf.len()
            } else {
                self.cache.len()
            };
            let len = cache_end - start;
            copy_to_front(buf, self.cache.as_slice(), start, len);
            self.cache_start = cache_end;
            proof {
                lemma_hand_out(self.handed@, old(self).cache@, start as int, cache_end as int, self.produced@);
                self.handed@ = self.handed@ + self.cache@.subrange(start as int, cache_end as int);
                assert(buf@.take(len as int) =~= self.cache@.subrange(start as int, cache_end as int));
            }
            return Ok(len);
        } else if start > 0 && start == self.cache.len() {
            self.cache.clear();
            self.cache_start = 0;
            assert(old(self).cache@.skip(start as int) =~= Seq::<u8>::empty());
        }
        let ghost base = self.cache@;
        let (res, left) = lzma2_decompress_into(&self.input.as_slice()[self.input_pos..self.input.len()], &mut self.cache);
        proof {
            assert(self.input@.subrange(self.input_pos as int, self.input@.len() as int) =~= old(self).rest());
            self.produced@ = self.produced@ + self.cache@.skip(base.len() as int);
            assert(self.cache@ =~= base + self.cache@.skip(base.len() as int));
        }
        let ghost rest_before = self.input@.skip(self.input_pos as int);
        let used = (self.input.len() - self.input_pos) - left;
        self.input_pos = self.input_pos + used;
        proof {
            assert(self.input@.skip(self.input_pos as int) =~= rest_before.skip(used as int));
            assert(self.handed@ + self.cache@.skip(0) =~= self.produced@);
        }
        match res {
            Ok(()) => {
                let len = self.cache.len();
                let cache_start = if len < buf.len() {
                    len
                } else {
                    buf.len()
                };
                copy_to_front(buf, self.cache.as_slice(), 0, cache_start);
                self.cache_start = cache_start;
                proof {
                    lemma_hand_out(self.handed@, self.cache@, 0, cache_start as int, self.produced@);
                    self.handed@ = self.handed@ + self.cache@.subrange(0, cache_start as int);
                    assert(buf@.take(cache_start as int) =~= self.cache@.subrange(0, cache_start as int));
                    assert(self.cache@.subrange(0, cache_start as int) =~= self.cache@.take(cache_start as int));
                }
                Ok(cache_start)
            },
            Err(e) => Err(e),
        }
    }
}

/// Handing out `cache[start..end]` keeps the record of what was handed out
/// and what is held in step with what was produced.
pub(crate) proof fn lemma_hand_out(handed: Seq<u8>, cache: Seq<u8>, start: int, end: int, produced: Seq<u8>)
    requires
        0 <= start <= end <= cache.len(),
        handed + cache.skip(start) == produced,
    ensures
        (handed + cache.subrange(start, end)) + cache.skip(end) == produced,
{
    assert((handed + cache.subrange(start, end)) + cache.skip(end) =~= handed + cache.skip(start));
}

/// What the caching readers keep: the bytes handed out so far, followed by
/// the held bytes not handed out yet, are the bytes the decoder produced;
/// so what the reads hand out is, in order and with nothing repeated or
/// skipped, a prefix of what the decoder produced.
pub proof fn lemma_lzma2_reader_hands_out_prefix(r: Lzma2Reader)
    requires
        r.wf(),
    ensures
        r.cache_pos() <= r.cached().len(),
        r.handed() + r.cached().skip(r.cache_pos() as int) == r.produced(),
        r.handed() == r.produced().take(r.handed().len() as int),
{
    assert(r.handed() =~= r.produced().take(r.handed().len() as int));
}

} // verus!
