use vstd::prelude::*;

use crate::archive::{
    seven_z_signature, SevenZArchiveEntry, SevenZMethod, SevenZMethodConfiguration, K_END,
    K_HEADER, K_MAIN_STREAMS_INFO, K_SUB_STREAMS_INFO,
};
use crate::checksum::{crc32_checksum, crc32_of};
use crate::encoders::{add_encoder, lzma2_options_of, Encoder};
use crate::error::Error;
use crate::files_info::{spec_files_info, write_files_info};
use crate::header::{
    all_recordable, extend_bytes, lemma_count_where_bound, num_streams,
    spec_pack_info, spec_unpack_info, write_pack_info, write_unpack_info,
};
use crate::header_codec::{le_bytes, le_value, lemma_le_value_of_le_bytes, u32_le_bytes, u64_le_bytes};

verus! {

// ---------------------------------------------------------------------------
// The coder chain of an entry.

/// Whether this crate can encode with every method of the chain.
pub open spec fn chain_ok(methods: Seq<SevenZMethodConfiguration>) -> bool {
    forall|i: int| 0 <= i < methods.len() ==> (#[trigger] methods[i]).method == SevenZMethod::LZMA2
}

/// The encoders of a chain that `chain_ok` accepts.
pub open spec fn chain_encoders(methods: Seq<SevenZMethodConfiguration>) -> Seq<Encoder> {
    methods.map_values(|mc: SevenZMethodConfiguration| Encoder::LZMA2(lzma2_options_of(mc.options)))
}

/// The output of stage `i` of the chain for the input `data`: the last
/// stage reads `data`, every other stage reads what the next one wrote.
pub open spec fn stage_output(encoders: Seq<Encoder>, data: Seq<u8>, i: int) -> Seq<u8>
    decreases encoders.len() - i,
{
    if i >= encoders.len() - 1 {
        encoders[i].spec_encode(data)
    } else {
        encoders[i].spec_encode(stage_output(encoders, data, i + 1))
    }
}

/// The packed stream that the chain writes for `data`.
pub open spec fn chain_packed(methods: Seq<SevenZMethodConfiguration>, data: Seq<u8>) -> Seq<u8> {
    stage_output(chain_encoders(methods), data, 0)
}

/// The sizes of the streams between the stages of the chain: entry `k` is
/// the size of what stage `k + 1` writes.
pub open spec fn chain_more_sizes(methods: Seq<SevenZMethodConfiguration>, data: Seq<u8>) -> Seq<u64> {
    Seq::new(
        (methods.len() - 1) as nat,
        |k: int| stage_output(chain_encoders(methods), data, k + 1).len() as u64,
    )
}

/// The index of the first method of the chain that this crate cannot
/// encode with.
pub open spec fn first_unencodable(methods: Seq<SevenZMethodConfiguration>) -> int {
    choose|k: int|
        0 <= k < methods.len() && methods[k].method != SevenZMethod::LZMA2 && forall|j: int|
            0 <= j < k ==> (#[trigger] methods[j]).method == SevenZMethod::LZMA2
}

/// The error of `add_encoder` for a method other than LZMA2.
pub open spec fn encoder_error(method: SevenZMethod, e: Error) -> bool {
    if method == SevenZMethod::AES256SHA256 {
        e is PasswordRequired
    } else {
        e matches Error::UnsupportedCompressionMethod(n) && n@ == method.spec_name()
    }
}

pub proof fn lemma_first_unencodable_at(methods: Seq<SevenZMethodConfiguration>, k: int)
    requires
        0 <= k < methods.len(),
        methods[k].method != SevenZMethod::LZMA2,
        forall|j: int| 0 <= j < k ==> (#[trigger] methods[j]).method == SevenZMethod::LZMA2,
    ensures
        first_unencodable(methods) == k,
{
    let c = first_unencodable(methods);
    assert(0 <= c < methods.len() && methods[c].method != SevenZMethod::LZMA2 && forall|j: int|
        0 <= j < c ==> (#[trigger] methods[j]).method == SevenZMethod::LZMA2);
    if c < k {
        assert(methods[c].method == SevenZMethod::LZMA2);
    }
    if k < c {
        assert(methods[k].method == SevenZMethod::LZMA2);
    }
}

/// Runs `data` through the coder chain `methods` (the last method first):
/// returns the packed stream and the sizes of the streams between stages,
/// or the error of the first method that this crate cannot encode with.
pub fn encode_chain(methods: &Vec<SevenZMethodConfiguration>, data: &[u8]) -> (r: Result<
    (Vec<u8>, Vec<u64>),
    Error,
>)
    requires
        methods@.len() > 0,
    ensures
        chain_ok(methods@) ==> (r matches Ok((p, s)) && p@ == chain_packed(methods@, data@) && s@
            == chain_more_sizes(methods@, data@)),
        !chain_ok(methods@) ==> (r matches Err(e) && encoder_error(
            methods@[first_unencodable(methods@)].method,
            e,
        )),
{
    let mut encoders: Vec<Encoder> = Vec::new();
    for i in 0..methods.len()
        invariant
            forall|j: int| 0 <= j < i ==> (#[trigger] methods@[j]).method == SevenZMethod::LZMA2,
            encoders@ == chain_encoders(methods@.take(i as int)),
    {
        match add_encoder(&methods[i]) {
            Ok(enc) => {
                encoders.push(enc);
                assert(encoders@ =~= chain_encoders(methods@.take(i + 1)));
            },
            Err(err) => {
                proof {
                    lemma_first_unencodable_at(methods@, i as int);
                }
                return Err(err);
            },
        }
    }
    assert(methods@.take(methods@.len() as int) =~= methods@);
    let ghost encs = chain_encoders(methods@);
    let n = encoders.len();
    let mut i = n - 1;
    let mut cur = encoders[i].encode(data);
    let mut more: Vec<u64> = Vec::new();
    while i > 0
        invariant
            n == encoders@.len(),
            encoders@ == encs,
            n >= 1,
            i < n,
            cur@ == stage_output(encs, data@, i as int),
            more@ == Seq::new(
                (n - 1 - i) as nat,
                |k: int| stage_output(encs, data@, i + 1 + k).len() as u64,
            ),
        decreases i,
    {
        more.insert(0, cur.len() as u64);
        i -= 1;
        cur = encoders[i].encode(cur.as_slice());
        assert(more@ =~= Seq::new(
            (n - 1 - i) as nat,
            |k: int| stage_output(encs, data@, i + 1 + k).len() as u64,
        ));
    }
    proof {
        assert(chain_ok(methods@));
        assert(more@ =~= chain_more_sizes(methods@, data@));
    }
    Ok((cur, more))
}

// ---------------------------------------------------------------------------
// The archive.

/// The total size of the packed streams of the entries.
pub open spec fn total_packed(files: Seq<SevenZArchiveEntry>) -> int
    decreases files.len(),
{
    if files.len() == 0 {
        0
    } else {
        total_packed(files.drop_last()) + if files.last().has_stream {
            files.last().compressed_size as int
        } else {
            0
        }
    }
}

/// The streams info of the header: pack and unpack info where some entry
/// has a stream, then an empty substreams record.
pub open spec fn spec_streams_info(
    files: Seq<SevenZArchiveEntry>,
    pairs: Seq<(String, Vec<u64>)>,
    num: u64,
) -> Seq<u8> {
    (if num > 0 {
        spec_pack_info(files, num) + spec_unpack_info(files, pairs, num)
    } else {
        Seq::empty()
    }) + seq![K_SUB_STREAMS_INFO, K_END] + seq![K_END]
}

/// The header of an archive with these entries.
pub open spec fn spec_header(
    files: Seq<SevenZArchiveEntry>,
    pairs: Seq<(String, Vec<u64>)>,
    num: u64,
) -> Seq<u8> {
    seq![K_HEADER, K_MAIN_STREAMS_INFO] + spec_streams_info(files, pairs, num) + spec_files_info(
        files,
    ) + seq![K_END]
}

/// The part of the signature header that its checksum covers: the offset
/// of the header from the end of the signature header, the header's length
/// (its low 32 bits), and the header's checksum.
pub open spec fn start_header_body(header_offset: u64, header: Seq<u8>) -> Seq<u8> {
    le_bytes(header_offset, 8) + le_bytes((header.len() as u64) & 0xFFFF_FFFFu64, 8) + le_bytes(
        crc32_of(header) as u64,
        4,
    )
}

/// The 32-byte signature header: the signature, version 0.2, the checksum
/// of the rest, and the rest.
pub open spec fn spec_start_header(header_offset: u64, header: Seq<u8>) -> Seq<u8> {
    seven_z_signature() + seq![0u8, 2u8] + le_bytes(
        crc32_of(start_header_body(header_offset, header)) as u64,
        4,
    ) + start_header_body(header_offset, header)
}

/// A 7z archive: the signature header, the packed streams, then the header.
pub open spec fn spec_archive(packed: Seq<u8>, header: Seq<u8>) -> Seq<u8> {
    spec_start_header(packed.len() as u64, header) + packed + header
}

/// Builds a 7z archive in memory: entries are added one after the other,
/// their data packed through their coder chains, and `finish` returns the
/// whole archive.
pub struct SevenZWriter {
    output: Vec<u8>,
    files: Vec<SevenZArchiveEntry>,
    content_methods: Vec<SevenZMethodConfiguration>,
    additional_sizes: Vec<(String, Vec<u64>)>,
    num_non_empty_streams: usize,
}

/// The fields of an entry that the writer keeps as they were given.
pub open spec fn same_metadata(a: SevenZArchiveEntry, b: SevenZArchiveEntry) -> bool {
    &&& a.name@ == b.name@
    &&& a.is_directory == b.is_directory
    &&& a.is_anti_item == b.is_anti_item
    &&& a.has_creation_date == b.has_creation_date
    &&& a.creation_date == b.creation_date
    &&& a.has_access_date == b.has_access_date
    &&& a.access_date == b.access_date
    &&& a.has_last_modified_date == b.has_last_modified_date
    &&& a.last_modified_date == b.last_modified_date
    &&& a.has_windows_attributes == b.has_windows_attributes
    &&& a.windows_attributes == b.windows_attributes
}

/// The coder chain an entry is packed with: its own, or the writer's where
/// it has none.
pub open spec fn effective_methods(
    entry: SevenZArchiveEntry,
    writer_methods: Seq<SevenZMethodConfiguration>,
) -> Seq<SevenZMethodConfiguration> {
    if entry.content_methods@.len() == 0 {
        writer_methods
    } else {
        entry.content_methods@
    }
}

impl SevenZWriter {
    /// The packed streams written so far, in the order of the entries.
    pub closed spec fn packed(&self) -> Seq<u8> {
        self.output@
    }

    /// The entries added so far, in order.
    pub closed spec fn entries(&self) -> Seq<SevenZArchiveEntry> {
        self.files@
    }

    /// The coder chain for entries that bring none.
    pub closed spec fn methods(&self) -> Seq<SevenZMethodConfiguration> {
        self.content_methods@
    }

    /// The recorded sizes of the streams between coders, by entry name.
    pub closed spec fn size_records(&self) -> Seq<(String, Vec<u64>)> {
        self.additional_sizes@
    }

    /// The number of entries with a stream, as the writer counts them.
    pub closed spec fn stream_count(&self) -> nat {
        self.num_non_empty_streams as nat
    }

    /// The writer's invariant: it counts the entries with a stream, each of
    /// them has a coder chain, and their packed sizes add up to the packed
    /// streams.
    pub closed spec fn wf(&self) -> bool {
        &&& self.num_non_empty_streams == num_streams(self.files@)
        &&& forall|i: int|
            0 <= i < self.files@.len() && (#[trigger] self.files@[i]).has_stream
                ==> self.files@[i].content_methods@.len() > 0
        &&& self.output@.len() == total_packed(self.files@)
    }

    /// The archive that `finish` returns for this writer.
    pub open spec fn spec_finish(&self) -> Seq<u8> {
        spec_archive(
            self.packed(),
            spec_header(self.entries(), self.size_records(), self.stream_count() as u64),
        )
    }

    /// An empty writer whose entries are packed with LZMA2 by default.
    pub fn new() -> (w: Self)
        ensures
            w.wf(),
            w.packed() == Seq::<u8>::empty(),
            w.entries() == Seq::<SevenZArchiveEntry>::empty(),
            w.methods() == seq![SevenZMethodConfiguration { method: SevenZMethod::LZMA2, options: None }],
            w.size_records() == Seq::<(String, Vec<u64>)>::empty(),
            w.stream_count() == 0,
    {
        let mut content_methods = Vec::new();
        content_methods.push(SevenZMethodConfiguration::new(SevenZMethod::LZMA2));
        let w = SevenZWriter {
            output: Vec::new(),
            files: Vec::new(),
            content_methods,
            additional_sizes: Vec::new(),
            num_non_empty_streams: 0,
        };
        assert(w.content_methods@ =~= seq![SevenZMethodConfiguration { method: SevenZMethod::LZMA2, options: None }]);
        w
    }

    /// The entries added so far, in order.
    pub fn files(&self) -> (r: &Vec<SevenZArchiveEntry>)
        ensures
            r@ == self.entries(),
    {
        &self.files
    }

    /// The coder chain for entries that bring none.
    pub fn content_methods(&self) -> (r: &Vec<SevenZMethodConfiguration>)
        ensures
            r@ == self.methods(),
    {
        &self.content_methods
    }

    /// Sets the coder chain for entries that bring none; the default is LZMA2.
    pub fn set_content_methods(&mut self, content_methods: Vec<SevenZMethodConfiguration>)
        requires
            old(self).wf(),
        ensures
            final(self).wf(),
            final(self).methods() == content_methods@,
            final(self).packed() == old(self).packed(),
            final(self).entries() == old(self).entries(),
            final(self).size_records() == old(self).size_records(),
            final(self).stream_count() == old(self).stream_count(),
    {
        self.content_methods = content_methods;
    }

    /// Adds an entry. An entry that is not a directory and comes with data
    /// gets a stream: the data is packed through its coder chain (the
    /// writer's where it has none), and its size, checksum, packed size and
    /// packed checksum are recorded; where the chain has more than one
    /// coder, the sizes between coders are recorded under its name. Any
    /// other entry is recorded without a stream. Fails, changing nothing,
    /// where the chain holds a method that this crate cannot encode with.
    pub fn push_archive_entry(&mut self, entry: SevenZArchiveEntry, data: Option<&[u8]>) -> (r: Result<(), Error>)
        requires
            old(self).wf(),
            old(self).entries().len() < usize::MAX,
            !entry.is_directory && data is Some ==> effective_methods(entry, old(self).methods()).len()
                > 0,
        ensures
            final(self).wf(),
            final(self).methods() == old(self).methods(),
            !entry.is_directory && data is Some ==> {
                let d = data.unwrap()@;
                let ms = effective_methods(entry, old(self).methods());
                let p = chain_packed(ms, d);
                &&& chain_ok(ms) ==> {
                    &&& r is Ok
                    &&& final(self).entries().len() == old(self).entries().len() + 1
                    &&& final(self).entries().drop_last() == old(self).entries()
                    &&& {
                        let e = final(self).entries().last();
                        &&& same_metadata(e, entry)
                        &&& e.content_methods@ == ms
                        &&& e.has_stream
                        &&& e.size == d.len()
                        &&& e.has_crc
                        &&& e.crc == crc32_of(d) as u64
                        &&& e.compressed_crc == crc32_of(p) as u64
                        &&& e.compressed_size == p.len()
                    }
                    &&& final(self).packed() == old(self).packed() + p
                    &&& final(self).stream_count() == old(self).stream_count() + 1
                    &&& ms.len() > 1 ==> {
                        &&& final(self).size_records().drop_last() == old(self).size_records()
                        &&& final(self).size_records().len() == old(self).size_records().len() + 1
                        &&& final(self).size_records().last().0@ == entry.name@
                        &&& final(self).size_records().last().1@ == chain_more_sizes(ms, d)
                    }
                    &&& ms.len() <= 1 ==> final(self).size_records() == old(self).size_records()
                }
                &&& !chain_ok(ms) ==> {
                    &&& r matches Err(e) && encoder_error(ms[first_unencodable(ms)].method, e)
                    &&& final(self).entries() == old(self).entries()
                    &&& final(self).packed() == old(self).packed()
                    &&& final(self).size_records() == old(self).size_records()
                    &&& final(self).stream_count() == old(self).stream_count()
                }
            },
            !(!entry.is_directory && data is Some) ==> {
                &&& r is Ok
                &&& final(self).entries().len() == old(self).entries().len() + 1
                &&& final(self).entries().drop_last() == old(self).entries()
                &&& {
                    let e = final(self).entries().last();
                    &&& same_metadata(e, entry)
                    &&& e.content_methods@ == entry.content_methods@
                    &&& !e.has_stream
                    &&& e.size == 0
                    &&& e.compressed_size == 0
                    &&& !e.has_crc
                    &&& e.crc == entry.crc
                    &&& e.compressed_crc == entry.compressed_crc
                }
                &&& final(self).packed() == old(self).packed()
                &&& final(self).size_records() == old(self).size_records()
                &&& final(self).stream_count() == old(self).stream_count()
            },
    {
        if !entry.is_directory {
            if let Some(d) = data {
                return self.push_stream_entry(entry, d);
            }
        }
        self.push_empty_entry(entry);
        Ok(())
    }

    /// Adds an entry with a stream holding `d`.
    fn push_stream_entry(&mut self, entry: SevenZArchiveEntry, d: &[u8]) -> (r: Result<(), Error>)
        requires
            old(self).wf(),
            old(self).entries().len() < usize::MAX,
            effective_methods(entry, old(self).methods()).len() > 0,
        ensures
            final(self).wf(),
            final(self).methods() == old(self).methods(),
            ({
                let ms = effective_methods(entry, old(self).methods());
                let p = chain_packed(ms, d@);
                &&& chain_ok(ms) ==> {
                    &&& r is Ok
                    &&& final(self).entries().len() == old(self).entries().len() + 1
                    &&& final(self).entries().drop_last() == old(self).entries()
                    &&& {
                        let e = final(self).entries().last();
                        &&& same_metadata(e, entry)
                        &&& e.content_methods@ == ms
                        &&& e.has_stream
                        &&& e.size == d@.len()
                        &&& e.has_crc
                        &&& e.crc == crc32_of(d@) as u64
                        &&& e.compressed_crc == crc32_of(p) as u64
                        &&& e.compressed_size == p.len()
                    }
                    &&& final(self).packed() == old(self).packed() + p
                    &&& final(self).stream_count() == old(self).stream_count() + 1
                    &&& ms.len() > 1 ==> {
                        &&& final(self).size_records().drop_last() == old(self).size_records()
                        &&& final(self).size_records().len() == old(self).size_records().len() + 1
                        &&& final(self).size_records().last().0@ == entry.name@
                        &&& final(self).size_records().last().1@ == chain_more_sizes(ms, d@)
                    }
                    &&& ms.len() <= 1 ==> final(self).size_records() == old(self).size_records()
                }
                &&& !chain_ok(ms) ==> {
                    &&& r matches Err(e) && encoder_error(ms[first_unencodable(ms)].method, e)
                    &&& final(self).entries() == old(self).entries()
                    &&& final(self).packed() == old(self).packed()
                    &&& final(self).size_records() == old(self).size_records()
                    &&& final(self).stream_count() == old(self).stream_count()
                }
            }),
    {
        let mut entry = entry;
        if entry.content_methods.len() == 0 {
            entry.content_methods = copy_methods(&self.content_methods);
        }
        let (packed, more_sizes) = match encode_chain(&entry.content_methods, d) {
            Ok(res) => res,
            Err(e) => {
                return Err(e);
            },
        };
        let crc = crc32_checksum(d);
        let compressed_crc = crc32_checksum(packed.as_slice());
        entry.has_stream = true;
        entry.size = d.len() as u64;
        entry.crc = crc as u64;
        entry.has_crc = true;
        entry.compressed_crc = compressed_crc as u64;
        entry.compressed_size = packed.len() as u64;
        if more_sizes.len() > 0 {
            let name = entry.name.clone();
            self.additional_sizes.push((name, more_sizes));
        }
        extend_bytes(&mut self.output, packed.as_slice());
        proof {
            lemma_num_streams_push(self.files@, entry);
            lemma_total_packed_push(self.files@, entry);
            lemma_count_where_bound(self.files@, |e: SevenZArchiveEntry| e.has_stream);
        }
        self.num_non_empty_streams += 1;
        self.files.push(entry);
        proof {
            assert(self.files@.drop_last() =~= old(self).files@);
            assert forall|i: int|
                0 <= i < self.files@.len() && (#[trigger] self.files@[i]).has_stream
                implies self.files@[i].content_methods@.len() > 0 by {
                if i < self.files@.len() - 1 {
                    assert(self.files@[i] == old(self).files@[i]);
                }
            }
        }
        Ok(())
    }

    /// Adds an entry without a stream.
    fn push_empty_entry(&mut self, entry: SevenZArchiveEntry)
        requires
            old(self).wf(),
        ensures
            final(self).wf(),
            final(self).methods() == old(self).methods(),
            final(self).entries().len() == old(self).entries().len() + 1,
            final(self).entries().drop_last() == old(self).entries(),
            ({
                let e = final(self).entries().last();
                &&& same_metadata(e, entry)
                &&& e.content_methods@ == entry.content_methods@
                &&& !e.has_stream
                &&& e.size == 0
                &&& e.compressed_size == 0
                &&& !e.has_crc
                &&& e.crc == entry.crc
                &&& e.compressed_crc == entry.compressed_crc
            }),
            final(self).packed() == old(self).packed(),
            final(self).size_records() == old(self).size_records(),
            final(self).stream_count() == old(self).stream_count(),
    {
        let mut entry = entry;
        entry.has_stream = false;
        entry.size = 0;
        entry.compressed_size = 0;
        entry.has_crc = false;
        proof {
            lemma_num_streams_push(self.files@, entry);
            lemma_total_packed_push(self.files@, entry);
        }
        self.files.push(entry);
        proof {
            assert(self.files@.drop_last() =~= old(self).files@);
            assert forall|i: int|
                0 <= i < self.files@.len() && (#[trigger] self.files@[i]).has_stream
                implies self.files@[i].content_methods@.len() > 0 by {
                if i < self.files@.len() - 1 {
                    assert(self.files@[i] == old(self).files@[i]);
                }
            }
        }
    }
}

impl SevenZWriter {
    /// Appends the substreams record: one stream per folder, so it is empty.
    fn write_sub_streams_info(&self, header: &mut Vec<u8>)
        ensures
            final(header)@ == old(header)@ + seq![K_SUB_STREAMS_INFO, K_END],
    {
        header.push(K_SUB_STREAMS_INFO);
        header.push(K_END);
        assert(header@ =~= old(header)@ + seq![K_SUB_STREAMS_INFO, K_END]);
    }

    /// Appends the streams info of the header.
    fn write_streams_info(&self, header: &mut Vec<u8>)
        requires
            self.wf(),
            all_recordable(self.entries()),
        ensures
            final(header)@ == old(header)@ + spec_streams_info(
                self.entries(),
                self.size_records(),
                self.stream_count() as u64,
            ),
    {
        if self.num_non_empty_streams > 0 {
            write_pack_info(header, &self.files, self.num_non_empty_streams);
            write_unpack_info(header, &self.files, &self.additional_sizes, self.num_non_empty_streams);
        }
        self.write_sub_streams_info(header);
        header.push(K_END);
        assert(header@ =~= old(header)@ + spec_streams_info(
            self.entries(),
            self.size_records(),
            self.stream_count() as u64,
        ));
    }

    /// Appends the header of the archive.
    fn write_header(&self, header: &mut Vec<u8>)
        requires
            self.wf(),
            all_recordable(self.entries()),
        ensures
            final(header)@ == old(header)@ + spec_header(
                self.entries(),
                self.size_records(),
                self.stream_count() as u64,
            ),
    {
        header.push(K_HEADER);
        header.push(K_MAIN_STREAMS_INFO);
        self.write_streams_info(header);
        write_files_info(header, &self.files);
        header.push(K_END);
        assert(header@ =~= old(header)@ + spec_header(
            self.entries(),
            self.size_records(),
            self.stream_count() as u64,
        ));
    }

    /// Finishes the archive and returns it whole: the signature header, the
    /// packed streams, and the header. The header must be able to record
    /// the coders of every entry (an LZMA2 dictionary of at least 4 KiB).
    pub fn finish(self) -> (archive: Vec<u8>)
        requires
            self.wf(),
            all_recordable(self.entries()),
        ensures
            archive@ == self.spec_finish(),
    {
        let header_offset = self.output.len() as u64;
        let mut header: Vec<u8> = Vec::new();
        self.write_header(&mut header);
        let crc32 = crc32_checksum(header.as_slice());
        let mut body: Vec<u8> = Vec::new();
        let off = u64_le_bytes(header_offset);
        extend_bytes(&mut body, off.as_slice());
        let hlen = header.len() as u64;
        assert(0xffffffffu64 & hlen == hlen & 0xFFFF_FFFFu64) by (bit_vector);
        let len = u64_le_bytes(0xffffffff & hlen);
        extend_bytes(&mut body, len.as_slice());
        let hc = u32_le_bytes(crc32);
        extend_bytes(&mut body, hc.as_slice());
        let start_crc = crc32_checksum(body.as_slice());
        let mut archive: Vec<u8> = Vec::new();
        archive.push(0x37);
        archive.push(0x7A);
        archive.push(0xBC);
        archive.push(0xAF);
        archive.push(0x27);
        archive.push(0x1C);
        archive.push(0);
        archive.push(2);
        let sc = u32_le_bytes(start_crc);
        extend_bytes(&mut archive, sc.as_slice());
        extend_bytes(&mut archive, body.as_slice());
        extend_bytes(&mut archive, self.output.as_slice());
        extend_bytes(&mut archive, header.as_slice());
        assert(body@ =~= start_header_body(header_offset, header@));
        assert(archive@ =~= self.spec_finish());
        archive
    }
}

/// What a reader finds in an archive that `finish` returns: the signature
/// and version 0.2 in the first eight bytes; bytes 8..12 hold the checksum
/// of bytes 12..32; bytes 12..20 hold the offset of the header from byte 32,
/// which is the size of the packed streams that fill bytes 32 up to the
/// header; bytes 20..28 hold the header's length (modulo 2^32), and bytes
/// 28..32 its checksum; the header runs to the end of the archive.
pub proof fn lemma_archive_layout(packed: Seq<u8>, header: Seq<u8>)
    requires
        packed.len() <= u64::MAX,
        header.len() <= u64::MAX,
    ensures
        ({
            let a = spec_archive(packed, header);
            &&& a.len() == 32 + packed.len() + header.len()
            &&& a.subrange(0, 6) == seven_z_signature()
            &&& a[6] == 0 && a[7] == 2
            &&& le_value(a.subrange(8, 12)) == crc32_of(a.subrange(12, 32)) as u64
            &&& le_value(a.subrange(12, 20)) == packed.len()
            &&& le_value(a.subrange(20, 28)) == (header.len() as u64) & 0xFFFF_FFFFu64
            &&& le_value(a.subrange(28, 32)) == crc32_of(header) as u64
            &&& a.subrange(32, 32 + packed.len() as int) == packed
            &&& a.subrange(32 + packed.len() as int, a.len() as int) == header
        }),
{
    let a = spec_archive(packed, header);
    let body = start_header_body(packed.len() as u64, header);
    let hl = (header.len() as u64) & 0xFFFF_FFFFu64;
    lemma_le_value_of_le_bytes(packed.len() as u64, 8);
    lemma_le_value_of_le_bytes(hl, 8);
    lemma_le_value_of_le_bytes(crc32_of(header) as u64, 4);
    lemma_le_value_of_le_bytes(crc32_of(body) as u64, 4);
    let c1 = crc32_of(header) as u64;
    let c2 = crc32_of(body) as u64;
    assert(c1 & ((1u64 << 32u64) - 1) as u64 == c1) by (bit_vector)
        requires
            c1 <= 0xFFFF_FFFFu64,
    ;
    assert(c2 & ((1u64 << 32u64) - 1) as u64 == c2) by (bit_vector)
        requires
            c2 <= 0xFFFF_FFFFu64,
    ;
    assert(a.subrange(0, 6) =~= seven_z_signature());
    assert(a.subrange(8, 12) =~= le_bytes(c2, 4));
    assert(a.subrange(12, 32) =~= body);
    assert(a.subrange(12, 20) =~= le_bytes(packed.len() as u64, 8));
    assert(a.subrange(20, 28) =~= le_bytes(hl, 8));
    assert(a.subrange(28, 32) =~= le_bytes(c1, 4));
    assert(a.subrange(32, 32 + packed.len() as int) =~= packed);
    assert(a.subrange(32 + packed.len() as int, a.len() as int) =~= header);
}

/// What every writer keeps: the number of streams it records is the number
/// of entries with a stream, each of those has a coder chain, and their
/// packed sizes, as the header records them, add up to the packed streams.
pub proof fn lemma_writer_invariant(w: SevenZWriter)
    requires
        w.wf(),
    ensures
        w.stream_count() == num_streams(w.entries()),
        forall|i: int|
            0 <= i < w.entries().len() && (#[trigger] w.entries()[i]).has_stream
                ==> w.entries()[i].content_methods@.len() > 0,
        total_packed(w.entries()) == w.packed().len(),
{
}

/// After `set_content_methods(m)`, an entry pushed with no coder chain of
/// its own is packed with `m`, and an entry that brings a chain keeps it.
pub proof fn lemma_content_methods_apply(
    entry: SevenZArchiveEntry,
    m: Seq<SevenZMethodConfiguration>,
)
    ensures
        entry.content_methods@.len() == 0 ==> effective_methods(entry, m) == m,
        entry.content_methods@.len() > 0 ==> effective_methods(entry, m) == entry.content_methods@,
{
}

/// A copy of a coder chain.
fn copy_methods(methods: &Vec<SevenZMethodConfiguration>) -> (r: Vec<SevenZMethodConfiguration>)
    ensures
        r@ == methods@,
{
    let mut r: Vec<SevenZMethodConfiguration> = Vec::new();
    for i in 0..methods.len()
        invariant
            r@ == methods@.take(i as int),
    {
        r.push(methods[i]);
        assert(r@ =~= methods@.take(i + 1));
    }
    assert(methods@.take(methods@.len() as int) =~= methods@);
    r
}

proof fn lemma_num_streams_push(files: Seq<SevenZArchiveEntry>, e: SevenZArchiveEntry)
    ensures
        num_streams(files.push(e)) == num_streams(files) + if e.has_stream {
            1nat
        } else {
            0nat
        },
{
    assert(files.push(e).drop_last() =~= files);
}

proof fn lemma_total_packed_push(files: Seq<SevenZArchiveEntry>, e: SevenZArchiveEntry)
    ensures
        total_packed(files.push(e)) == total_packed(files) + if e.has_stream {
            e.compressed_size as int
        } else {
            0
        },
{
    assert(files.push(e).drop_last() =~= files);
}

} // verus!
