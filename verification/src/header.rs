use vstd::prelude::*;

use crate::archive::{
    SevenZArchiveEntry, SevenZMethodConfiguration, K_CODERS_UNPACK_SIZE, K_CRC, K_END, K_FOLDER,
    K_PACK_INFO, K_SIZE, K_UNPACK_INFO,
};
use crate::method_options::MethodOptions;
use crate::encoders::{
    get_options_as_properties, opt_value, options_recordable, spec_options_as_properties,
};
use crate::header_codec::{encode_u64, le_bytes, u32_le_bytes, write_u64};

verus! {

// ---------------------------------------------------------------------------
// Concatenations and counts over sequences.

/// The concatenation of `f(x)` over the elements `x` of `s`, in order.
pub open spec fn flat_map<T, U>(s: Seq<T>, f: spec_fn(T) -> Seq<U>) -> Seq<U>
    decreases s.len(),
{
    if s.len() == 0 {
        Seq::empty()
    } else {
        flat_map(s.drop_last(), f) + f(s.last())
    }
}

/// The number of elements of `s` that satisfy `p`.
pub open spec fn count_where<T>(s: Seq<T>, p: spec_fn(T) -> bool) -> nat
    decreases s.len(),
{
    if s.len() == 0 {
        0
    } else {
        count_where(s.drop_last(), p) + if p(s.last()) {
            1nat
        } else {
            0nat
        }
    }
}

pub proof fn lemma_flat_map_step<T, U>(s: Seq<T>, f: spec_fn(T) -> Seq<U>, i: int)
    requires
        0 <= i < s.len(),
    ensures
        flat_map(s.take(i + 1), f) == flat_map(s.take(i), f) + f(s[i]),
{
    assert(s.take(i + 1).drop_last() =~= s.take(i));
}

pub proof fn lemma_count_where_step<T>(s: Seq<T>, p: spec_fn(T) -> bool, i: int)
    requires
        0 <= i < s.len(),
    ensures
        count_where(s.take(i + 1), p) == count_where(s.take(i), p) + if p(s[i]) {
            1nat
        } else {
            0nat
        },
{
    assert(s.take(i + 1).drop_last() =~= s.take(i));
}

pub proof fn lemma_count_where_bound<T>(s: Seq<T>, p: spec_fn(T) -> bool)
    ensures
        count_where(s, p) <= s.len(),
        count_where(s, p) == s.len() <==> forall|i: int| 0 <= i < s.len() ==> p(#[trigger] s[i]),
        count_where(s, p) == 0 <==> forall|i: int| 0 <= i < s.len() ==> !p(#[trigger] s[i]),
    decreases s.len(),
{
    if s.len() > 0 {
        let t = s.drop_last();
        lemma_count_where_bound(t, p);
        assert forall|i: int| 0 <= i < t.len() implies t[i] == s[i] by {}
        if forall|i: int| 0 <= i < s.len() ==> p(#[trigger] s[i]) {
            assert(p(s[s.len() - 1]));
        }
        if forall|i: int| 0 <= i < s.len() ==> !p(#[trigger] s[i]) {
            assert(!p(s[s.len() - 1]));
        }
        if count_where(s, p) == s.len() {
            assert forall|i: int| 0 <= i < s.len() implies p(#[trigger] s[i]) by {
                if i < s.len() - 1 {
                    assert(p(t[i]));
                }
            }
        }
        if count_where(s, p) == 0 {
            assert forall|i: int| 0 <= i < s.len() implies !p(#[trigger] s[i]) by {
                if i < s.len() - 1 {
                    assert(!p(t[i]));
                }
            }
        }
    }
}

/// The encodings of the numbers `0..n` as 7z numbers, each followed by the next one.
pub open spec fn bind_pairs(n: nat) -> Seq<u8>
    decreases n,
{
    if n == 0 {
        Seq::empty()
    } else {
        bind_pairs((n - 1) as nat) + encode_u64(n as u64) + encode_u64((n - 1) as u64)
    }
}

// ---------------------------------------------------------------------------
// Pack info: where the packed streams are, how large, and their checksums.

/// The number of the entries that have a stream.
pub open spec fn num_streams(files: Seq<SevenZArchiveEntry>) -> nat {
    count_where(files, |e: SevenZArchiveEntry| e.has_stream)
}

/// The packed size of an entry with a stream.
pub open spec fn pack_size_part() -> spec_fn(SevenZArchiveEntry) -> Seq<u8> {
    |e: SevenZArchiveEntry|
        if e.has_stream {
            encode_u64(e.compressed_size)
        } else {
            Seq::empty()
        }
}

/// The checksum of the packed stream of an entry with a stream.
pub open spec fn pack_crc_part() -> spec_fn(SevenZArchiveEntry) -> Seq<u8> {
    |e: SevenZArchiveEntry|
        if e.has_stream {
            le_bytes(((e.compressed_crc as u32) as u64), 4)
        } else {
            Seq::empty()
        }
}

/// The pack info of the header.
pub open spec fn spec_pack_info(files: Seq<SevenZArchiveEntry>, num: u64) -> Seq<u8> {
    seq![K_PACK_INFO] + encode_u64(0) + encode_u64(num) + seq![K_SIZE] + flat_map(
        files,
        pack_size_part(),
    ) + seq![K_CRC, 1u8] + flat_map(files, pack_crc_part()) + seq![K_END]
}

/// Appends the pack info of the header: the packed streams start right
/// after the signature header, and for each entry with a stream, in order,
/// its packed size and then its packed checksum.
pub fn write_pack_info(header: &mut Vec<u8>, files: &Vec<SevenZArchiveEntry>, num: usize)
    ensures
        final(header)@ == old(header)@ + spec_pack_info(files@, num as u64),
{
    header.push(K_PACK_INFO);
    write_u64(header, 0);
    write_u64(header, num as u64);
    header.push(K_SIZE);
    let ghost start = header@;
    for i in 0..files.len()
        invariant
            header@ == start + flat_map(files@.take(i as int), pack_size_part()),
    {
        proof {
            lemma_flat_map_step(files@, pack_size_part(), i as int);
        }
        if files[i].has_stream {
            write_u64(header, files[i].compressed_size);
        }
        assert(header@ =~= start + flat_map(files@.take(i + 1), pack_size_part()));
    }
    assert(files@.take(files@.len() as int) =~= files@);
    header.push(K_CRC);
    header.push(1);
    let ghost start2 = header@;
    for i in 0..files.len()
        invariant
            header@ == start2 + flat_map(files@.take(i as int), pack_crc_part()),
    {
        proof {
            lemma_flat_map_step(files@, pack_crc_part(), i as int);
        }
        if files[i].has_stream {
            let b = u32_le_bytes(files[i].compressed_crc as u32);
            extend_bytes(header, &b);
        }
        assert(header@ =~= start2 + flat_map(files@.take(i + 1), pack_crc_part()));
    }
    header.push(K_END);
    assert(header@ =~= old(header)@ + spec_pack_info(files@, num as u64));
}

/// Appends `bytes` to `out`.
pub fn extend_bytes(out: &mut Vec<u8>, bytes: &[u8])
    ensures
        final(out)@ == old(out)@ + bytes@,
{
    let ghost start = out@;
    for i in 0..bytes.len()
        invariant
            out@ == start + bytes@.take(i as int),
    {
        out.push(bytes[i]);
        assert(out@ =~= start + bytes@.take(i + 1));
    }
    assert(bytes@.take(bytes@.len() as int) =~= bytes@);
}

// ---------------------------------------------------------------------------
// Unpack info: the coders of each folder, the sizes of what they produce,
// and the checksums of the unpacked streams.

/// The record of one coder: a flags byte holding the length of the method's
/// id (and bit 0x20 where properties follow), the id, then the number of
/// property bytes and the properties.
pub open spec fn spec_codec(mc: SevenZMethodConfiguration) -> Seq<u8> {
    let id = mc.method.spec_id();
    let props = spec_options_as_properties(mc.method, mc.options);
    let flags: u8 = (id.len() as u8) | (if props.len() > 0 {
        0x20u8
    } else {
        0u8
    });
    seq![flags] + id + if props.len() > 0 {
        seq![props.len() as u8] + props
    } else {
        Seq::empty()
    }
}

/// The records of a chain of coders.
pub open spec fn codec_part() -> spec_fn(SevenZMethodConfiguration) -> Seq<u8> {
    |mc: SevenZMethodConfiguration| spec_codec(mc)
}

/// The record of a folder whose coders are `methods` (at least one): their
/// number, their records, and the bonds that feed coder `i + 1` into coder `i`.
pub open spec fn spec_folder(methods: Seq<SevenZMethodConfiguration>) -> Seq<u8> {
    encode_u64(methods.len() as u64) + flat_map(methods, codec_part()) + bind_pairs(
        (methods.len() - 1) as nat,
    )
}

/// Whether the header can record the entry's coders: an entry with a
/// stream has at least one coder, and each coder's options can be recorded.
pub open spec fn entry_recordable(e: SevenZArchiveEntry) -> bool {
    e.has_stream ==> methods_recordable(e.content_methods@)
}

/// Whether a folder of the coders `ms` can be recorded: there is at least
/// one, and each one's options can be written as its properties.
pub open spec fn methods_recordable(ms: Seq<SevenZMethodConfiguration>) -> bool {
    &&& ms.len() > 0
    &&& forall|i: int|
        0 <= i < ms.len() ==> options_recordable((#[trigger] ms[i]).method, ms[i].options)
}

/// Whether the header can record every entry's coders.
pub open spec fn all_recordable(files: Seq<SevenZArchiveEntry>) -> bool {
    forall|i: int| 0 <= i < files.len() ==> entry_recordable(#[trigger] files[i])
}

/// Appends the record of one coder to `cache`.
pub fn write_single_codec(mc: &SevenZMethodConfiguration, cache: &mut Vec<u8>)
    requires
        options_recordable(mc.method, mc.options),
    ensures
        final(cache)@ == old(cache)@ + spec_codec(*mc),
{
    let id = mc.method.id();
    let options: Option<&MethodOptions> = match &mc.options {
        Some(o) => Some(o),
        None => None,
    };
    assert(opt_value(options) == mc.options);
    let props = get_options_as_properties(mc.method, options);
    assert(id.len() <= 4);
    let mut codec_flags: u8 = id.len() as u8;
    if props.len() > 0 {
        codec_flags |= 0x20;
    } else {
        assert(codec_flags | 0u8 == codec_flags) by (bit_vector);
    }
    cache.push(codec_flags);
    extend_bytes(cache, &id);
    if props.len() > 0 {
        cache.push(props.len() as u8);
        extend_bytes(cache, &props);
    }
    assert(cache@ =~= old(cache)@ + spec_codec(*mc));
}

/// Appends the record of the folder of the entry's coders to `header`,
/// using `cache` for the coder records.
pub fn write_folder(header: &mut Vec<u8>, entry: &SevenZArchiveEntry, cache: &mut Vec<u8>)
    requires
        methods_recordable(entry.content_methods@),
    ensures
        final(header)@ == old(header)@ + spec_folder(entry.content_methods@),
        final(cache)@ == flat_map(entry.content_methods@, codec_part()),
{
    cache.clear();
    let methods = &entry.content_methods;
    let mut num_coders: usize = 0;
    for i in 0..methods.len()
        invariant
            num_coders == i,
            methods_recordable(entry.content_methods@),
            methods == &entry.content_methods,
            cache@ == flat_map(methods@.take(i as int), codec_part()),
    {
        proof {
            lemma_flat_map_step(methods@, codec_part(), i as int);
        }
        num_coders += 1;
        write_single_codec(&methods[i], cache);
    }
    assert(methods@.take(methods@.len() as int) =~= methods@);
    write_u64(header, num_coders as u64);
    extend_bytes(header, cache);
    let ghost start = header@;
    let mut i: usize = 0;
    assert(bind_pairs(0) =~= Seq::<u8>::empty());
    while i < num_coders - 1
        invariant
            num_coders >= 1,
            i <= num_coders - 1,
            header@ == start + bind_pairs(i as nat),
        decreases num_coders - 1 - i,
    {
        write_u64(header, i as u64 + 1);
        write_u64(header, i as u64);
        i += 1;
        assert(header@ =~= start + bind_pairs(i as nat));
    }
    assert(header@ =~= old(header)@ + spec_folder(entry.content_methods@));
}

/// The sizes recorded under `name`: those of the last pair that names it,
/// and none where no pair does.
pub open spec fn lookup_sizes(pairs: Seq<(String, Vec<u64>)>, name: Seq<char>) -> Seq<u64>
    decreases pairs.len(),
{
    if pairs.len() == 0 {
        Seq::empty()
    } else if pairs.last().0@ == name {
        pairs.last().1@
    } else {
        lookup_sizes(pairs.drop_last(), name)
    }
}

/// The sizes recorded under `name`.
pub fn get_sizes<'a>(pairs: &'a Vec<(String, Vec<u64>)>, name: &String) -> (r: Option<&'a Vec<u64>>)
    ensures
        r matches Some(v) ==> v@ == lookup_sizes(pairs@, name@),
        r is None ==> lookup_sizes(pairs@, name@) == Seq::<u64>::empty(),
{
    let mut j = pairs.len();
    assert(pairs@.take(j as int) =~= pairs@);
    while j > 0
        invariant
            j <= pairs@.len(),
            lookup_sizes(pairs@, name@) == lookup_sizes(pairs@.take(j as int), name@),
        decreases j,
    {
        assert(pairs@.take(j as int).drop_last() =~= pairs@.take(j - 1));
        assert(pairs@.take(j as int).last() == pairs@[j - 1]);
        if pairs[j - 1].0 == *name {
            return Some(&pairs[j - 1].1);
        }
        j -= 1;
    }
    None
}

/// The 7z numbers of a sequence of sizes.
pub open spec fn size_part() -> spec_fn(u64) -> Seq<u8> {
    |s: u64| encode_u64(s)
}

/// The record of a folder for an entry with a stream.
pub open spec fn folder_part() -> spec_fn(SevenZArchiveEntry) -> Seq<u8> {
    |e: SevenZArchiveEntry|
        if e.has_stream {
            spec_folder(e.content_methods@)
        } else {
            Seq::empty()
        }
}

/// The unpacked sizes of the coders of an entry with a stream: the sizes
/// recorded under its name, then its own size.
pub open spec fn unpack_size_part(pairs: Seq<(String, Vec<u64>)>) -> spec_fn(SevenZArchiveEntry) -> Seq<u8> {
    |e: SevenZArchiveEntry|
        if e.has_stream {
            flat_map(lookup_sizes(pairs, e.name@), size_part()) + encode_u64(e.size)
        } else {
            Seq::empty()
        }
}

/// The checksum of the unpacked stream of an entry with a stream.
pub open spec fn unpack_crc_part() -> spec_fn(SevenZArchiveEntry) -> Seq<u8> {
    |e: SevenZArchiveEntry|
        if e.has_stream {
            le_bytes(((e.crc as u32) as u64), 4)
        } else {
            Seq::empty()
        }
}

/// The unpack info of the header.
pub open spec fn spec_unpack_info(
    files: Seq<SevenZArchiveEntry>,
    pairs: Seq<(String, Vec<u64>)>,
    num: u64,
) -> Seq<u8> {
    seq![K_UNPACK_INFO, K_FOLDER] + encode_u64(num) + seq![0u8] + flat_map(files, folder_part())
        + seq![K_CODERS_UNPACK_SIZE] + flat_map(files, unpack_size_part(pairs)) + seq![K_CRC, 1u8]
        + flat_map(files, unpack_crc_part()) + seq![K_END]
}

/// Appends the 7z numbers of `sizes`.
fn write_sizes(header: &mut Vec<u8>, sizes: &Vec<u64>)
    ensures
        final(header)@ == old(header)@ + flat_map(sizes@, size_part()),
{
    let ghost start = header@;
    for k in 0..sizes.len()
        invariant
            header@ == start + flat_map(sizes@.take(k as int), size_part()),
    {
        proof {
            lemma_flat_map_step(sizes@, size_part(), k as int);
        }
        write_u64(header, sizes[k]);
        assert(header@ =~= start + flat_map(sizes@.take(k + 1), size_part()));
    }
    assert(sizes@.take(sizes@.len() as int) =~= sizes@);
}

/// Appends the folder of each entry with a stream.
fn write_folders(header: &mut Vec<u8>, files: &Vec<SevenZArchiveEntry>)
    requires
        all_recordable(files@),
    ensures
        final(header)@ == old(header)@ + flat_map(files@, folder_part()),
{
    let mut cache: Vec<u8> = Vec::new();
    let ghost start = header@;
    for i in 0..files.len()
        invariant
            all_recordable(files@),
            header@ == start + flat_map(files@.take(i as int), folder_part()),
    {
        proof {
            lemma_flat_map_step(files@, folder_part(), i as int);
        }
        if files[i].has_stream {
            assert(entry_recordable(files@[i as int]));
            write_folder(header, &files[i], &mut cache);
        }
        assert(header@ =~= start + flat_map(files@.take(i + 1), folder_part()));
    }
    assert(files@.take(files@.len() as int) =~= files@);
}

/// Appends the unpacked sizes of the coders of each entry with a stream.
fn write_unpack_sizes(header: &mut Vec<u8>, files: &Vec<SevenZArchiveEntry>, pairs: &Vec<(String, Vec<u64>)>)
    ensures
        final(header)@ == old(header)@ + flat_map(files@, unpack_size_part(pairs@)),
{
    let ghost start = header@;
    for i in 0..files.len()
        invariant
            header@ == start + flat_map(files@.take(i as int), unpack_size_part(pairs@)),
    {
        proof {
            lemma_flat_map_step(files@, unpack_size_part(pairs@), i as int);
        }
        if files[i].has_stream {
            match get_sizes(pairs, &files[i].name) {
                Some(sized) => {
                    write_sizes(header, sized);
                },
                None => {
                    assert(flat_map(Seq::<u64>::empty(), size_part()) =~= Seq::<u8>::empty());
                },
            }
            write_u64(header, files[i].size);
        }
        assert(header@ =~= start + flat_map(files@.take(i + 1), unpack_size_part(pairs@)));
    }
    assert(files@.take(files@.len() as int) =~= files@);
}

/// Appends the checksum of the unpacked stream of each entry with a stream.
fn write_unpack_crcs(header: &mut Vec<u8>, files: &Vec<SevenZArchiveEntry>)
    ensures
        final(header)@ == old(header)@ + flat_map(files@, unpack_crc_part()),
{
    let ghost start = header@;
    for i in 0..files.len()
        invariant
            header@ == start + flat_map(files@.take(i as int), unpack_crc_part()),
    {
        proof {
            lemma_flat_map_step(files@, unpack_crc_part(), i as int);
        }
        if files[i].has_stream {
            let b = u32_le_bytes(files[i].crc as u32);
            extend_bytes(header, &b);
        }
        assert(header@ =~= start + flat_map(files@.take(i + 1), unpack_crc_part()));
    }
    assert(files@.take(files@.len() as int) =~= files@);
}

/// Appends the unpack info of the header: one folder per entry with a
/// stream, the unpacked sizes of its coders, and the checksums of the
/// unpacked streams, each in the order of the entries.
#[verifier::rlimit(30)]
pub fn write_unpack_info(
    header: &mut Vec<u8>,
    files: &Vec<SevenZArchiveEntry>,
    pairs: &Vec<(String, Vec<u64>)>,
    num: usize,
)
    requires
        all_recordable(files@),
    ensures
        final(header)@ == old(header)@ + spec_unpack_info(files@, pairs@, num as u64),
{
    header.push(K_UNPACK_INFO);
    header.push(K_FOLDER);
    write_u64(header, num as u64);
    header.push(0);
    write_folders(header, files);
    header.push(K_CODERS_UNPACK_SIZE);
    write_unpack_sizes(header, files, pairs);
    header.push(K_CRC);
    header.push(1);
    write_unpack_crcs(header, files);
    header.push(K_END);
    assert(header@ =~= old(header)@ + spec_unpack_info(files@, pairs@, num as u64));
}

} // verus!
