use vstd::prelude::*;

use bit_set::BitSet;

use crate::archive::{
    SevenZArchiveEntry, K_ANTI, K_A_TIME, K_C_TIME, K_EMPTY_FILE, K_EMPTY_STREAM, K_END,
    K_FILES_INFO, K_M_TIME, K_NAME,
};
use crate::bitset::{bit_set_bits, bit_set_insert, bit_set_with_capacity};
use crate::header::{
    count_where, extend_bytes, flat_map, lemma_count_where_step,
    lemma_flat_map_step,
};
use crate::header_codec::{
    encode_u64, le_bytes, le_value, lemma_le_bytes_index, lemma_le_value_of_le_bytes, pack_bits,
    u32_le_bytes, u64_le_bytes, write_bit_set, write_u64,
};

verus! {

/// The UTF-16 code units of `c`, each as two little-endian bytes: one unit
/// below U+10000, a surrogate pair above.
pub open spec fn char_utf16_le(c: char) -> Seq<u8> {
    let v = c as u32;
    if v < 0x10000 {
        le_bytes(v as u64, 2)
    } else {
        let w = (v - 0x10000) as u32;
        le_bytes((0xD800u32 + (w >> 10u32)) as u64, 2) + le_bytes((0xDC00u32 + (w & 0x3FFu32)) as u64, 2)
    }
}

/// Reading a character's bytes back as UTF-16 gives the character: below
/// U+10000 they are one little-endian unit holding its code point; above,
/// a high surrogate (D800 to DBFF) then a low one (DC00 to DFFF), which
/// together hold the code point less 0x10000, ten bits each.
pub proof fn lemma_char_utf16_le_decodes(c: char)
    ensures
        ({
            let v = c as u32;
            let b = char_utf16_le(c);
            if v < 0x10000 {
                b.len() == 2 && le_value(b) == v
            } else {
                let hi = le_value(b.take(2));
                let lo = le_value(b.skip(2));
                &&& b.len() == 4
                &&& 0xD800 <= hi < 0xDC00
                &&& 0xDC00 <= lo < 0xE000
                &&& 0x10000 + (hi - 0xD800) * 0x400 + (lo - 0xDC00) == v
            }
        }),
{
    let v = c as u32;
    assert(v <= 0x10FFFF);
    if v < 0x10000 {
        lemma_le_value_of_le_bytes(v as u64, 2);
        assert((v as u64) & ((1u64 << 16u64) - 1) as u64 == v as u64) by (bit_vector)
            requires
                v < 0x10000,
        ;
        assert((8 * 2nat) as u64 == 16u64);
    } else {
        let w = (v - 0x10000) as u32;
        let h: u32 = (0xD800u32 + (w >> 10u32)) as u32;
        let l: u32 = (0xDC00u32 + (w & 0x3FFu32)) as u32;
        assert(w >> 10u32 < 0x400 && w & 0x3FFu32 < 0x400 && (w >> 10u32) * 0x400 + (w & 0x3FFu32) == w)
            by (bit_vector)
            requires
                w < 0x100000,
        ;
        lemma_le_value_of_le_bytes(h as u64, 2);
        lemma_le_value_of_le_bytes(l as u64, 2);
        assert((h as u64) & ((1u64 << 16u64) - 1) as u64 == h as u64) by (bit_vector)
            requires
                h < 0x10000,
        ;
        assert((l as u64) & ((1u64 << 16u64) - 1) as u64 == l as u64) by (bit_vector)
            requires
                l < 0x10000,
        ;
        assert((8 * 2nat) as u64 == 16u64);
        let b = char_utf16_le(c);
        assert(b.take(2) =~= le_bytes(h as u64, 2));
        assert(b.skip(2) =~= le_bytes(l as u64, 2));
    }
}

/// The UTF-16 little-endian encoding of a string.
pub open spec fn utf16_le(s: Seq<char>) -> Seq<u8> {
    flat_map(s, |c: char| char_utf16_le(c))
}

/// Appends the UTF-16 little-endian encoding of `s` to `out`.
pub fn write_utf16_le(out: &mut Vec<u8>, s: &str)
    ensures
        final(out)@ == old(out)@ + utf16_le(s@),
{
    let ghost start = out@;
    let ghost chars = s@;
    for c in it: s.chars()
        invariant
            out@ == start + utf16_le(chars.take(it.index() as int)),
            it.seq() == chars,
    {
        let ghost k = it.index();
        proof {
            lemma_flat_map_step(chars, |c: char| char_utf16_le(c), k as int);
            vstd::utf8::char_is_scalar(c);
        }
        assert(c == chars[k as int]);
        let v = c as u32;
        let ghost before = out@;
        if v < 0x10000 {
            out.push((v & 0xff) as u8);
            out.push((v >> 8) as u8);
            assert(le_bytes(v as u64, 2) =~= seq![(v & 0xff) as u8, (v >> 8) as u8]) by {
                lemma_le_bytes_index(v as u64, 2);
                assert((((v as u64) >> 0u64) & 0xFFu64) as u8 == (v & 0xff) as u8 && (((v as u64)
                    >> 8u64) & 0xFFu64) as u8 == (v >> 8) as u8) by (bit_vector)
                    requires
                        v < 0x10000,
                ;
            }
            assert(out@ =~= before + char_utf16_le(c));
        } else {
            let w = v - 0x10000;
            assert(v <= 0x10FFFF);
            assert(w >> 10u32 <= 0x3FF && w & 0x3FFu32 <= 0x3FF) by (bit_vector)
                requires
                    w <= 0xFFFFF,
            ;
            let hi = 0xD800u32 + (w >> 10);
            let lo = 0xDC00u32 + (w & 0x3FF);
            out.push((hi & 0xff) as u8);
            out.push((hi >> 8) as u8);
            out.push((lo & 0xff) as u8);
            out.push((lo >> 8) as u8);
            assert(le_bytes(hi as u64, 2) + le_bytes(lo as u64, 2) =~= seq![
                (hi & 0xff) as u8,
                (hi >> 8) as u8,
                (lo & 0xff) as u8,
                (lo >> 8) as u8,
            ]) by {
                lemma_le_bytes_index(hi as u64, 2);
                lemma_le_bytes_index(lo as u64, 2);
                assert((((hi as u64) >> 0u64) & 0xFFu64) as u8 == (hi & 0xff) as u8 && (((hi as u64)
                    >> 8u64) & 0xFFu64) as u8 == (hi >> 8) as u8) by (bit_vector)
                    requires
                        hi < 0x10000,
                ;
                assert((((lo as u64) >> 0u64) & 0xFFu64) as u8 == (lo & 0xff) as u8 && (((lo as u64)
                    >> 8u64) & 0xFFu64) as u8 == (lo >> 8) as u8) by (bit_vector)
                    requires
                        lo < 0x10000,
                ;
            }
            assert(out@ =~= before + char_utf16_le(c));
        }
        assert(out@ =~= start + utf16_le(chars.take(k + 1)));
    }
    assert(chars.take(chars.len() as int) =~= chars);
}

// ---------------------------------------------------------------------------
// Which entries have no stream, which of those are empty files and which
// are anti-items.

/// The flag `g(e)` of each entry `e` that has no stream, in order.
pub open spec fn empty_stream_flags(
    files: Seq<SevenZArchiveEntry>,
    g: spec_fn(SevenZArchiveEntry) -> bool,
) -> Seq<bool> {
    flat_map(
        files,
        |e: SevenZArchiveEntry|
            if !e.has_stream {
                seq![g(e)]
            } else {
                Seq::empty()
            },
    )
}

/// The bits of the set of `files`' positions that satisfy `p`.
pub open spec fn position_flags(
    files: Seq<SevenZArchiveEntry>,
    p: spec_fn(SevenZArchiveEntry) -> bool,
) -> Seq<bool> {
    Seq::new(files.len(), |i: int| p(files[i]))
}

/// A property record: its id, the length of its data, and the data.
pub open spec fn property(id: u8, data: Seq<u8>) -> Seq<u8> {
    seq![id] + encode_u64(data.len() as u64) + data
}

/// The empty-stream record: present where some entry has no stream; it
/// holds the bit vector of the entries that have none.
#[verifier::opaque]
pub open spec fn spec_empty_streams(files: Seq<SevenZArchiveEntry>) -> Seq<u8> {
    if count_where(files, |e: SevenZArchiveEntry| !e.has_stream) > 0 {
        property(
            K_EMPTY_STREAM,
            pack_bits(position_flags(files, |e: SevenZArchiveEntry| !e.has_stream)),
        )
    } else {
        Seq::empty()
    }
}

/// The empty-file record: present where some entry without a stream is not
/// a directory; it holds, for each entry without a stream, one bit that is
/// set where it is not a directory.
#[verifier::opaque]
pub open spec fn spec_empty_files(files: Seq<SevenZArchiveEntry>) -> Seq<u8> {
    if count_where(files, |e: SevenZArchiveEntry| !e.has_stream && !e.is_directory) > 0 {
        property(
            K_EMPTY_FILE,
            pack_bits(empty_stream_flags(files, |e: SevenZArchiveEntry| !e.is_directory)),
        )
    } else {
        Seq::empty()
    }
}

/// The anti-item record: present where some entry without a stream is an
/// anti-item; it holds, for each entry without a stream, one bit that is
/// set where it is an anti-item.
#[verifier::opaque]
pub open spec fn spec_anti_items(files: Seq<SevenZArchiveEntry>) -> Seq<u8> {
    if count_where(files, |e: SevenZArchiveEntry| !e.has_stream && e.is_anti_item) > 0 {
        property(
            K_ANTI,
            pack_bits(empty_stream_flags(files, |e: SevenZArchiveEntry| e.is_anti_item)),
        )
    } else {
        Seq::empty()
    }
}

/// Appends the empty-stream record.
pub fn write_file_empty_streams(header: &mut Vec<u8>, files: &Vec<SevenZArchiveEntry>)
    ensures
        final(header)@ == old(header)@ + spec_empty_streams(files@),
{
    let ghost p = |e: SevenZArchiveEntry| !e.has_stream;
    let mut has_empty = false;
    let mut j: usize = 0;
    while j < files.len()
        invariant
            j <= files@.len(),
            p == (|e: SevenZArchiveEntry| !e.has_stream),
            has_empty == (count_where(files@.take(j as int), p) > 0),
        decreases files@.len() - j,
    {
        proof {
            lemma_count_where_step(files@, p, j as int);
        }
        assert(p(files@[j as int]) == !files@[j as int].has_stream);
        if !files[j].has_stream {
            has_empty = true;
        }
        j += 1;
    }
    assert(files@.take(files@.len() as int) =~= files@);
    if has_empty {
        header.push(K_EMPTY_STREAM);
        let mut bitset = bit_set_with_capacity(files.len());
        for i in 0..files.len()
            invariant
                bit_set_bits(bitset) == Seq::new(
                    files@.len(),
                    |k: int| k < i && !files@[k].has_stream,
                ),
        {
            if !files[i].has_stream {
                bit_set_insert(&mut bitset, i);
            }
            assert(bit_set_bits(bitset) =~= Seq::new(
                files@.len(),
                |k: int| k < i + 1 && !files@[k].has_stream,
            ));
        }
        assert(bit_set_bits(bitset) =~= position_flags(files@, p));
        let mut temp: Vec<u8> = Vec::new();
        write_bit_set(&mut temp, &bitset);
        write_u64(header, temp.len() as u64);
        extend_bytes(header, &temp);
    }
    reveal(spec_empty_streams);
    assert(header@ =~= old(header)@ + spec_empty_streams(files@));
}

proof fn lemma_empty_stream_flags_step(
    files: Seq<SevenZArchiveEntry>,
    g: spec_fn(SevenZArchiveEntry) -> bool,
    i: int,
)
    requires
        0 <= i < files.len(),
    ensures
        empty_stream_flags(files.take(i + 1), g) == empty_stream_flags(files.take(i), g) + if !files[i].has_stream {
            seq![g(files[i])]
        } else {
            Seq::empty()
        },
{
    lemma_flat_map_step(
        files,
        |e: SevenZArchiveEntry|
            if !e.has_stream {
                seq![g(e)]
            } else {
                Seq::empty()
            },
        i,
    );
}

proof fn lemma_empty_stream_flags_grow(
    files: Seq<SevenZArchiveEntry>,
    g: spec_fn(SevenZArchiveEntry) -> bool,
    i: int,
)
    requires
        0 <= i <= files.len(),
    ensures
        empty_stream_flags(files.take(i), g).len() <= empty_stream_flags(files, g).len(),
    decreases files.len() - i,
{
    if i < files.len() {
        lemma_empty_stream_flags_step(files, g, i);
        lemma_empty_stream_flags_grow(files, g, i + 1);
    } else {
        assert(files.take(i) =~= files);
    }
}

/// Appends a record for a flag of the entries without a stream (empty
/// files, or anti-items): present where some such entry has the flag; it
/// holds one bit for each such entry, set where it has the flag.
fn write_empty_stream_flag_record(
    header: &mut Vec<u8>,
    files: &Vec<SevenZArchiveEntry>,
    id: u8,
    anti: bool,
)
    ensures
        ({
            let g = if anti {
                |e: SevenZArchiveEntry| e.is_anti_item
            } else {
                |e: SevenZArchiveEntry| !e.is_directory
            };
            let q = |e: SevenZArchiveEntry| !e.has_stream && g(e);
            final(header)@ == old(header)@ + if count_where(files@, q) > 0 {
                property(id, pack_bits(empty_stream_flags(files@, g)))
            } else {
                Seq::empty()
            }
        }),
{
    let ghost g = if anti {
        |e: SevenZArchiveEntry| e.is_anti_item
    } else {
        |e: SevenZArchiveEntry| !e.is_directory
    };
    let ghost q = |e: SevenZArchiveEntry| !e.has_stream && g(e);
    let mut has_flag = false;
    let mut num_empty: usize = 0;
    assert(empty_stream_flags(files@.take(0), g) =~= Seq::<bool>::empty());
    for i in 0..files.len()
        invariant
            has_flag == (count_where(files@.take(i as int), q) > 0),
            num_empty == empty_stream_flags(files@.take(i as int), g).len(),
            num_empty <= i,
            g == (if anti {
                |e: SevenZArchiveEntry| e.is_anti_item
            } else {
                |e: SevenZArchiveEntry| !e.is_directory
            }),
            q == (|e: SevenZArchiveEntry| !e.has_stream && g(e)),
    {
        proof {
            lemma_count_where_step(files@, q, i as int);
            lemma_empty_stream_flags_step(files@, g, i as int);
        }
        if !files[i].has_stream {
            let flag = if anti {
                files[i].is_anti_item
            } else {
                !files[i].is_directory
            };
            assert(flag == g(files@[i as int]));
            has_flag = has_flag || flag;
            num_empty += 1;
        }
    }
    assert(files@.take(files@.len() as int) =~= files@);
    if has_flag {
        let ghost all = empty_stream_flags(files@, g);
        let mut bitset: BitSet = bit_set_with_capacity(num_empty);
        let mut counter: usize = 0;
        for i in 0..files.len()
            invariant
                num_empty == all.len(),
                all == empty_stream_flags(files@, g),
                counter == empty_stream_flags(files@.take(i as int), g).len(),
                counter <= num_empty,
                bit_set_bits(bitset) == empty_stream_flags(files@.take(i as int), g) + Seq::new(
                    (num_empty - counter) as nat,
                    |k: int| false,
                ),
                g == (if anti {
                    |e: SevenZArchiveEntry| e.is_anti_item
                } else {
                    |e: SevenZArchiveEntry| !e.is_directory
                }),
        {
            proof {
                lemma_empty_stream_flags_step(files@, g, i as int);
                lemma_empty_stream_flags_grow(files@, g, i + 1);
            }
            let ghost flags = empty_stream_flags(files@.take(i as int), g);
            if !files[i].has_stream {
                let flag = if anti {
                    files[i].is_anti_item
                } else {
                    !files[i].is_directory
                };
                assert(flag == g(files@[i as int]));
                assert(empty_stream_flags(files@.take(i + 1), g) =~= flags.push(flag));
                if flag {
                    bit_set_insert(&mut bitset, counter);
                }
                counter += 1;
                assert(bit_set_bits(bitset) =~= flags.push(flag) + Seq::new(
                    (num_empty - counter) as nat,
                    |k: int| false,
                ));
            } else {
                assert(empty_stream_flags(files@.take(i + 1), g) =~= flags);
            }
        }
        assert(bit_set_bits(bitset) =~= all);
        header.push(id);
        let mut temp: Vec<u8> = Vec::new();
        write_bit_set(&mut temp, &bitset);
        write_u64(header, temp.len() as u64);
        extend_bytes(header, &temp);
    }
}

/// Appends the empty-file record.
pub fn write_file_empty_files(header: &mut Vec<u8>, files: &Vec<SevenZArchiveEntry>)
    ensures
        final(header)@ == old(header)@ + spec_empty_files(files@),
{
    reveal(spec_empty_files);
    write_empty_stream_flag_record(header, files, K_EMPTY_FILE, false);
    assert((|e: SevenZArchiveEntry| !e.has_stream && (|e: SevenZArchiveEntry| !e.is_directory)(e))
        =~= (|e: SevenZArchiveEntry| !e.has_stream && !e.is_directory));
}

/// Appends the anti-item record.
pub fn write_file_anti_items(header: &mut Vec<u8>, files: &Vec<SevenZArchiveEntry>)
    ensures
        final(header)@ == old(header)@ + spec_anti_items(files@),
{
    reveal(spec_anti_items);
    write_empty_stream_flag_record(header, files, K_ANTI, true);
    assert((|e: SevenZArchiveEntry| !e.has_stream && (|e: SevenZArchiveEntry| e.is_anti_item)(e))
        =~= (|e: SevenZArchiveEntry| !e.has_stream && e.is_anti_item));
}

// ---------------------------------------------------------------------------
// Names, times and attributes.

/// The name of an entry in UTF-16 little-endian, ended by a zero unit.
pub open spec fn name_part() -> spec_fn(SevenZArchiveEntry) -> Seq<u8> {
    |e: SevenZArchiveEntry| utf16_le(e.name@) + seq![0u8, 0u8]
}

/// The names record: a zero byte (the names are stored here, not
/// elsewhere), then the name of every entry.
#[verifier::opaque]
pub open spec fn spec_names(files: Seq<SevenZArchiveEntry>) -> Seq<u8> {
    property(K_NAME, seq![0u8] + flat_map(files, name_part()))
}

/// Appends the names record.
pub fn write_file_names(header: &mut Vec<u8>, files: &Vec<SevenZArchiveEntry>)
    ensures
        final(header)@ == old(header)@ + spec_names(files@),
{
    let mut temp: Vec<u8> = Vec::new();
    temp.push(0);
    let ghost start = temp@;
    for i in 0..files.len()
        invariant
            temp@ == start + flat_map(files@.take(i as int), name_part()),
    {
        proof {
            lemma_flat_map_step(files@, name_part(), i as int);
        }
        write_utf16_le(&mut temp, files[i].name.as_str());
        temp.push(0);
        temp.push(0);
        assert(temp@ =~= start + flat_map(files@.take(i + 1), name_part()));
    }
    assert(files@.take(files@.len() as int) =~= files@);
    header.push(K_NAME);
    write_u64(header, temp.len() as u64);
    extend_bytes(header, &temp);
    reveal(spec_names);
    assert(header@ =~= old(header)@ + spec_names(files@));
}

/// A per-entry value that the header records for the entries that have it.
pub enum EntryTime {
    Creation,
    Access,
    LastModified,
    WindowsAttributes,
}

/// Whether an entry has the value.
pub open spec fn time_defined(field: EntryTime) -> spec_fn(SevenZArchiveEntry) -> bool {
    |e: SevenZArchiveEntry|
        match field {
            EntryTime::Creation => e.has_creation_date,
            EntryTime::Access => e.has_access_date,
            EntryTime::LastModified => e.has_last_modified_date,
            EntryTime::WindowsAttributes => e.has_windows_attributes,
        }
}

/// The recorded bytes of the value: a time as eight little-endian bytes,
/// the attributes as four.
pub open spec fn time_value(field: EntryTime) -> spec_fn(SevenZArchiveEntry) -> Seq<u8> {
    |e: SevenZArchiveEntry|
        match field {
            EntryTime::Creation => le_bytes(e.creation_date as u64, 8),
            EntryTime::Access => le_bytes(e.access_date as u64, 8),
            EntryTime::LastModified => le_bytes(e.last_modified_date as u64, 8),
            EntryTime::WindowsAttributes => le_bytes(e.windows_attributes as u64, 4),
        }
}

/// The value of each entry that has it.
pub open spec fn time_values_part(field: EntryTime) -> spec_fn(SevenZArchiveEntry) -> Seq<u8> {
    |e: SevenZArchiveEntry|
        if time_defined(field)(e) {
            time_value(field)(e)
        } else {
            Seq::empty()
        }
}

/// The record of a per-entry value under the id `nid`: present where some
/// entry has the value; it says which entries have it (a 1 where all do,
/// else a 0 and their bit vector), then a zero byte (the values are stored
/// here), then the values of those entries.
#[verifier::opaque]
pub open spec fn spec_times(files: Seq<SevenZArchiveEntry>, nid: u8, field: EntryTime) -> Seq<u8> {
    let num = count_where(files, time_defined(field));
    if num == 0 {
        Seq::empty()
    } else {
        let defined = if num != files.len() {
            seq![0u8] + pack_bits(position_flags(files, time_defined(field)))
        } else {
            seq![1u8]
        };
        property(nid, defined + seq![0u8] + flat_map(files, time_values_part(field)))
    }
}

fn has_time(e: &SevenZArchiveEntry, field: &EntryTime) -> (r: bool)
    ensures
        r == time_defined(*field)(*e),
{
    match field {
        EntryTime::Creation => e.has_creation_date,
        EntryTime::Access => e.has_access_date,
        EntryTime::LastModified => e.has_last_modified_date,
        EntryTime::WindowsAttributes => e.has_windows_attributes,
    }
}

/// Each record of per-entry values holds, for an entry, that entry's own
/// value of the kind the record names: the creation-time record marks the
/// entries with a creation date and holds, read back as a little-endian
/// number of eight bytes, the creation date; likewise the access time, the
/// modification time, and the attributes (four bytes).
pub proof fn lemma_recorded_values_are_the_entry_fields(e: SevenZArchiveEntry)
    ensures
        time_defined(EntryTime::Creation)(e) == e.has_creation_date,
        time_defined(EntryTime::Access)(e) == e.has_access_date,
        time_defined(EntryTime::LastModified)(e) == e.has_last_modified_date,
        time_defined(EntryTime::WindowsAttributes)(e) == e.has_windows_attributes,
        time_value(EntryTime::Creation)(e).len() == 8,
        le_value(time_value(EntryTime::Creation)(e)) == e.creation_date as u64,
        time_value(EntryTime::Access)(e).len() == 8,
        le_value(time_value(EntryTime::Access)(e)) == e.access_date as u64,
        time_value(EntryTime::LastModified)(e).len() == 8,
        le_value(time_value(EntryTime::LastModified)(e)) == e.last_modified_date as u64,
        time_value(EntryTime::WindowsAttributes)(e).len() == 4,
        le_value(time_value(EntryTime::WindowsAttributes)(e)) == e.windows_attributes as u64,
{
    lemma_le_value_of_le_bytes(e.creation_date as u64, 8);
    lemma_le_value_of_le_bytes(e.access_date as u64, 8);
    lemma_le_value_of_le_bytes(e.last_modified_date as u64, 8);
    lemma_le_value_of_le_bytes(e.windows_attributes as u64, 4);
    let a = e.windows_attributes;
    assert((a as u64) & ((1u64 << 32u64) - 1) as u64 == a as u64) by (bit_vector);
    assert((8 * 4nat) as u64 == 32u64);
}

fn time_bytes(e: &SevenZArchiveEntry, field: &EntryTime) -> (r: Vec<u8>)
    ensures
        r@ == time_value(*field)(*e),
{
    match field {
        EntryTime::Creation => u64_le_bytes(e.creation_date as u64),
        EntryTime::Access => u64_le_bytes(e.access_date as u64),
        EntryTime::LastModified => u64_le_bytes(e.last_modified_date as u64),
        EntryTime::WindowsAttributes => u32_le_bytes(e.windows_attributes),
    }
}

/// Appends the record of a per-entry value.
fn write_times(header: &mut Vec<u8>, files: &Vec<SevenZArchiveEntry>, nid: u8, field: EntryTime)
    ensures
        final(header)@ == old(header)@ + spec_times(files@, nid, field),
{
    let ghost has = time_defined(field);
    let mut num: usize = 0;
    for i in 0..files.len()
        invariant
            has == time_defined(field),
            num == count_where(files@.take(i as int), has),
            num <= i,
    {
        proof {
            lemma_count_where_step(files@, has, i as int);
        }
        if has_time(&files[i], &field) {
            num += 1;
        }
    }
    assert(files@.take(files@.len() as int) =~= files@);
    if num > 0 {
        let mut temp: Vec<u8> = Vec::new();
        if num != files.len() {
            temp.push(0);
            let mut times = bit_set_with_capacity(files.len());
            for i in 0..files.len()
                invariant
                    has == time_defined(field),
                    bit_set_bits(times) == Seq::new(files@.len(), |k: int| k < i && has(files@[k])),
            {
                if has_time(&files[i], &field) {
                    bit_set_insert(&mut times, i);
                }
                assert(bit_set_bits(times) =~= Seq::new(
                    files@.len(),
                    |k: int| k < i + 1 && has(files@[k]),
                ));
            }
            assert(bit_set_bits(times) =~= position_flags(files@, has));
            write_bit_set(&mut temp, &times);
        } else {
            temp.push(1);
        }
        temp.push(0);
        let ghost start = temp@;
        for i in 0..files.len()
            invariant
                temp@ == start + flat_map(files@.take(i as int), time_values_part(field)),
        {
            proof {
                lemma_flat_map_step(files@, time_values_part(field), i as int);
            }
            if has_time(&files[i], &field) {
                let b = time_bytes(&files[i], &field);
                extend_bytes(&mut temp, &b);
            }
            assert(temp@ =~= start + flat_map(files@.take(i + 1), time_values_part(field)));
        }
        header.push(nid);
        write_u64(header, temp.len() as u64);
        extend_bytes(header, &temp);
    }
    reveal(spec_times);
    assert(header@ =~= old(header)@ + spec_times(files@, nid, field));
}

/// Appends the creation-time record.
pub fn write_file_ctimes(header: &mut Vec<u8>, files: &Vec<SevenZArchiveEntry>)
    ensures
        final(header)@ == old(header)@ + spec_times(files@, K_C_TIME, EntryTime::Creation),
{
    write_times(header, files, K_C_TIME, EntryTime::Creation);
}

/// Appends the access-time record.
pub fn write_file_atimes(header: &mut Vec<u8>, files: &Vec<SevenZArchiveEntry>)
    ensures
        final(header)@ == old(header)@ + spec_times(files@, K_A_TIME, EntryTime::Access),
{
    write_times(header, files, K_A_TIME, EntryTime::Access);
}

/// Appends the modification-time record.
pub fn write_file_mtimes(header: &mut Vec<u8>, files: &Vec<SevenZArchiveEntry>)
    ensures
        final(header)@ == old(header)@ + spec_times(files@, K_M_TIME, EntryTime::LastModified),
{
    write_times(header, files, K_M_TIME, EntryTime::LastModified);
}

/// Appends the Windows-attributes record. It goes under the same property
/// id as the modification times, the id the writer has always used for it.
pub fn write_file_windows_attrs(header: &mut Vec<u8>, files: &Vec<SevenZArchiveEntry>)
    ensures
        final(header)@ == old(header)@ + spec_times(files@, K_M_TIME, EntryTime::WindowsAttributes),
{
    write_times(header, files, K_M_TIME, EntryTime::WindowsAttributes);
}

/// The files info of the header: the number of entries, then the records
/// of empty streams, empty files, anti-items, names, creation, access and
/// modification times, and attributes.
pub open spec fn spec_files_info(files: Seq<SevenZArchiveEntry>) -> Seq<u8> {
    seq![K_FILES_INFO] + encode_u64(files.len() as u64) + spec_empty_streams(files)
        + spec_empty_files(files) + spec_anti_items(files) + spec_names(files) + spec_times(
        files,
        K_C_TIME,
        EntryTime::Creation,
    ) + spec_times(files, K_A_TIME, EntryTime::Access) + spec_times(
        files,
        K_M_TIME,
        EntryTime::LastModified,
    ) + spec_times(files, K_M_TIME, EntryTime::WindowsAttributes) + seq![K_END]
}

/// Appends the files info of the header.
pub fn write_files_info(header: &mut Vec<u8>, files: &Vec<SevenZArchiveEntry>)
    ensures
        final(header)@ == old(header)@ + spec_files_info(files@),
{
    header.push(K_FILES_INFO);
    write_u64(header, files.len() as u64);
    write_file_empty_streams(header, files);
    write_file_empty_files(header, files);
    write_file_anti_items(header, files);
    write_file_names(header, files);
    write_file_ctimes(header, files);
    write_file_atimes(header, files);
    write_file_mtimes(header, files);
    write_file_windows_attrs(header, files);
    header.push(K_END);
    assert(header@ =~= old(header)@ + spec_files_info(files@));
}

} // verus!
