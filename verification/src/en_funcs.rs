use vstd::prelude::*;

use crate::archive::{SevenZArchiveEntry, SevenZMethod, SevenZMethodConfiguration};
use crate::checksum::crc32_of;
use crate::encoders::lzma2_stored;
use crate::error::Error;
use crate::header::{all_recordable, entry_recordable, flat_map, lemma_flat_map_step};
use crate::method_options::LZMA2Options;
use crate::password::Password;
use crate::writer::{chain_encoders, chain_packed, SevenZWriter};

verus! {

/// A file to archive, as the file system gave it: its name in the archive,
/// its modification time in milliseconds since the UNIX epoch where known,
/// and its contents.
pub struct SourceFile {
    pub name: String,
    pub modified_millis: Option<u128>,
    pub data: Vec<u8>,
}

/// The LZMA2 stream of a file's contents.
pub open spec fn packed_part() -> spec_fn(SourceFile) -> Seq<u8> {
    |f: SourceFile| lzma2_stored(f.data@)
}

/// The entry that archiving `f` with the default LZMA2 chain records.
pub open spec fn entry_of_source(e: SevenZArchiveEntry, f: SourceFile) -> bool {
    &&& e.name@ == f.name@
    &&& e.has_stream
    &&& !e.is_directory
    &&& !e.is_anti_item
    &&& e.last_modified_date == (match f.modified_millis {
        Some(m) => m as i64,
        None => 0i64,
    })
    &&& e.has_last_modified_date == (e.last_modified_date > 0)
    &&& !e.has_creation_date && !e.has_access_date && !e.has_windows_attributes
    &&& e.content_methods@ == seq![SevenZMethodConfiguration { method: SevenZMethod::LZMA2, options: None }]
    &&& e.size == f.data@.len()
    &&& e.has_crc && e.crc == crc32_of(f.data@) as u64
    &&& e.compressed_size == lzma2_stored(f.data@).len()
    &&& e.compressed_crc == crc32_of(lzma2_stored(f.data@)) as u64
}

/// The writer that archiving `files`, one after the other, leaves behind.
pub open spec fn archived_from(w: SevenZWriter, files: Seq<SourceFile>) -> bool {
    &&& w.entries().len() == files.len()
    &&& forall|i: int| 0 <= i < files.len() ==> entry_of_source(#[trigger] w.entries()[i], files[i])
    &&& w.packed() == flat_map(files, packed_part())
    &&& w.stream_count() == files.len()
    &&& w.size_records() == Seq::<(String, Vec<u64>)>::empty()
}

proof fn lemma_default_chain(d: Seq<u8>)
    ensures
        chain_packed(seq![SevenZMethodConfiguration { method: SevenZMethod::LZMA2, options: None }], d)
            == lzma2_stored(d),
{
    let ms = seq![SevenZMethodConfiguration { method: SevenZMethod::LZMA2, options: None }];
    assert(chain_encoders(ms).len() == 1);
}

/// Pushes `files` into `z`, each as a file with a stream, in order.
fn push_files(z: &mut SevenZWriter, files: &Vec<SourceFile>)
    requires
        old(z).wf(),
        old(z).entries().len() == 0,
        old(z).packed().len() == 0,
        old(z).stream_count() == 0,
        old(z).size_records().len() == 0,
        old(z).methods() == seq![SevenZMethodConfiguration { method: SevenZMethod::LZMA2, options: None }],
    ensures
        final(z).wf(),
        all_recordable(final(z).entries()),
        archived_from(*final(z), files@),
{
    let ghost default_methods = seq![SevenZMethodConfiguration { method: SevenZMethod::LZMA2, options: None }];
    assert(z.packed() =~= flat_map(files@.take(0), packed_part()));
    assert(z.size_records() =~= Seq::<(String, Vec<u64>)>::empty());
    for i in 0..files.len()
        invariant
            z.wf(),
            z.methods() == default_methods,
            default_methods == seq![SevenZMethodConfiguration { method: SevenZMethod::LZMA2, options: None }],
            all_recordable(z.entries()),
            archived_from(*z, files@.take(i as int)),
    {
        let f = &files[i];
        let entry = SevenZArchiveEntry::from_path_facts(f.name.clone(), true, false, f.modified_millis);
        let ghost before = *z;
        proof {
            lemma_default_chain(f.data@);
            lemma_flat_map_step(files@, packed_part(), i as int);
            assert(crate::writer::chain_ok(default_methods));
        }
        let _pushed = z.push_archive_entry(entry, Some(f.data.as_slice()));
        proof {
            let e = z.entries().last();
            assert(entry_recordable(e)) by {
                assert(e.content_methods@ == default_methods);
                assert(e.content_methods@[0].options is None);
                assert(LZMA2Options::DICT_SIZE_DEFAULT >= 4096);
            }
            assert forall|j: int| 0 <= j < z.entries().len() implies entry_recordable(#[trigger] z.entries()[j]) by {
                if j < z.entries().len() - 1 {
                    assert(z.entries()[j] == before.entries()[j]);
                }
            }
            assert forall|j: int| 0 <= j < i + 1 implies entry_of_source(#[trigger] z.entries()[j], files@.take(i + 1)[j]) by {
                if j < i {
                    assert(z.entries()[j] == before.entries()[j]);
                }
            }
        }
    }
    assert(files@.take(files@.len() as int) =~= files@);
}

/// Archives `files`, one after the other and each packed with LZMA2, and
/// returns the archive.
pub fn compress(files: Vec<SourceFile>) -> (r: Result<Vec<u8>, Error>)
    ensures
        r matches Ok(a) && exists|w: SevenZWriter| archived_from(w, files@) && a@ == w.spec_finish(),
{
    let mut z = SevenZWriter::new();
    push_files(&mut z, &files);
    let ghost w = z;
    let a = z.finish();
    Ok(a)
}

/// Archives `files` like `compress`, where `password` is empty. With a
/// password the entries are to be encrypted with AES-256 and then packed
/// with LZMA2; this crate has no AES-256 encoder stage, so adding the first
/// file fails with `PasswordRequired` (with no files the archive is empty).
pub fn compress_encypted(files: Vec<SourceFile>, password: Password) -> (r: Result<Vec<u8>, Error>)
    ensures
        password.spec_bytes().len() == 0 ==> (r matches Ok(a) && exists|w: SevenZWriter|
            archived_from(w, files@) && a@ == w.spec_finish()),
        password.spec_bytes().len() > 0 && files@.len() > 0 ==> r matches Err(Error::PasswordRequired),
        password.spec_bytes().len() > 0 && files@.len() == 0 ==> (r matches Ok(a) && a@
            == crate::writer::spec_archive(
            Seq::empty(),
            crate::writer::spec_header(Seq::empty(), Seq::empty(), 0),
        )),
{
    if password.is_empty() {
        return compress(files);
    }
    let mut z = SevenZWriter::new();
    let mut methods: Vec<SevenZMethodConfiguration> = Vec::new();
    methods.push(SevenZMethodConfiguration::new(SevenZMethod::AES256SHA256));
    methods.push(SevenZMethodConfiguration::new(SevenZMethod::LZMA2));
    z.set_content_methods(methods);
    let ghost ms = z.methods();
    assert(!crate::writer::chain_ok(ms)) by {
        assert(ms[0].method == SevenZMethod::AES256SHA256);
    }
    for i in 0..files.len()
        invariant
            i == 0,
            z.wf(),
            z.methods() == ms,
            ms.len() == 2,
            ms[0].method == SevenZMethod::AES256SHA256,
            !crate::writer::chain_ok(ms),
            z.entries().len() == 0,
            z.packed().len() == 0,
            z.size_records().len() == 0,
            z.stream_count() == 0,
            password.spec_bytes().len() > 0,
    {
        let f = &files[i];
        let entry = SevenZArchiveEntry::from_path_facts(f.name.clone(), true, false, f.modified_millis);
        proof {
            crate::writer::lemma_first_unencodable_at(ms, 0);
        }
        match z.push_archive_entry(entry, Some(f.data.as_slice())) {
            Ok(()) => {},
            Err(e) => {
                return Err(e);
            },
        }
    }
    assert(z.entries() =~= Seq::<SevenZArchiveEntry>::empty());
    assert(all_recordable(z.entries()));
    assert(z.packed() =~= Seq::<u8>::empty());
    assert(z.size_records() =~= Seq::<(String, Vec<u64>)>::empty());
    let a = z.finish();
    Ok(a)
}

} // verus!
