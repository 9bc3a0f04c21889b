use sevenz_rust::{
    compress, compress_encypted, Encoder, Error, LZMA2Options, Password, SevenZArchiveEntry,
    SevenZMethod, SevenZMethodConfiguration, SevenZWriter, SourceFile,
};

const CRC: crc::Crc<u32> = crc::Crc::<u32>::new(&crc::CRC_32_ISO_HDLC);

fn stored(data: &[u8]) -> Vec<u8> {
    let mut out = Vec::new();
    for chunk in data.chunks(0x10000) {
        out.push(1);
        out.extend(((chunk.len() - 1) as u16).to_be_bytes());
        out.extend(chunk);
    }
    out.push(0);
    out
}

fn lzma2(data: &[u8]) -> Vec<u8> {
    let mut input = data;
    let mut out = Vec::new();
    lzma_rs::lzma2_compress(&mut input, &mut out).unwrap();
    out
}

fn le64(b: &[u8]) -> u64 {
    let mut a = [0u8; 8];
    a.copy_from_slice(b);
    u64::from_le_bytes(a)
}

fn le32(b: &[u8]) -> u32 {
    let mut a = [0u8; 4];
    a.copy_from_slice(b);
    u32::from_le_bytes(a)
}

/// Checks the signature header and returns (packed streams, header).
fn split_archive(a: &[u8]) -> (Vec<u8>, Vec<u8>) {
    assert_eq!(&a[0..6], &[0x37, 0x7A, 0xBC, 0xAF, 0x27, 0x1C]);
    assert_eq!(&a[6..8], &[0, 2]);
    assert_eq!(le32(&a[8..12]), CRC.checksum(&a[12..32]));
    let offset = le64(&a[12..20]) as usize;
    let len = le64(&a[20..28]) as usize;
    let header = &a[32 + offset..];
    assert_eq!(header.len(), len);
    assert_eq!(le32(&a[28..32]), CRC.checksum(header));
    (a[32..32 + offset].to_vec(), header.to_vec())
}

fn named(name: &str) -> SevenZArchiveEntry {
    SevenZArchiveEntry::new(name.to_string())
}

#[test]
fn empty_archive() {
    let a = SevenZWriter::new().finish();
    let (packed, header) = split_archive(&a);
    assert!(packed.is_empty());
    assert_eq!(
        header,
        vec![0x01, 0x04, 0x08, 0x00, 0x00, 0x05, 0x00, 0x11, 0x01, 0x00, 0x00, 0x00]
    );
    assert_eq!(a.len(), 44);
}

#[test]
fn entries_without_streams() {
    let mut w = SevenZWriter::new();
    w.push_archive_entry(named("a"), None).unwrap();
    let mut d = named("d");
    d.is_directory = true;
    w.push_archive_entry(d, Some(b"ignored".as_slice())).unwrap();
    assert!(!w.files()[1].has_stream);
    assert_eq!(w.files()[1].size, 0);
    let (packed, header) = split_archive(&w.finish());
    assert!(packed.is_empty());
    assert_eq!(
        header,
        vec![
            0x01, 0x04, 0x08, 0x00, 0x00, // no streams
            0x05, 0x02, // two entries
            0x0E, 0x01, 0xC0, // both have no stream
            0x0F, 0x01, 0x80, // the first is an empty file
            0x11, 0x09, 0x00, 0x61, 0x00, 0x00, 0x00, 0x64, 0x00, 0x00, 0x00, // names
            0x00, 0x00,
        ]
    );
}

#[test]
fn entry_with_stream() {
    let mut w = SevenZWriter::new();
    w.push_archive_entry(named("f"), Some(b"hello world".as_slice())).unwrap();
    let packed_expected = lzma2(b"hello world");
    let e = &w.files()[0];
    assert!(e.has_stream && e.has_crc);
    assert_eq!(e.size, 11);
    assert_eq!(e.crc, CRC.checksum(b"hello world") as u64);
    assert_eq!(e.crc, 0x0D4A_1185);
    assert_eq!(e.compressed_size, packed_expected.len() as u64);
    assert_eq!(e.compressed_crc, CRC.checksum(&packed_expected) as u64);
    assert_eq!(e.content_methods.len(), 1);
    let (packed, header) = split_archive(&w.finish());
    assert_eq!(packed, packed_expected);
    let mut expected = vec![0x01, 0x04];
    // pack info
    expected.extend([0x06, 0x00, 0x01, 0x09, packed_expected.len() as u8, 0x0A, 0x01]);
    expected.extend(CRC.checksum(&packed_expected).to_le_bytes());
    expected.push(0x00);
    // unpack info: one folder with one LZMA2 coder (dictionary property 22)
    expected.extend([0x07, 0x0B, 0x01, 0x00, 0x01, 0x21, 0x21, 0x01, 22]);
    expected.extend([0x0C, 11, 0x0A, 0x01]);
    expected.extend(CRC.checksum(b"hello world").to_le_bytes());
    expected.push(0x00);
    // substreams, end of streams info
    expected.extend([0x08, 0x00, 0x00]);
    // files info: one entry, its name
    expected.extend([0x05, 0x01, 0x11, 0x05, 0x00, 0x66, 0x00, 0x00, 0x00, 0x00, 0x00]);
    assert_eq!(header, expected);
}

#[test]
fn crc_of_check_string() {
    let mut w = SevenZWriter::new();
    w.push_archive_entry(named("c"), Some(b"123456789".as_slice())).unwrap();
    assert_eq!(w.files()[0].crc, 0xCBF4_3926);
}

#[test]
fn anti_items_are_marked() {
    let mut w = SevenZWriter::new();
    let cases = [
        ("not_anti.txt", false, false),
        ("anti.txt", false, true),
        ("not_anti", true, false),
        ("anti", true, true),
    ];
    for (name, dir, anti) in cases {
        let mut e = named(name);
        e.is_directory = dir;
        e.is_anti_item = anti;
        w.push_archive_entry(e, None).unwrap();
    }
    let mut e = named("anti_with_contents.txt");
    e.is_anti_item = true;
    w.push_archive_entry(e, Some(b"hello world".as_slice())).unwrap();
    assert!(w.files()[4].has_stream);
    assert!(w.files()[4].is_anti_item);
    let (_, header) = split_archive(&w.finish());
    // entries without a stream: the first four; anti-items among them: 1 and 3
    let anti = [0x10, 0x01, 0x50];
    assert!(header.windows(3).any(|x| x == anti));
    // empty files among them: 0 and 1
    let empty_files = [0x0F, 0x01, 0xC0];
    assert!(header.windows(3).any(|x| x == empty_files));
    // empty streams among all five entries: 0 to 3
    let empty_streams = [0x0E, 0x01, 0xF0];
    assert!(header.windows(3).any(|x| x == empty_streams));
}

#[test]
fn times_and_attributes() {
    let mut w = SevenZWriter::new();
    let mut e = named("t");
    e.has_last_modified_date = true;
    e.last_modified_date = 0x0102_0304_0506_0708;
    w.push_archive_entry(e, None).unwrap();
    w.push_archive_entry(named("u"), None).unwrap();
    let (_, header) = split_archive(&w.finish());
    // the modification time of the first of two entries
    let mtime = [0x14, 0x0B, 0x00, 0x80, 0x00, 0x08, 0x07, 0x06, 0x05, 0x04, 0x03, 0x02, 0x01];
    assert!(header.windows(mtime.len()).any(|x| x == mtime));
}

#[test]
fn unsupported_chain_changes_nothing() {
    let mut w = SevenZWriter::new();
    w.set_content_methods(vec![SevenZMethodConfiguration::new(SevenZMethod::BZIP2)]);
    match w.push_archive_entry(named("f"), Some(b"data".as_slice())) {
        Err(Error::UnsupportedCompressionMethod(m)) => assert_eq!(m, "BZIP2"),
        _ => panic!("expected an unsupported method"),
    }
    assert_eq!(w.files().len(), 0);
}

#[test]
fn chained_lzma2_records_sizes() {
    let mut w = SevenZWriter::new();
    let mut e = named("twice");
    e.content_methods = vec![
        SevenZMethodConfiguration::new(SevenZMethod::LZMA2),
        SevenZMethodConfiguration::new(SevenZMethod::LZMA2),
    ];
    w.push_archive_entry(e, Some(b"abc".as_slice())).unwrap();
    let inner = lzma2(b"abc");
    let outer = lzma2(&inner);
    assert_eq!(w.files()[0].compressed_size, outer.len() as u64);
    let (packed, header) = split_archive(&w.finish());
    assert_eq!(packed, outer);
    // unpacked sizes: the stream between the coders, then the data
    let sizes = [0x0C, inner.len() as u8, 3, 0x0A];
    assert!(header.windows(4).any(|x| x == sizes));
    // two coders, bound 1 -> 0
    let folder = [0x02, 0x21, 0x21, 0x01, 22, 0x21, 0x21, 0x01, 22, 0x01, 0x00];
    assert!(header.windows(folder.len()).any(|x| x == folder));
}

#[test]
fn encoder_packs_with_lzma2() {
    let e = Encoder::LZMA2(LZMA2Options::default());
    let out = e.encode(b"some data");
    assert_eq!(out, lzma2(b"some data"));
    let mut expected = vec![1, 0, 8];
    expected.extend(b"some data");
    expected.push(0);
    assert_eq!(out, expected);
    assert_eq!(Encoder::LZMA2(LZMA2Options::default()).encode(b""), vec![0]);
    let big = vec![7u8; 0x10001];
    assert_eq!(Encoder::LZMA2(LZMA2Options::default()).encode(&big), stored(&big));
    assert_ne!(out, b"some data".to_vec());
}

fn source(name: &str, data: &[u8]) -> SourceFile {
    SourceFile { name: name.to_string(), modified_millis: Some(1000), data: data.to_vec() }
}

#[test]
fn compress_files() {
    let a = compress(vec![source("a.txt", b"alpha"), source("b.txt", b"beta")]).unwrap();
    let (packed, _) = split_archive(&a);
    let mut expected = lzma2(b"alpha");
    expected.extend(lzma2(b"beta"));
    assert_eq!(packed, expected);
}

#[test]
fn compress_with_password_needs_encoder() {
    let r = compress_encypted(vec![source("a.txt", b"alpha")], Password::new("secret"));
    assert!(matches!(r, Err(Error::PasswordRequired)));
    let empty = compress_encypted(vec![], Password::new("secret")).unwrap();
    assert_eq!(empty, SevenZWriter::new().finish());
    let plain = compress_encypted(vec![source("a.txt", b"alpha")], Password::empty()).unwrap();
    assert_eq!(plain, compress(vec![source("a.txt", b"alpha")]).unwrap());
}

#[test]
fn packed_sizes_add_up_to_header_offset() {
    let mut w = SevenZWriter::new();
    w.push_archive_entry(named("one"), Some(b"first file".as_slice())).unwrap();
    w.push_archive_entry(named("dir"), None).unwrap();
    w.push_archive_entry(named("two"), Some(b"second file, longer".as_slice())).unwrap();
    let total: u64 = w.files().iter().filter(|e| e.has_stream).map(|e| e.compressed_size).sum();
    let a = w.finish();
    assert_eq!(le64(&a[12..20]), total);
    let (packed, _) = split_archive(&a);
    assert_eq!(packed.len() as u64, total);
}

#[test]
fn compress_decompress_anti_items() {
    let mut sz = SevenZWriter::new();
    let cases = [
        ("not_anti.txt", false, false),
        ("anti.txt", false, true),
        ("not_anti", true, false),
        ("anti", true, true),
        ("anti_with_anti_file", true, true),
        ("anti_with_anti_file/anti.txt", false, true),
        ("anti_with_not_anti_file", true, true),
        ("anti_with_not_anti_file/not_anti.txt", false, false),
        ("not_anti_with_anti_file", true, false),
        ("not_anti_with_anti_file/anti.txt", false, true),
    ];
    for (name, dir, anti) in cases {
        let mut e = SevenZArchiveEntry::default();
        e.name = name.to_string();
        e.has_stream = false;
        e.is_directory = dir;
        e.is_anti_item = anti;
        sz.push_archive_entry(e, None).unwrap();
    }
    let mut e = SevenZArchiveEntry::default();
    e.name = "anti_with_contents.txt".to_string();
    e.has_stream = false;
    e.is_directory = false;
    e.is_anti_item = true;
    sz.push_archive_entry(e, Some(b"hello world".as_slice())).unwrap();
    for (i, (name, _, anti)) in cases.iter().enumerate() {
        assert_eq!(&sz.files()[i].name, name);
        assert_eq!(sz.files()[i].is_anti_item, *anti);
        assert!(!sz.files()[i].has_stream);
    }
    assert!(sz.files()[10].has_stream);
    let (_, header) = split_archive(&sz.finish());
    // one bit for each of the ten entries without a stream
    let empty_streams = [0x0E, 0x02, 0xFF, 0xC0];
    assert!(header.windows(4).any(|x| x == empty_streams));
    let empty_files = [0x0F, 0x02, 0xC5, 0x40];
    assert!(header.windows(4).any(|x| x == empty_files));
    let anti = [0x10, 0x02, 0x5E, 0x40];
    assert!(header.windows(4).any(|x| x == anti));
}

#[test]
fn empty_file_record_covers_every_entry_without_stream() {
    let mut w = SevenZWriter::new();
    w.push_archive_entry(named("file"), None).unwrap();
    for i in 0..8 {
        let mut d = named(&format!("dir{}", i));
        d.is_directory = true;
        w.push_archive_entry(d, None).unwrap();
    }
    let (_, header) = split_archive(&w.finish());
    let empty_files = [0x0F, 0x02, 0x80, 0x00];
    assert!(header.windows(4).any(|x| x == empty_files));
}

#[test]
fn attributes_record() {
    let mut w = SevenZWriter::new();
    let mut e = named("a");
    e.has_windows_attributes = true;
    e.windows_attributes = 0x20;
    w.push_archive_entry(e, None).unwrap();
    let (_, header) = split_archive(&w.finish());
    let attrs = [0x14, 0x06, 0x01, 0x00, 0x20, 0x00, 0x00, 0x00];
    assert!(header.windows(attrs.len()).any(|x| x == attrs));
}

#[test]
fn folder_of_an_entry_without_a_stream() {
    let mut e = named("no stream");
    e.has_stream = false;
    e.content_methods = vec![
        SevenZMethodConfiguration::new(SevenZMethod::COPY),
        SevenZMethodConfiguration::new(SevenZMethod::COPY),
    ];
    let mut header = vec![0xAA];
    let mut cache = vec![9, 9, 9];
    sevenz_rust::header::write_folder(&mut header, &e, &mut cache);
    assert_eq!(header, vec![0xAA, 2, 0x01, 0x00, 0x01, 0x00, 1, 0]);
    assert_eq!(cache, vec![0x01, 0x00, 0x01, 0x00]);
}
