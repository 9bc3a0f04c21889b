use sevenz_rust::{
    add_decoder, add_encoder, BcjFilter, Coder, Decoder, Encoder, Error, FileTime, LZMA2Options,
    Lzma2Reader, LzmaReader, MethodOptions, Password, SevenZArchiveEntry, SevenZMethod,
    SevenZMethodConfiguration,
};

fn unsupported_name<T>(r: Result<T, Error>) -> String {
    match r {
        Err(Error::UnsupportedCompressionMethod(m)) => m,
        _ => panic!("expected an unsupported method"),
    }
}

#[test]
fn methods_by_id() {
    assert_eq!(SevenZMethod::by_id(&[0x21]), Some(SevenZMethod::LZMA2));
    assert_eq!(SevenZMethod::by_id(&[0x03, 0x01, 0x01]), Some(SevenZMethod::LZMA));
    assert_eq!(SevenZMethod::by_id(&[0x06, 0xF1, 0x07, 0x01]), Some(SevenZMethod::AES256SHA256));
    assert_eq!(SevenZMethod::by_id(&[0x09, 0x09]), None);
    for m in [SevenZMethod::COPY, SevenZMethod::DELTA, SevenZMethod::BCJ_SPARC] {
        assert_eq!(SevenZMethod::by_id(&m.id()), Some(m));
    }
}

#[test]
fn encoders_for_methods() {
    let c = SevenZMethodConfiguration::new(SevenZMethod::LZMA2);
    match add_encoder(&c) {
        Ok(Encoder::LZMA2(o)) => assert_eq!(o.dict_size, LZMA2Options::DICT_SIZE_DEFAULT),
        _ => panic!("expected LZMA2"),
    }
    let c = SevenZMethodConfiguration::new(SevenZMethod::LZMA2).with_options(MethodOptions::Num(1 << 20));
    match add_encoder(&c) {
        Ok(Encoder::LZMA2(o)) => assert_eq!(o.dict_size, 1 << 20),
        _ => panic!("expected LZMA2"),
    }
    let c = SevenZMethodConfiguration::new(SevenZMethod::AES256SHA256);
    assert!(matches!(add_encoder(&c), Err(Error::PasswordRequired)));
    let c = SevenZMethodConfiguration::new(SevenZMethod::COPY);
    assert_eq!(unsupported_name(add_encoder(&c)), "COPY");
}

fn decoder(id: Vec<u8>, props: Vec<u8>) -> Result<Decoder, Error> {
    add_decoder(b"input".to_vec(), 5, &Coder::new(id, props), &[], 1 << 20)
}

#[test]
fn decoders_for_methods() {
    assert!(matches!(decoder(vec![0x00], vec![]), Ok(Decoder::COPY(x)) if x == b"input"));
    assert!(matches!(decoder(vec![0x03, 0x03, 0x05, 0x01], vec![]), Ok(Decoder::BCJ(BcjFilter::ARM, _))));
    assert!(matches!(decoder(vec![0x03, 0x03, 0x01, 0x03], vec![]), Ok(Decoder::BCJ(BcjFilter::X86, _))));
    assert!(matches!(decoder(vec![0x03], vec![]), Ok(Decoder::Delta(1, _))));
    assert!(matches!(decoder(vec![0x03], vec![3]), Ok(Decoder::Delta(4, _))));
    assert!(matches!(decoder(vec![0x21], vec![18]), Ok(Decoder::LZMA2(_))));
    assert!(matches!(decoder(vec![0x03, 0x01, 0x01], vec![0x5D, 0, 0, 1, 0]), Ok(Decoder::LZMA(_))));
}

#[test]
fn decoder_errors() {
    assert_eq!(unsupported_name(decoder(vec![0x99], vec![])), "[153]");
    assert_eq!(unsupported_name(decoder(vec![0x03, 0x04, 0x01], vec![])), "PPMD");
    assert_eq!(unsupported_name(decoder(vec![0x03, 0x03, 0x04, 0x01], vec![])), "BCJ_IA64");
    match decoder(vec![0x21], vec![41]) {
        Err(Error::Other(m)) => assert_eq!(m, "Dictionary larger than 4GiB maximum size"),
        _ => panic!("expected an error"),
    }
}

#[test]
fn lzma_dictionary_size() {
    let c = Coder::new(vec![0x03, 0x01, 0x01], vec![0x5D, 0x00, 0x00, 0x10, 0x00]);
    assert_eq!(sevenz_rust::lzma_coder::get_dic_size(&c), 0x0010_0000);
}

fn lzma2_stream(data: &[u8]) -> Vec<u8> {
    let mut input = data;
    let mut out = Vec::new();
    lzma_rs::lzma2_compress(&mut input, &mut out).unwrap();
    out
}

#[test]
fn lzma2_reader_hands_out_in_order() {
    let stream = lzma2_stream(b"hello");
    let coder = Coder::new(vec![0x21], vec![18]);
    let mut r = Lzma2Reader::new(stream, &coder).ok().unwrap();
    let mut empty: [u8; 0] = [];
    assert_eq!(r.read(&mut empty).unwrap(), 0);
    let mut buf = [0u8; 3];
    assert_eq!(r.read(&mut buf).unwrap(), 3);
    assert_eq!(&buf, b"hel");
    let mut buf = [0u8; 3];
    assert_eq!(r.read(&mut buf).unwrap(), 2);
    assert_eq!(&buf[..2], b"lo");
    assert_eq!(buf[2], 0);
}

#[test]
fn lzma2_reader_rejects_bad_properties() {
    let coder = Coder::new(vec![0x21], vec![]);
    match Lzma2Reader::new(Vec::new(), &coder) {
        Err(Error::Other(m)) => assert_eq!(m, "LZMA2 properties too short"),
        _ => panic!("expected an error"),
    }
}

#[test]
fn lzma_reader_decodes_raw_stream() {
    let data = b"a raw lzma stream";
    let mut input = data.as_slice();
    let mut full = Vec::new();
    lzma_rs::lzma_compress(&mut input, &mut full).unwrap();
    // header: properties (1), dictionary size (4), unpacked size (8)
    let props = full[0..5].to_vec();
    let raw = full[13..].to_vec();
    let coder = Coder::new(vec![0x03, 0x01, 0x01], props);
    let mut r = LzmaReader::new(raw, &coder, data.len(), 1 << 24);
    let mut buf = [0u8; 64];
    let n = r.read(&mut buf).unwrap();
    assert_eq!(&buf[..n], data.as_slice());
}

#[test]
fn method_options_dict_size() {
    assert_eq!(MethodOptions::Num(5).get_lzma2_dict_size(), 5);
    assert_eq!(MethodOptions::from(7u32).get_lzma2_dict_size(), 7);
    let o = MethodOptions::from(LZMA2Options::with_dict_size(4096));
    assert_eq!(o.get_lzma2_dict_size(), 4096);
    assert_eq!(LZMA2Options::default().dict_size, 0x80_0000);
}

#[test]
fn file_times() {
    let t = FileTime::from(1234u64);
    assert_eq!(u64::from(t), 1234);
    assert_eq!(FileTime::from(-1i64).raw(), u64::MAX);
    assert_eq!(FileTime::from_ntfs_duration(1, 500).raw(), 10_000_005);
    assert_eq!(FileTime::from_ntfs_duration(0, 0).raw(), 0);
    assert_eq!(FileTime::from_raw(3).ntfs_nanos(), 300);
    assert_eq!(FileTime::default().raw(), 0);
}

#[test]
fn passwords() {
    assert!(Password::empty().is_empty());
    let p = Password::new("ab");
    assert!(!p.is_empty());
    assert_eq!(p.as_slice(), &[0x61, 0x00, 0x62, 0x00]);
}

#[test]
fn entries_from_file_system_facts() {
    let e = SevenZArchiveEntry::from_path_facts("f".to_string(), true, false, Some(1500));
    assert!(e.has_stream() && !e.is_directory());
    assert_eq!(e.last_modified_date, 1500);
    assert!(e.has_last_modified_date);
    let d = SevenZArchiveEntry::from_path_facts("d".to_string(), false, true, Some(0));
    assert!(!d.has_last_modified_date);
    assert!(d.is_directory() && !d.is_anti_item());
    assert_eq!(d.name(), "d");
    assert_eq!(SevenZArchiveEntry::default().size(), 0);
}

#[test]
fn lzma2_reader_after_the_end() {
    let stream = lzma2_stream(b"xy");
    let coder = Coder::new(vec![0x21], vec![18]);
    let mut r = Lzma2Reader::new(stream, &coder).ok().unwrap();
    let mut buf = [0u8; 8];
    assert_eq!(r.read(&mut buf).unwrap(), 2);
    assert_eq!(&buf[..2], b"xy");
    // the cache is used up and no input is left: the decoder fails
    assert!(r.read(&mut buf).is_err());
}

#[test]
fn lzma2_reader_reports_corrupt_stream() {
    let coder = Coder::new(vec![0x21], vec![18]);
    let mut r = Lzma2Reader::new(vec![0x05, 0x00], &coder).ok().unwrap();
    let mut buf = [0u8; 4];
    assert!(r.read(&mut buf).is_err());
    assert_eq!(buf, [0u8; 4]);
}

#[test]
fn lzma_reader_small_reads_add_up_to_the_stream() {
    let data = b"small reads of one lzma stream";
    let mut input = data.as_slice();
    let mut full = Vec::new();
    lzma_rs::lzma_compress(&mut input, &mut full).unwrap();
    let props = full[0..5].to_vec();
    let raw = full[13..].to_vec();
    let coder = Coder::new(vec![0x03, 0x01, 0x01], props);
    let mut r = LzmaReader::new(raw, &coder, data.len(), 1 << 24);
    let mut got = Vec::new();
    while got.len() < data.len() {
        let mut buf = [0u8; 4];
        let n = r.read(&mut buf).unwrap();
        assert!(n > 0);
        got.extend_from_slice(&buf[..n]);
    }
    assert_eq!(got, data.to_vec());
}

#[test]
fn lzma2_reader_keeps_failing_after_the_end() {
    let stream = lzma2_stream(b"abc");
    let coder = Coder::new(vec![0x21], vec![18]);
    let mut r = Lzma2Reader::new(stream, &coder).ok().unwrap();
    let mut buf = [0u8; 2];
    assert_eq!(r.read(&mut buf).unwrap(), 2);
    assert_eq!(&buf, b"ab");
    assert_eq!(r.read(&mut buf).unwrap(), 1);
    assert_eq!(buf[0], b'c');
    assert!(r.read(&mut buf).is_err());
    assert!(r.read(&mut buf).is_err());
    let mut empty: [u8; 0] = [];
    assert_eq!(r.read(&mut empty).unwrap(), 0);
}

#[test]
fn lzma_reader_fails_after_the_end() {
    let data = b"abc";
    let mut input = data.as_slice();
    let mut full = Vec::new();
    lzma_rs::lzma_compress(&mut input, &mut full).unwrap();
    let props = full[0..5].to_vec();
    let raw = full[13..].to_vec();
    let coder = Coder::new(vec![0x03, 0x01, 0x01], props);
    let mut r = LzmaReader::new(raw, &coder, data.len(), 1 << 24);
    let mut buf = [0u8; 8];
    assert_eq!(r.read(&mut buf).unwrap(), 3);
    assert_eq!(&buf[..3], data.as_slice());
    assert!(r.read(&mut buf).is_err());
}
