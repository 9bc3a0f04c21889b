use bit_set::BitSet;
use sevenz_rust::archive::SevenZMethod;
use sevenz_rust::encoders::get_options_as_properties;
use sevenz_rust::files_info::write_utf16_le;
use sevenz_rust::header_codec::{write_bit_set, write_u64};
use sevenz_rust::lzma2_coder::get_dic_size;
use sevenz_rust::{Coder, Error, MethodOptions, LZMA2Options};

fn number(v: u64) -> Vec<u8> {
    let mut out = Vec::new();
    write_u64(&mut out, v);
    out
}

#[test]
fn number_one_byte() {
    assert_eq!(number(0), vec![0x00]);
    assert_eq!(number(0x7F), vec![0x7F]);
}

#[test]
fn number_two_bytes() {
    assert_eq!(number(0x80), vec![0x80, 0x80]);
    assert_eq!(number(0x3FFF), vec![0xBF, 0xFF]);
}

#[test]
fn number_three_bytes() {
    assert_eq!(number(0x4000), vec![0xC0, 0x00, 0x40]);
    assert_eq!(number(0x12345), vec![0xC1, 0x45, 0x23]);
}

#[test]
fn number_nine_bytes() {
    assert_eq!(number(u64::MAX), vec![0xFF; 9]);
    assert_eq!(
        number(1u64 << 56),
        vec![0xFF, 0, 0, 0, 0, 0, 0, 0, 0x01]
    );
}

#[test]
fn number_appends() {
    let mut out = vec![0xAA];
    write_u64(&mut out, 0x80);
    assert_eq!(out, vec![0xAA, 0x80, 0x80]);
}

fn bits(len: usize, set: &[usize]) -> Vec<u8> {
    let mut bs = BitSet::with_capacity(len);
    for i in set {
        bs.insert(*i);
    }
    let mut out = Vec::new();
    write_bit_set(&mut out, &bs);
    out
}

#[test]
fn bit_vector_partial_byte() {
    assert_eq!(bits(3, &[0, 2]), vec![0xA0]);
}

#[test]
fn bit_vector_full_bytes() {
    assert_eq!(bits(8, &[0, 1, 2, 3, 4, 5, 6, 7]), vec![0xFF]);
    assert_eq!(bits(16, &[7, 8]), vec![0x01, 0x80]);
}

#[test]
fn bit_vector_spanning_bytes() {
    assert_eq!(bits(9, &[0, 8]), vec![0x80, 0x80]);
    assert_eq!(bits(0, &[]), Vec::<u8>::new());
}

#[test]
fn bit_vector_grown_by_insert() {
    let mut bs = BitSet::new();
    bs.insert(1);
    bs.insert(4);
    let mut out = Vec::new();
    write_bit_set(&mut out, &bs);
    assert_eq!(out, vec![0x48]);
}

fn lzma2_coder(props: Vec<u8>) -> Coder {
    Coder::new(vec![0x21], props)
}

fn other_message(r: Result<u32, Error>) -> String {
    match r {
        Err(Error::Other(m)) => m,
        _ => panic!("expected an error"),
    }
}

#[test]
fn lzma2_dictionary_sizes() {
    assert_eq!(get_dic_size(&lzma2_coder(vec![0])).ok(), Some(4096));
    assert_eq!(get_dic_size(&lzma2_coder(vec![1])).ok(), Some(6144));
    assert_eq!(get_dic_size(&lzma2_coder(vec![18])).ok(), Some(2 << 20));
    assert_eq!(get_dic_size(&lzma2_coder(vec![22])).ok(), Some(8 << 20));
    assert_eq!(get_dic_size(&lzma2_coder(vec![39])).ok(), Some(3 << 30));
    assert_eq!(get_dic_size(&lzma2_coder(vec![40])).ok(), Some(0xFFFF_FFFF));
}

#[test]
fn lzma2_dictionary_errors() {
    assert_eq!(other_message(get_dic_size(&lzma2_coder(vec![]))), "LZMA2 properties too short");
    assert_eq!(
        other_message(get_dic_size(&lzma2_coder(vec![41]))),
        "Dictionary larger than 4GiB maximum size"
    );
    assert_eq!(
        other_message(get_dic_size(&lzma2_coder(vec![64]))),
        "Unsupported LZMA2 property bits"
    );
}

#[test]
fn lzma2_properties_of_options() {
    assert_eq!(get_options_as_properties(SevenZMethod::LZMA2, None), vec![22]);
    let num = MethodOptions::Num(6144);
    assert_eq!(get_options_as_properties(SevenZMethod::LZMA2, Some(&num)), vec![1]);
    let num = MethodOptions::Num(4096);
    assert_eq!(get_options_as_properties(SevenZMethod::LZMA2, Some(&num)), vec![0]);
    let num = MethodOptions::Num(0xFFFF_FFFF);
    assert_eq!(get_options_as_properties(SevenZMethod::LZMA2, Some(&num)), vec![39]);
    let opts = MethodOptions::LZMA2(LZMA2Options::with_dict_size(1 << 16));
    assert_eq!(get_options_as_properties(SevenZMethod::LZMA2, Some(&opts)), vec![8]);
    assert_eq!(get_options_as_properties(SevenZMethod::COPY, None), Vec::<u8>::new());
}

#[test]
fn lzma2_properties_round_down() {
    let num = MethodOptions::Num(5000);
    let props = get_options_as_properties(SevenZMethod::LZMA2, Some(&num));
    assert_eq!(props, vec![0]);
    assert_eq!(get_dic_size(&lzma2_coder(props)).ok(), Some(4096));
    let num = MethodOptions::Num(7000);
    let props = get_options_as_properties(SevenZMethod::LZMA2, Some(&num));
    assert_eq!(props, vec![1]);
    assert_eq!(get_dic_size(&lzma2_coder(props)).ok(), Some(6144));
}

#[test]
fn lzma2_properties_roundtrip() {
    for p in 1u8..40 {
        let size = get_dic_size(&lzma2_coder(vec![p])).ok().unwrap();
        let num = MethodOptions::Num(size);
        assert_eq!(get_options_as_properties(SevenZMethod::LZMA2, Some(&num)), vec![p]);
    }
}

#[test]
fn utf16_of_names() {
    let mut out = Vec::new();
    write_utf16_le(&mut out, "a\u{20AC}");
    assert_eq!(out, vec![0x61, 0x00, 0xAC, 0x20]);
    let mut out = Vec::new();
    write_utf16_le(&mut out, "\u{1F600}");
    assert_eq!(out, vec![0x3D, 0xD8, 0x00, 0xDE]);
}
