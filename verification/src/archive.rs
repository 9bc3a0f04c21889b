use vstd::prelude::*;

verus! {

/// Size of the signature header at the start of every 7z archive.
pub const SIGNATURE_HEADER_SIZE: u64 = 32;

/// Property ids of the 7z header.
pub const K_END: u8 = 0x00;
pub const K_HEADER: u8 = 0x01;
pub const K_MAIN_STREAMS_INFO: u8 = 0x04;
pub const K_FILES_INFO: u8 = 0x05;
pub const K_PACK_INFO: u8 = 0x06;
pub const K_UNPACK_INFO: u8 = 0x07;
pub const K_SUB_STREAMS_INFO: u8 = 0x08;
pub const K_SIZE: u8 = 0x09;
pub const K_CRC: u8 = 0x0A;
pub const K_FOLDER: u8 = 0x0B;
pub const K_CODERS_UNPACK_SIZE: u8 = 0x0C;
pub const K_EMPTY_STREAM: u8 = 0x0E;
pub const K_EMPTY_FILE: u8 = 0x0F;
pub const K_ANTI: u8 = 0x10;
pub const K_NAME: u8 = 0x11;
pub const K_C_TIME: u8 = 0x12;
pub const K_A_TIME: u8 = 0x13;
pub const K_M_TIME: u8 = 0x14;

/// The six bytes that open every 7z archive.
pub open spec fn seven_z_signature() -> Seq<u8> {
    seq![0x37u8, 0x7Au8, 0xBCu8, 0xAFu8, 0x27u8, 0x1Cu8]
}

/// The methods of the 7z format that this crate knows by id.
#[allow(non_camel_case_types)]
#[derive(Debug, Clone, Copy, PartialEq, Eq, Structural)]
pub enum SevenZMethod {
    COPY,
    LZMA,
    LZMA2,
    PPMD,
    BZIP2,
    DEFLATE,
    DEFLATE64,
    DELTA,
    BCJ_X86,
    BCJ_PPC,
    BCJ_IA64,
    BCJ_ARM,
    BCJ_ARM_THUMB,
    BCJ_SPARC,
    AES256SHA256,
}

impl SevenZMethod {
    /// The id by which the archive names the method.
    pub open spec fn spec_id(self) -> Seq<u8> {
        match self {
            SevenZMethod::COPY => seq![0x00u8],
            SevenZMethod::LZMA => seq![0x03u8, 0x01u8, 0x01u8],
            SevenZMethod::LZMA2 => seq![0x21u8],
            SevenZMethod::PPMD => seq![0x03u8, 0x04u8, 0x01u8],
            SevenZMethod::BZIP2 => seq![0x04u8, 0x02u8, 0x02u8],
            SevenZMethod::DEFLATE => seq![0x04u8, 0x01u8, 0x08u8],
            SevenZMethod::DEFLATE64 => seq![0x04u8, 0x01u8, 0x09u8],
            SevenZMethod::DELTA => seq![0x03u8],
            SevenZMethod::BCJ_X86 => seq![0x03u8, 0x03u8, 0x01u8, 0x03u8],
            SevenZMethod::BCJ_PPC => seq![0x03u8, 0x03u8, 0x02u8, 0x05u8],
            SevenZMethod::BCJ_IA64 => seq![0x03u8, 0x03u8, 0x04u8, 0x01u8],
            SevenZMethod::BCJ_ARM => seq![0x03u8, 0x03u8, 0x05u8, 0x01u8],
            SevenZMethod::BCJ_ARM_THUMB => seq![0x03u8, 0x03u8, 0x07u8, 0x01u8],
            SevenZMethod::BCJ_SPARC => seq![0x03u8, 0x03u8, 0x08u8, 0x05u8],
            SevenZMethod::AES256SHA256 => seq![0x06u8, 0xF1u8, 0x07u8, 0x01u8],
        }
    }

    /// The method's name.
    pub open spec fn spec_name(self) -> Seq<char> {
        match self {
            SevenZMethod::COPY => "COPY"@,
            SevenZMethod::LZMA => "LZMA"@,
            SevenZMethod::LZMA2 => "LZMA2"@,
            SevenZMethod::PPMD => "PPMD"@,
            SevenZMethod::BZIP2 => "BZIP2"@,
            SevenZMethod::DEFLATE => "DEFLATE"@,
            SevenZMethod::DEFLATE64 => "DEFLATE64"@,
            SevenZMethod::DELTA => "DELTA"@,
            SevenZMethod::BCJ_X86 => "BCJ_X86"@,
            SevenZMethod::BCJ_PPC => "BCJ_PPC"@,
            SevenZMethod::BCJ_IA64 => "BCJ_IA64"@,
            SevenZMethod::BCJ_ARM => "BCJ_ARM"@,
            SevenZMethod::BCJ_ARM_THUMB => "BCJ_ARM_THUMB"@,
            SevenZMethod::BCJ_SPARC => "BCJ_SPARC"@,
            SevenZMethod::AES256SHA256 => "AES256SHA256"@,
        }
    }

    /// The id by which the archive names the method.
    pub fn id(&self) -> (r: Vec<u8>)
        ensures
            r@ == self.spec_id(),
    {
        let r = match self {
            SevenZMethod::COPY => vec![0x00u8],
            SevenZMethod::LZMA => vec![0x03u8, 0x01, 0x01],
            SevenZMethod::LZMA2 => vec![0x21u8],
            SevenZMethod::PPMD => vec![0x03u8, 0x04, 0x01],
            SevenZMethod::BZIP2 => vec![0x04u8, 0x02, 0x02],
            SevenZMethod::DEFLATE => vec![0x04u8, 0x01, 0x08],
            SevenZMethod::DEFLATE64 => vec![0x04u8, 0x01, 0x09],
            SevenZMethod::DELTA => vec![0x03u8],
            SevenZMethod::BCJ_X86 => vec![0x03u8, 0x03, 0x01, 0x03],
            SevenZMethod::BCJ_PPC => vec![0x03u8, 0x03, 0x02, 0x05],
            SevenZMethod::BCJ_IA64 => vec![0x03u8, 0x03, 0x04, 0x01],
            SevenZMethod::BCJ_ARM => vec![0x03u8, 0x03, 0x05, 0x01],
            SevenZMethod::BCJ_ARM_THUMB => vec![0x03u8, 0x03, 0x07, 0x01],
            SevenZMethod::BCJ_SPARC => vec![0x03u8, 0x03, 0x08, 0x05],
            SevenZMethod::AES256SHA256 => vec![0x06u8, 0xF1, 0x07, 0x01],
        };
        assert(r@ =~= self.spec_id());
        r
    }

    /// The method's name.
    pub fn name(&self) -> (r: &'static str)
        ensures
            r@ == self.spec_name(),
    {
        match self {
            SevenZMethod::COPY => "COPY",
            SevenZMethod::LZMA => "LZMA",
            SevenZMethod::LZMA2 => "LZMA2",
            SevenZMethod::PPMD => "PPMD",
            SevenZMethod::BZIP2 => "BZIP2",
            SevenZMethod::DEFLATE => "DEFLATE",
            SevenZMethod::DEFLATE64 => "DEFLATE64",
            SevenZMethod::DELTA => "DELTA",
            SevenZMethod::BCJ_X86 => "BCJ_X86",
            SevenZMethod::BCJ_PPC => "BCJ_PPC",
            SevenZMethod::BCJ_IA64 => "BCJ_IA64",
            SevenZMethod::BCJ_ARM => "BCJ_ARM",
            SevenZMethod::BCJ_ARM_THUMB => "BCJ_ARM_THUMB",
            SevenZMethod::BCJ_SPARC => "BCJ_SPARC",
            SevenZMethod::AES256SHA256 => "AES256SHA256",
        }
    }

    /// Every method, in the order in which `by_id` tries them.
    pub open spec fn all() -> Seq<SevenZMethod> {
        seq![
            SevenZMethod::COPY, SevenZMethod::LZMA, SevenZMethod::LZMA2, SevenZMethod::PPMD,
            SevenZMethod::BZIP2, SevenZMethod::DEFLATE, SevenZMethod::DEFLATE64,
            SevenZMethod::DELTA, SevenZMethod::BCJ_X86, SevenZMethod::BCJ_PPC,
            SevenZMethod::BCJ_IA64, SevenZMethod::BCJ_ARM, SevenZMethod::BCJ_ARM_THUMB,
            SevenZMethod::BCJ_SPARC, SevenZMethod::AES256SHA256,
        ]
    }

    /// The method whose id is `id`, if any.
    pub open spec fn spec_by_id(id: Seq<u8>) -> Option<SevenZMethod> {
        if exists|m: SevenZMethod| m.spec_id() == id {
            Some(choose|m: SevenZMethod| m.spec_id() == id)
        } else {
            None
        }
    }
}

impl SevenZMethod {
    /// No two methods share an id.
    pub proof fn lemma_ids_distinct(m1: SevenZMethod, m2: SevenZMethod)
        ensures
            m1.spec_id() == m2.spec_id() ==> m1 == m2,
    {
        if m1.spec_id() == m2.spec_id() && m1 != m2 {
            let a = m1.spec_id();
            let b = m2.spec_id();
            assert(a.len() == b.len());
            assert(a[0] == b[0]);
            assert(a.len() > 1 ==> a[1] == b[1]);
            assert(a.len() > 2 ==> a[2] == b[2]);
            assert(a.len() > 3 ==> a[3] == b[3]);
        }
    }

    /// The method whose id is `id`, if any.
    pub fn by_id(id: &[u8]) -> (r: Option<SevenZMethod>)
        ensures
            r == Self::spec_by_id(id@),
    {
        let all = vec![
            SevenZMethod::COPY, SevenZMethod::LZMA, SevenZMethod::LZMA2, SevenZMethod::PPMD,
            SevenZMethod::BZIP2, SevenZMethod::DEFLATE, SevenZMethod::DEFLATE64,
            SevenZMethod::DELTA, SevenZMethod::BCJ_X86, SevenZMethod::BCJ_PPC,
            SevenZMethod::BCJ_IA64, SevenZMethod::BCJ_ARM, SevenZMethod::BCJ_ARM_THUMB,
            SevenZMethod::BCJ_SPARC, SevenZMethod::AES256SHA256,
        ];
        assert(all@ =~= Self::all());
        let n = all.len();
        for i in 0..n
            invariant
                n == all@.len(),
                all@ == Self::all(),
                forall|j: int| 0 <= j < i ==> (#[trigger] all@[j]).spec_id() != id@,
        {
            let m = all[i];
            let mid = m.id();
            if bytes_equal(mid.as_slice(), id) {
                proof {
                    assert(Self::all()[i as int].spec_id() == id@);
                    let c = choose|m2: SevenZMethod| m2.spec_id() == id@;
                    Self::lemma_ids_distinct(c, m);
                }
                return Some(m);
            }
        }
        proof {
            assert forall|m2: SevenZMethod| m2.spec_id() != id@ by {
                let k: int = match m2 {
                    SevenZMethod::COPY => 0,
                    SevenZMethod::LZMA => 1,
                    SevenZMethod::LZMA2 => 2,
                    SevenZMethod::PPMD => 3,
                    SevenZMethod::BZIP2 => 4,
                    SevenZMethod::DEFLATE => 5,
                    SevenZMethod::DEFLATE64 => 6,
                    SevenZMethod::DELTA => 7,
                    SevenZMethod::BCJ_X86 => 8,
                    SevenZMethod::BCJ_PPC => 9,
                    SevenZMethod::BCJ_IA64 => 10,
                    SevenZMethod::BCJ_ARM => 11,
                    SevenZMethod::BCJ_ARM_THUMB => 12,
                    SevenZMethod::BCJ_SPARC => 13,
                    SevenZMethod::AES256SHA256 => 14,
                };
                assert(all@[k] == m2);
            }
        }
        None
    }
}

impl SevenZMethod {
    /// A method's id names that method.
    pub proof fn lemma_by_id_of_id(m: SevenZMethod)
        ensures
            Self::spec_by_id(m.spec_id()) == Some(m),
    {
        let c = choose|m2: SevenZMethod| m2.spec_id() == m.spec_id();
        Self::lemma_ids_distinct(c, m);
    }

    /// The ids are those of the 7z format's method table: `by_id` maps each
    /// of the format's ids to its method, and each method's id is the
    /// format's. Copy 00, LZMA 03 01 01, LZMA2 21, PPMd 03 04 01, BZip2
    /// 04 02 02, Deflate 04 01 08, Deflate64 04 01 09, Delta 03, the BCJ
    /// filters x86 03 03 01 03, PowerPC 03 03 02 05, IA-64 03 03 04 01, ARM
    /// 03 03 05 01, ARM Thumb 03 03 07 01, SPARC 03 03 08 05, and AES-256
    /// with SHA-256 06 F1 07 01.
    pub proof fn lemma_ids_follow_format_table()
        ensures
            Self::spec_by_id(seq![0x00u8]) == Some(SevenZMethod::COPY),
            Self::spec_by_id(seq![0x03u8, 0x01, 0x01]) == Some(SevenZMethod::LZMA),
            Self::spec_by_id(seq![0x21u8]) == Some(SevenZMethod::LZMA2),
            Self::spec_by_id(seq![0x03u8, 0x04, 0x01]) == Some(SevenZMethod::PPMD),
            Self::spec_by_id(seq![0x04u8, 0x02, 0x02]) == Some(SevenZMethod::BZIP2),
            Self::spec_by_id(seq![0x04u8, 0x01, 0x08]) == Some(SevenZMethod::DEFLATE),
            Self::spec_by_id(seq![0x04u8, 0x01, 0x09]) == Some(SevenZMethod::DEFLATE64),
            Self::spec_by_id(seq![0x03u8]) == Some(SevenZMethod::DELTA),
            Self::spec_by_id(seq![0x03u8, 0x03, 0x01, 0x03]) == Some(SevenZMethod::BCJ_X86),
            Self::spec_by_id(seq![0x03u8, 0x03, 0x02, 0x05]) == Some(SevenZMethod::BCJ_PPC),
            Self::spec_by_id(seq![0x03u8, 0x03, 0x04, 0x01]) == Some(SevenZMethod::BCJ_IA64),
            Self::spec_by_id(seq![0x03u8, 0x03, 0x05, 0x01]) == Some(SevenZMethod::BCJ_ARM),
            Self::spec_by_id(seq![0x03u8, 0x03, 0x07, 0x01]) == Some(SevenZMethod::BCJ_ARM_THUMB),
            Self::spec_by_id(seq![0x03u8, 0x03, 0x08, 0x05]) == Some(SevenZMethod::BCJ_SPARC),
            Self::spec_by_id(seq![0x06u8, 0xF1, 0x07, 0x01]) == Some(SevenZMethod::AES256SHA256),
            forall|m: SevenZMethod| #[trigger] Self::spec_by_id(m.spec_id()) == Some(m),
    {
        assert forall|m: SevenZMethod| #[trigger] Self::spec_by_id(m.spec_id()) == Some(m) by {
            Self::lemma_by_id_of_id(m);
        }
        Self::lemma_by_id_of_id(SevenZMethod::COPY);
        Self::lemma_by_id_of_id(SevenZMethod::LZMA);
        Self::lemma_by_id_of_id(SevenZMethod::LZMA2);
        Self::lemma_by_id_of_id(SevenZMethod::PPMD);
        Self::lemma_by_id_of_id(SevenZMethod::BZIP2);
        Self::lemma_by_id_of_id(SevenZMethod::DEFLATE);
        Self::lemma_by_id_of_id(SevenZMethod::DEFLATE64);
        Self::lemma_by_id_of_id(SevenZMethod::DELTA);
        Self::lemma_by_id_of_id(SevenZMethod::BCJ_X86);
        Self::lemma_by_id_of_id(SevenZMethod::BCJ_PPC);
        Self::lemma_by_id_of_id(SevenZMethod::BCJ_IA64);
        Self::lemma_by_id_of_id(SevenZMethod::BCJ_ARM);
        Self::lemma_by_id_of_id(SevenZMethod::BCJ_ARM_THUMB);
        Self::lemma_by_id_of_id(SevenZMethod::BCJ_SPARC);
        Self::lemma_by_id_of_id(SevenZMethod::AES256SHA256);
        assert(SevenZMethod::COPY.spec_id() =~= seq![0x00u8]);
        assert(SevenZMethod::LZMA.spec_id() =~= seq![0x03u8, 0x01, 0x01]);
        assert(SevenZMethod::LZMA2.spec_id() =~= seq![0x21u8]);
        assert(SevenZMethod::PPMD.spec_id() =~= seq![0x03u8, 0x04, 0x01]);
        assert(SevenZMethod::BZIP2.spec_id() =~= seq![0x04u8, 0x02, 0x02]);
        assert(SevenZMethod::DEFLATE.spec_id() =~= seq![0x04u8, 0x01, 0x08]);
        assert(SevenZMethod::DEFLATE64.spec_id() =~= seq![0x04u8, 0x01, 0x09]);
        assert(SevenZMethod::DELTA.spec_id() =~= seq![0x03u8]);
        assert(SevenZMethod::BCJ_X86.spec_id() =~= seq![0x03u8, 0x03, 0x01, 0x03]);
        assert(SevenZMethod::BCJ_PPC.spec_id() =~= seq![0x03u8, 0x03, 0x02, 0x05]);
        assert(SevenZMethod::BCJ_IA64.spec_id() =~= seq![0x03u8, 0x03, 0x04, 0x01]);
        assert(SevenZMethod::BCJ_ARM.spec_id() =~= seq![0x03u8, 0x03, 0x05, 0x01]);
        assert(SevenZMethod::BCJ_ARM_THUMB.spec_id() =~= seq![0x03u8, 0x03, 0x07, 0x01]);
        assert(SevenZMethod::BCJ_SPARC.spec_id() =~= seq![0x03u8, 0x03, 0x08, 0x05]);
        assert(SevenZMethod::AES256SHA256.spec_id() =~= seq![0x06u8, 0xF1, 0x07, 0x01]);
    }
}

/// Whether two byte strings are equal.
pub fn bytes_equal(a: &[u8], b: &[u8]) -> (r: bool)
    ensures
        r == (a@ == b@),
{
    if a.len() != b.len() {
        return false;
    }
    let n = a.len();
    for i in 0..n
        invariant
            n == a@.len(),
            n == b@.len(),
            forall|j: int| 0 <= j < i ==> a@[j] == b@[j],
    {
        if a[i] != b[i] {
            return false;
        }
    }
    assert(a@ =~= b@);
    true
}

/// A method of an entry's coder chain with its options.
#[derive(Debug, Clone, Copy)]
pub struct SevenZMethodConfiguration {
    pub method: SevenZMethod,
    pub options: Option<crate::method_options::MethodOptions>,
}

impl SevenZMethodConfiguration {
    /// The method with no options.
    pub fn new(method: SevenZMethod) -> (c: Self)
        ensures
            c.method == method,
            c.options is None,
    {
        SevenZMethodConfiguration { method, options: None }
    }

    /// The method with the given options.
    pub fn with_options(self, options: crate::method_options::MethodOptions) -> (c: Self)
        ensures
            c.method == self.method,
            c.options == Some(options),
    {
        SevenZMethodConfiguration { method: self.method, options: Some(options) }
    }
}

impl From<SevenZMethod> for SevenZMethodConfiguration {
    fn from(method: SevenZMethod) -> (c: Self)
        ensures
            c.method == method,
            c.options is None,
    {
        SevenZMethodConfiguration::new(method)
    }
}

impl vstd::std_specs::convert::FromSpecImpl<SevenZMethod> for SevenZMethodConfiguration {
    open spec fn obeys_from_spec() -> bool {
        true
    }

    open spec fn from_spec(method: SevenZMethod) -> Self {
        SevenZMethodConfiguration { method, options: None }
    }
}

/// An entry of a 7z archive: a file, a directory or an anti-item, with the
/// facts about its stream that the archive's header records.
#[derive(Debug)]
pub struct SevenZArchiveEntry {
    pub name: String,
    pub has_stream: bool,
    pub is_directory: bool,
    pub has_creation_date: bool,
    pub has_last_modified_date: bool,
    pub has_access_date: bool,
    pub creation_date: i64,
    pub last_modified_date: i64,
    pub access_date: i64,
    pub has_windows_attributes: bool,
    pub windows_attributes: u32,
    pub has_crc: bool,
    pub crc: u64,
    pub compressed_crc: u64,
    pub size: u64,
    pub compressed_size: u64,
    pub is_anti_item: bool,
    pub content_methods: Vec<SevenZMethodConfiguration>,
}

impl SevenZArchiveEntry {
    /// An entry with the given name and every other field empty, false or 0.
    pub open spec fn spec_empty(self) -> bool {
        &&& !self.has_stream
        &&& !self.is_directory
        &&& !self.has_creation_date
        &&& !self.has_last_modified_date
        &&& !self.has_access_date
        &&& self.creation_date == 0
        &&& self.last_modified_date == 0
        &&& self.access_date == 0
        &&& !self.has_windows_attributes
        &&& self.windows_attributes == 0
        &&& !self.has_crc
        &&& self.crc == 0
        &&& self.compressed_crc == 0
        &&& self.size == 0
        &&& self.compressed_size == 0
        &&& !self.is_anti_item
        &&& self.content_methods@.len() == 0
    }

    /// An entry named `name` with every other field empty, false or 0.
    pub fn new(name: String) -> (e: Self)
        ensures
            e.name@ == name@,
            e.spec_empty(),
    {
        SevenZArchiveEntry {
            name,
            has_stream: false,
            is_directory: false,
            has_creation_date: false,
            has_last_modified_date: false,
            has_access_date: false,
            creation_date: 0,
            last_modified_date: 0,
            access_date: 0,
            has_windows_attributes: false,
            windows_attributes: 0,
            has_crc: false,
            crc: 0,
            compressed_crc: 0,
            size: 0,
            compressed_size: 0,
            is_anti_item: false,
            content_methods: Vec::new(),
        }
    }

    /// The entry for a path of the file system, named `entry_name`, from
    /// what the file system tells of it: whether it is a file or a
    /// directory, and its modification time in milliseconds since the UNIX
    /// epoch where known. A time that is not positive counts as absent.
    pub fn from_path_facts(
        entry_name: String,
        is_file: bool,
        is_dir: bool,
        modified_millis: Option<u128>,
    ) -> (e: Self)
        ensures
            e.name@ == entry_name@,
            e.has_stream == is_file,
            e.is_directory == is_dir,
            e.last_modified_date == (match modified_millis {
                Some(m) => m as i64,
                None => 0i64,
            }),
            e.has_last_modified_date == (e.last_modified_date > 0),
            !e.has_creation_date && e.creation_date == 0,
            !e.has_access_date && e.access_date == 0,
            !e.has_windows_attributes && e.windows_attributes == 0,
            !e.has_crc && e.crc == 0 && e.compressed_crc == 0,
            e.size == 0 && e.compressed_size == 0,
            !e.is_anti_item,
            e.content_methods@.len() == 0,
    {
        let mut entry = SevenZArchiveEntry::new(entry_name);
        entry.has_stream = is_file;
        entry.is_directory = is_dir;
        if let Some(m) = modified_millis {
            entry.last_modified_date = m as i64;
            entry.has_last_modified_date = entry.last_modified_date > 0;
        }
        entry
    }

    /// The entry's name.
    pub fn name(&self) -> (r: &str)
        ensures
            r@ == self.name@,
    {
        self.name.as_str()
    }

    /// Whether the entry is a directory.
    pub fn is_directory(&self) -> (r: bool)
        ensures
            r == self.is_directory,
    {
        self.is_directory
    }

    /// Whether the entry is an anti-item (marks a path for deletion).
    pub fn is_anti_item(&self) -> (r: bool)
        ensures
            r == self.is_anti_item,
    {
        self.is_anti_item
    }

    /// Whether the entry has a data stream.
    pub fn has_stream(&self) -> (r: bool)
        ensures
            r == self.has_stream,
    {
        self.has_stream
    }

    /// The size of the entry's data.
    pub fn size(&self) -> (r: u64)
        ensures
            r == self.size,
    {
        self.size
    }
}

impl Default for SevenZArchiveEntry {
    fn default() -> (e: Self)
        ensures
            e.name@ == Seq::<char>::empty(),
            e.spec_empty(),
    {
        SevenZArchiveEntry::new(String::new())
    }
}

} // verus!
