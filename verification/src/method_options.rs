use vstd::prelude::*;

verus! {

/// Options of the LZMA2 encoder that the archive's coder properties record.
#[derive(Debug, Clone, Copy)]
pub struct LZMA2Options {
    /// Dictionary size in bytes.
    pub dict_size: u32,
}

impl LZMA2Options {
    /// The dictionary size used when none is given: 8 MiB.
    pub const DICT_SIZE_DEFAULT: u32 = 0x80_0000;

    /// Options with the given dictionary size.
    pub fn with_dict_size(dict_size: u32) -> (o: Self)
        ensures
            o.dict_size == dict_size,
    {
        LZMA2Options { dict_size }
    }
}

impl Default for LZMA2Options {
    fn default() -> (o: Self)
        ensures
            o.dict_size == LZMA2Options::DICT_SIZE_DEFAULT,
    {
        LZMA2Options { dict_size: LZMA2Options::DICT_SIZE_DEFAULT }
    }
}

/// Options attached to a method of an archive entry's coder chain.
#[derive(Debug, Clone, Copy)]
pub enum MethodOptions {
    /// A bare number; for LZMA2 it is the dictionary size.
    Num(u32),
    /// Full LZMA2 options.
    LZMA2(LZMA2Options),
}

impl MethodOptions {
    /// The dictionary size that these options give an LZMA2 coder.
    pub open spec fn spec_lzma2_dict_size(self) -> u32 {
        match self {
            MethodOptions::Num(n) => n,
            MethodOptions::LZMA2(o) => o.dict_size,
        }
    }

    /// The dictionary size that these options give an LZMA2 coder:
    /// the number itself, or the options' `dict_size`.
    pub fn get_lzma2_dict_size(&self) -> (d: u32)
        ensures
            d == self.spec_lzma2_dict_size(),
    {
        match self {
            MethodOptions::Num(n) => *n,
            MethodOptions::LZMA2(o) => o.dict_size,
        }
    }
}

impl From<u32> for MethodOptions {
    fn from(n: u32) -> (o: Self)
        ensures
            o == MethodOptions::Num(n),
    {
        MethodOptions::Num(n)
    }
}

impl vstd::std_specs::convert::FromSpecImpl<u32> for MethodOptions {
    open spec fn obeys_from_spec() -> bool {
        true
    }

    open spec fn from_spec(n: u32) -> Self {
        MethodOptions::Num(n)
    }
}

impl From<LZMA2Options> for MethodOptions {
    fn from(o: LZMA2Options) -> (r: Self)
        ensures
            r == MethodOptions::LZMA2(o),
    {
        MethodOptions::LZMA2(o)
    }
}

impl vstd::std_specs::convert::FromSpecImpl<LZMA2Options> for MethodOptions {
    open spec fn obeys_from_spec() -> bool {
        true
    }

    open spec fn from_spec(o: LZMA2Options) -> Self {
        MethodOptions::LZMA2(o)
    }
}

} // verus!
