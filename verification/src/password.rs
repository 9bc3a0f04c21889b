use vstd::prelude::*;

use crate::files_info::{utf16_le, write_utf16_le};

verus! {

/// A password, held as its UTF-16 little-endian bytes.
#[derive(Debug, Clone)]
pub struct Password(Vec<u8>);

impl Password {
    /// The bytes of the password.
    pub closed spec fn spec_bytes(&self) -> Seq<u8> {
        self.0@
    }

    /// The empty password.
    pub fn empty() -> (p: Self)
        ensures
            p.spec_bytes() == Seq::<u8>::empty(),
    {
        Password(Vec::new())
    }

    /// The password `s`, as its UTF-16 little-endian bytes.
    pub fn new(s: &str) -> (p: Self)
        ensures
            p.spec_bytes() == utf16_le(s@),
    {
        let mut bytes: Vec<u8> = Vec::new();
        write_utf16_le(&mut bytes, s);
        assert(bytes@ =~= utf16_le(s@));
        Password(bytes)
    }

    /// The bytes of the password.
    pub fn as_slice(&self) -> (r: &[u8])
        ensures
            r@ == self.spec_bytes(),
    {
        self.0.as_slice()
    }

    /// Whether the password is empty.
    pub fn is_empty(&self) -> (r: bool)
        ensures
            r == (self.spec_bytes().len() == 0),
    {
        self.0.len() == 0
    }
}

} // verus!
