use vstd::prelude::*;

verus! {

/// One coder of a folder: the id of its method and the properties that the
/// archive stores for it.
#[derive(Debug, Clone)]
pub struct Coder {
    /// The id of the method, as stored in the archive.
    pub method_id: Vec<u8>,
    /// The coder's properties, as stored in the archive.
    pub properties: Vec<u8>,
}

impl Coder {
    /// A coder with the given method id and properties.
    pub fn new(method_id: Vec<u8>, properties: Vec<u8>) -> (c: Coder)
        ensures
            c.method_id@ == method_id@,
            c.properties@ == properties@,
    {
        Coder { method_id, properties }
    }

    /// The id of the method that decodes this coder's stream.
    pub fn decompression_method_id(&self) -> (id: &[u8])
        ensures
            id@ == self.method_id@,
    {
        self.method_id.as_slice()
    }
}

} // verus!
