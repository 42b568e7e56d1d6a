//! Vendor extensions: opaque header tokens that a producer may add.

use vstd::prelude::*;
use crate::bytes::{find_byte, lemma_first_index_of, FIELD_SEP};
use crate::error::Error;

verus! {

/// A byte string that is safe to embed in a header as one token: it holds
/// no space.
#[derive(Debug)]
pub struct VendorExtensionString(Vec<u8>);

impl View for VendorExtensionString {
    type V = Seq<u8>;

    closed spec fn view(&self) -> Seq<u8> {
        self.0@
    }
}

impl Clone for VendorExtensionString {
    fn clone(&self) -> (copy: VendorExtensionString)
        ensures
            copy@ == self@,
    {
        proof {
            use_type_invariant(self);
        }
        let bytes = self.0.clone();
        assert(bytes@ =~= self.0@);
        VendorExtensionString(bytes)
    }
}

impl VendorExtensionString {
    #[verifier::type_invariant]
    spec fn holds_no_space(&self) -> bool {
        !self.0@.contains(FIELD_SEP)
    }

    /// Create a new vendor extension string.
    ///
    /// For example, `COLORRANGE=FULL` tells a reader that the samples cover
    /// the full range rather than the limited "studio swing" range.
    ///
    /// The bytes must not contain a space, otherwise `Error::BadInput` is
    /// returned.
    pub fn new(value: Vec<u8>) -> (res: Result<VendorExtensionString, Error>)
        ensures
            value@.contains(FIELD_SEP) ==> res == Err::<VendorExtensionString, Error>(
                Error::BadInput,
            ),
            !value@.contains(FIELD_SEP) ==> res is Ok && res->Ok_0@ == value@,
    {
        let at: usize = find_byte(value.as_slice(), 0, FIELD_SEP);
        proof {
            assert(value@.skip(0) =~= value@);
            lemma_first_index_of(value@, FIELD_SEP);
        }
        if at < value.len() {
            return Err(Error::BadInput);
        }
        Ok(VendorExtensionString(value))
    }

    /// Get the vendor extension string.
    pub fn value(&self) -> (bytes: &[u8])
        ensures
            bytes@ == self@,
            !bytes@.contains(FIELD_SEP),
    {
        proof {
            use_type_invariant(self);
        }
        self.0.as_slice()
    }

    /// Take the bytes out of the vendor extension string.
    pub fn into_bytes(self) -> (bytes: Vec<u8>)
        ensures
            bytes@ == self@,
            !bytes@.contains(FIELD_SEP),
    {
        proof {
            use_type_invariant(&self);
        }
        self.0
    }
}

} // verus!
