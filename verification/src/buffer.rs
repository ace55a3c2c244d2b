//! The owned buffer a point read returns.
//!
//! A hit hands the caller one owned byte buffer; the embedding copies the
//! engine-allocated bytes into it and releases the native allocation, so the
//! value here owns plain bytes and nothing foreign.

use vstd::prelude::*;

use vstd::string::StringSliceAdditionalSpecFns;
use vstd::utf8::valid_utf8;

verus! {

/// The owned value returned by a successful point lookup.
pub struct DBVector {
    data: Vec<u8>,
}

impl View for DBVector {
    type V = Seq<u8>;

    closed spec fn view(&self) -> Seq<u8> {
        self.data@
    }
}

/// Relies on `core::str::from_utf8`: it returns a borrowed string over
/// exactly the given bytes when they are valid UTF-8, and an error
/// otherwise.
#[verifier::external_body]
fn str_from_utf8(bytes: &[u8]) -> (r: Option<&str>)
    ensures
        r is Some <==> valid_utf8(bytes@),
        r matches Some(s) ==> s.spec_bytes() == bytes@,
{
    core::str::from_utf8(bytes).ok()
}

impl DBVector {
    /// Wraps bytes already copied out of the engine's allocation.
    pub fn from_vec(data: Vec<u8>) -> (r: DBVector)
        ensures
            r@ == data@,
    {
        DBVector { data }
    }

    /// The buffered bytes.
    pub fn as_bytes(&self) -> (r: &[u8])
        ensures
            r@ == self@,
    {
        self.data.as_slice()
    }

    /// The number of buffered bytes.
    pub fn len(&self) -> (n: usize)
        ensures
            n == self@.len(),
    {
        self.data.len()
    }

    /// The buffer as text, when it holds valid UTF-8.
    pub fn to_utf8(&self) -> (r: Option<&str>)
        ensures
            r is Some <==> valid_utf8(self@),
            r matches Some(s) ==> s.spec_bytes() == self@,
    {
        str_from_utf8(self.data.as_slice())
    }
}

} // verus!
