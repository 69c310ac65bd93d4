//! Short inline ASCII strings, sized for subtag-like identifiers: era
//! codes and month codes.

use vstd::prelude::*;

verus! {

/// The error an unusable byte string produces: too long, or holding a
/// byte outside printable ASCII.
#[derive(Clone, Copy, Debug, PartialEq, Eq, Structural)]
pub enum TinyStrError {
    /// More bytes than the type can hold.
    TooLarge,
    /// A NUL byte or a byte past ASCII.
    NonAscii,
}

/// Whether `bytes` fits a tiny ASCII string of capacity `cap`: at most
/// `cap` bytes, each a non-NUL ASCII byte.
pub open spec fn tiny_bytes_ok(bytes: Seq<u8>, cap: int) -> bool {
    bytes.len() <= cap && forall|i: int| 0 <= i < bytes.len() ==> 0 < #[trigger] bytes[i] < 128
}

/// Validates that every byte of `b` is non-NUL ASCII.
fn all_tiny_ascii(b: &[u8]) -> (r: bool)
    ensures
        r <==> forall|i: int| 0 <= i < b@.len() ==> 0 < #[trigger] b@[i] < 128,
{
    let n = b.len();
    let mut i: usize = 0;
    while i < n
        invariant
            n == b@.len(),
            0 <= i <= n,
            forall|j: int| 0 <= j < i ==> 0 < #[trigger] b@[j] < 128,
        decreases n - i,
    {
        let x = *vstd::slice::slice_index_get(b, i);
        if x == 0 || x >= 128 {
            return false;
        }
        i = i + 1;
    }
    true
}

/// An ASCII string of at most four bytes, for identifiers such as
/// month codes.
#[derive(Debug, PartialEq, Eq, Hash)]
pub struct TinyStr4 {
    bytes: Vec<u8>,
}

impl Clone for TinyStr4 {
    /// A clone holds the same bytes.
    fn clone(&self) -> (r: Self)
        ensures
            r.spec_bytes() == self.spec_bytes(),
    {
        proof {
            use_type_invariant(self);
        }
        TinyStr4 { bytes: vstd::slice::slice_to_vec(self.bytes.as_slice()) }
    }
}

impl TinyStr4 {
    /// The string's bytes.
    pub closed spec fn spec_bytes(self) -> Seq<u8> {
        self.bytes@
    }

    /// At most four bytes, each non-NUL ASCII.
    #[verifier::type_invariant]
    pub closed spec fn wf(self) -> bool {
        tiny_bytes_ok(self.bytes@, 4)
    }

    /// Builds the string from raw bytes, rejecting more than four bytes
    /// (`TooLarge`) and any byte outside non-NUL ASCII (`NonAscii`).
    pub fn from_bytes(b: &[u8]) -> (r: Result<Self, TinyStrError>)
        ensures
            r is Ok <==> tiny_bytes_ok(b@, 4),
            r is Ok ==> r->Ok_0.spec_bytes() == b@,
            b@.len() > 4 ==> r == Err::<Self, TinyStrError>(TinyStrError::TooLarge),
    {
        if b.len() > 4 {
            return Err(TinyStrError::TooLarge);
        }
        if !all_tiny_ascii(b) {
            return Err(TinyStrError::NonAscii);
        }
        let v = vstd::slice::slice_to_vec(b);
        proof {
            assert(tiny_bytes_ok(v@, 4));
        }
        Ok(TinyStr4 { bytes: v })
    }

    /// The string's bytes, for display or comparison.
    pub fn as_bytes(&self) -> (r: &[u8])
        ensures
            r@ == self.spec_bytes(),
    {
        self.bytes.as_slice()
    }

    /// The string's length in bytes.
    pub fn len(&self) -> (r: usize)
        ensures
            r == self.spec_bytes().len(),
    {
        self.bytes.len()
    }
}

/// An ASCII string of at most sixteen bytes, for identifiers such as
/// era codes.
#[derive(Debug, PartialEq, Eq, Hash)]
pub struct TinyStr16 {
    bytes: Vec<u8>,
}

impl Clone for TinyStr16 {
    /// A clone holds the same bytes.
    fn clone(&self) -> (r: Self)
        ensures
            r.spec_bytes() == self.spec_bytes(),
    {
        proof {
            use_type_invariant(self);
        }
        TinyStr16 { bytes: vstd::slice::slice_to_vec(self.bytes.as_slice()) }
    }
}

impl TinyStr16 {
    /// The string's bytes.
    pub closed spec fn spec_bytes(self) -> Seq<u8> {
        self.bytes@
    }

    /// At most sixteen bytes, each non-NUL ASCII.
    #[verifier::type_invariant]
    pub closed spec fn wf(self) -> bool {
        tiny_bytes_ok(self.bytes@, 16)
    }

    /// Builds the string from raw bytes, rejecting more than sixteen
    /// bytes (`TooLarge`) and any byte outside non-NUL ASCII
    /// (`NonAscii`).
    pub fn from_bytes(b: &[u8]) -> (r: Result<Self, TinyStrError>)
        ensures
            r is Ok <==> tiny_bytes_ok(b@, 16),
            r is Ok ==> r->Ok_0.spec_bytes() == b@,
            b@.len() > 16 ==> r == Err::<Self, TinyStrError>(TinyStrError::TooLarge),
    {
        if b.len() > 16 {
            return Err(TinyStrError::TooLarge);
        }
        if !all_tiny_ascii(b) {
            return Err(TinyStrError::NonAscii);
        }
        let v = vstd::slice::slice_to_vec(b);
        proof {
            assert(tiny_bytes_ok(v@, 16));
        }
        Ok(TinyStr16 { bytes: v })
    }

    /// The string's bytes, for display or comparison.
    pub fn as_bytes(&self) -> (r: &[u8])
        ensures
            r@ == self.spec_bytes(),
    {
        self.bytes.as_slice()
    }

    /// The string's length in bytes.
    pub fn len(&self) -> (r: usize)
        ensures
            r == self.spec_bytes().len(),
    {
        self.bytes.len()
    }
}

} // verus!
