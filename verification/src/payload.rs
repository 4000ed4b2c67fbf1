use vstd::prelude::*;
use vstd::slice::slice_to_vec;
use vstd::string::StringExecFns;
use crate::text::decimal_string;
use crate::text::spec_decimal_digits;

verus! {

/// The error type for payload construction.
#[derive(Copy, Clone, Debug, PartialEq, Eq)]
pub enum PayloadError {
    /// The provided data is too long to form a valid payload; the length
    /// of the provided data is carried in the variant.
    PayloadTooLong(usize),
}

impl PayloadError {
    /// A human-readable description of the error.
    pub fn message(&self) -> (s: String)
        ensures
            (match *self {
                PayloadError::PayloadTooLong(length) => s@ == "payload too long: "@
                    + spec_decimal_digits(length as nat) + " bytes"@,
            }),
    {
        match self {
            PayloadError::PayloadTooLong(length) => {
                let mut s = "payload too long: ".to_owned();
                s.append(decimal_string(*length as u64).as_str());
                s.append(" bytes");
                s
            },
        }
    }
}

/// The contents of one packet: an opaque byte string of at most 255 bytes,
/// constructed once and immutable thereafter.
#[derive(Debug, PartialEq, Eq)]
pub struct Payload {
    bytes: Vec<u8>,
}

impl View for Payload {
    type V = Seq<u8>;

    closed spec fn view(&self) -> Seq<u8> {
        self.bytes@
    }
}

impl Payload {
    /// Maximum size of a valid payload, in bytes.
    pub const MAX_SIZE: usize = 255;

    #[verifier::type_invariant]
    spec fn wf(self) -> bool {
        self.bytes@.len() <= 255
    }

    /// Create an empty payload.
    pub fn new() -> (r: Self)
        ensures
            r@ == Seq::<u8>::empty(),
    {
        Payload { bytes: Vec::new() }
    }

    /// Create a payload holding a copy of the given bytes.
    ///
    /// Fails if and only if more than `MAX_SIZE` bytes are given, reporting
    /// the offending length.
    pub fn from_raw_bytes(bytes: &[u8]) -> (r: Result<Self, PayloadError>)
        ensures
            bytes@.len() <= 255 ==> r is Ok && r->Ok_0@ == bytes@,
            bytes@.len() > 255 ==> r == Err::<Payload, PayloadError>(
                PayloadError::PayloadTooLong(bytes@.len() as usize),
            ),
    {
        if bytes.len() > 255 {
            return Err(PayloadError::PayloadTooLong(bytes.len()));
        }
        Ok(Payload { bytes: slice_to_vec(bytes) })
    }

    /// The stored bytes: exactly the meaningful prefix, nothing more.
    pub fn as_bytes(&self) -> (r: &Vec<u8>)
        ensures
            r@ == self@,
    {
        &self.bytes
    }

    /// The length of the payload, in bytes.
    pub fn length(&self) -> (r: usize)
        ensures
            r == self@.len(),
            r <= 255,
    {
        proof {
            use_type_invariant(self);
        }
        self.bytes.len()
    }
}

impl Default for Payload {
    fn default() -> (r: Self)
        ensures
            r@ == Seq::<u8>::empty(),
    {
        Payload::new()
    }
}

} // verus!
