//! Why a frame could not be decoded.
use vstd::prelude::*;
use postcard::Error as PostcardError;

verus! {

/// `postcard::Error`, carried through unchanged.
#[verifier::external_type_specification]
#[verifier::external_body]
pub struct ExPostcardError(PostcardError);

/// `postcard::Error` derives `Clone`: a clone equals the original.
pub assume_specification[ <PostcardError as Clone>::clone ](e: &PostcardError) -> (r: PostcardError)
    ensures
        r == *e,
;

/// Why a frame could not be decoded.
#[derive(Debug, Clone, PartialEq, Eq)]
#[non_exhaustive]
pub enum ProtoError {
    /// Fewer bytes than the frame needs. `needed` is the minimum length.
    TooShort {
        /// Bytes received.
        got: usize,
        /// Bytes required.
        needed: usize,
    },
    /// The version byte is not one this crate understands.
    BadVersion(u8),
    /// The opcode byte is not a known control command.
    BadOpcode(u8),
    /// A postcard (de)serialisation failed.
    Postcard(PostcardError),
    /// The output buffer is too small for the encoded frame.
    BufferTooSmall,
}

/// `true` when a postcard error is `SerializeBufferFull`: the output slice
/// ran out before the value was written.
pub uninterp spec fn is_buffer_full(e: PostcardError) -> bool;

/// Tells `postcard::Error::SerializeBufferFull` apart from every other
/// variant.
#[verifier::external_body]
fn postcard_buffer_full(e: &PostcardError) -> (b: bool)
    ensures
        b == is_buffer_full(*e),
{
    match e {
        PostcardError::SerializeBufferFull => true,
        _ => false,
    }
}

impl ProtoError {
    /// The error an encode reports for a postcard failure: a full output
    /// buffer is [`ProtoError::BufferTooSmall`], anything else is carried
    /// as [`ProtoError::Postcard`].
    pub fn from_encode_error(e: PostcardError) -> (r: ProtoError)
        ensures
            is_buffer_full(e) ==> r == ProtoError::BufferTooSmall,
            !is_buffer_full(e) ==> r == ProtoError::Postcard(e),
    {
        if postcard_buffer_full(&e) {
            ProtoError::BufferTooSmall
        } else {
            ProtoError::Postcard(e)
        }
    }
}

/// A decode failure from postcard is carried unchanged.
impl From<PostcardError> for ProtoError {
    fn from(e: PostcardError) -> (r: ProtoError) {
        ProtoError::Postcard(e)
    }
}

impl vstd::std_specs::convert::FromSpecImpl<PostcardError> for ProtoError {
    open spec fn obeys_from_spec() -> bool {
        true
    }

    open spec fn from_spec(e: PostcardError) -> ProtoError {
        ProtoError::Postcard(e)
    }
}

} // verus!
