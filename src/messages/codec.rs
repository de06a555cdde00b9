use vstd::prelude::*;

verus! {

/// What can go wrong while encoding or decoding a message
#[derive(Debug, Clone, Copy, PartialEq, Eq, Structural)]
pub enum CodecError {
    /// The input ended before the value was complete
    UnexpectedEnd,
    /// A field holds a value that its type does not allow
    InvalidEncoding,
    /// The first four bytes of a frame name no known network
    UnknownMagicValue,
    /// The command field of a frame is not the expected one
    CommandNameUnknown,
    /// A payload is longer than the protocol allows
    PayloadTooBig,
    /// A frame's checksum does not match its payload
    ChecksumInvalid,
    /// A user agent is longer than its one-byte length prefix can say
    UserAgentTooLong,
}

/// The bytes of an encoding result, as a value of the model
pub open spec fn encoded(r: Result<Vec<u8>, CodecError>) -> Result<Seq<u8>, CodecError> {
    match r {
        Ok(b) => Ok(b@),
        Err(e) => Err(e),
    }
}

/// `r` is what a decoder returns for `parsed`, the model's reading of the bytes
/// `before`, when it leaves `after` unread: on success a value with the parsed view,
/// with exactly the bytes it parsed consumed; otherwise the same error.
pub open spec fn decoded_as<T: View>(
    parsed: Result<(T::V, nat), CodecError>,
    r: Result<T, CodecError>,
    before: Seq<u8>,
    after: Seq<u8>,
) -> bool {
    match parsed {
        Ok((v, n)) => {
            &&& r is Ok
            &&& r->Ok_0@ == v
            &&& n <= before.len()
            &&& after == before.skip(n as int)
        },
        Err(e) => r == Err::<T, CodecError>(e),
    }
}

/// Encodes a Bitcoin p2p message as bytes
pub trait Encode: View {
    /// The bytes that encode a value with view `v`, or the error that encoding reports.
    spec fn spec_encode(v: Self::V) -> Result<Seq<u8>, CodecError>;

    /// Whether `v` is a value that the wire format carries back unchanged.
    spec fn well_formed(v: Self::V) -> bool;

    fn encode(&self) -> (r: Result<Vec<u8>, CodecError>)
        ensures
            encoded(r) == Self::spec_encode(self@),
    ;
}

/// Decodes bytes into a Bitcoin p2p message
pub trait Decode: Sized + View {
    /// The view of the value that the bytes `b` start with, and how many bytes it
    /// takes, or the error that decoding `b` reports.
    spec fn spec_decode(b: Seq<u8>) -> Result<(Self::V, nat), CodecError>;

    /// Reads one value off the front of the cursor `bytes`.
    fn decode(bytes: &mut &[u8]) -> (r: Result<Self, CodecError>)
        ensures
            decoded_as(Self::spec_decode(old(bytes)@), r, old(bytes)@, final(bytes)@),
    ;
}

/// Both directions of the codec, with the law that ties them together
pub trait Codec: Encode + Decode {
    /// Decoding the encoding of a well-formed value gives that value back,
    /// consuming all of its bytes.
    proof fn lemma_decode_encode(v: <Self as View>::V)
        requires
            Self::well_formed(v),
            Self::spec_encode(v) is Ok,
        ensures
            Self::spec_decode(Self::spec_encode(v)->Ok_0) == Ok::<(Self::V, nat), CodecError>(
                (v, Self::spec_encode(v)->Ok_0.len()),
            ),
    ;
}

} // verus!
