//! Which encodings are understood, and how a failure reads.

use vstd::prelude::*;

use crate::text::joined;

verus! {

/// The encoding of some bytes.
#[derive(Debug, Clone, Copy, PartialEq, Eq, Structural)]
pub enum Encoding {
    /// CBOR.
    Cbor,
    /// Any other.
    Other,
}

/// Who encodes or decodes: their failures read differently.
#[derive(Debug, Clone, Copy, PartialEq, Eq, Structural)]
pub enum Speaker {
    /// The relay that workers call back.
    HttpRelay,
    /// A node, or the relay that asks its workers.
    Node,
}

/// How an encoding that is not understood reads.
pub open spec fn unsupported(speaker: Speaker) -> Seq<char> {
    match speaker {
        Speaker::HttpRelay => "unsupported serialization encoding"@,
        Speaker::Node => "Unsupported serialization format"@,
    }
}

/// How a value that cannot be encoded reads.
pub open spec fn encode_failure(speaker: Speaker, detail: Seq<char>) -> Seq<char> {
    match speaker {
        Speaker::HttpRelay => "CBOR serialization failed: "@ + detail,
        Speaker::Node => "Failed to serialize sample into CBOR format"@,
    }
}

/// How bytes that cannot be decoded read.
pub open spec fn decode_failure(
    speaker: Speaker,
    target: Seq<char>,
    detail: Seq<char>,
) -> Seq<char> {
    match speaker {
        Speaker::HttpRelay => "CBOR deserialization into "@ + target + " failed: "@ + detail,
        Speaker::Node => "Failed to deserialize CBOR bytes into the "@ + target + " type"@,
    }
}

/// Whether an encoding is understood: CBOR alone is.
pub fn check_encoding(encoding: Encoding, speaker: Speaker) -> (r: Result<(), String>)
    ensures
        r is Ok <==> encoding == Encoding::Cbor,
        r matches Err(text) ==> text@ == unsupported(speaker),
{
    match encoding {
        Encoding::Cbor => Ok(()),
        Encoding::Other => match speaker {
            Speaker::HttpRelay => Err("unsupported serialization encoding".to_string()),
            Speaker::Node => Err("Unsupported serialization format".to_string()),
        },
    }
}

/// How a value that cannot be encoded reads.
pub fn encode_failure_text(speaker: Speaker, detail: &str) -> (r: String)
    ensures
        r@ == encode_failure(speaker, detail@),
{
    match speaker {
        Speaker::HttpRelay => joined("CBOR serialization failed: ", detail),
        Speaker::Node => "Failed to serialize sample into CBOR format".to_string(),
    }
}

/// How bytes that cannot be decoded read.
pub fn decode_failure_text(speaker: Speaker, target: &str, detail: &str) -> (r: String)
    ensures
        r@ == decode_failure(speaker, target@, detail@),
{
    match speaker {
        Speaker::HttpRelay => {
            let mut r = joined("CBOR deserialization into ", target);
            r.append(" failed: ");
            r.append(detail);
            r
        },
        Speaker::Node => {
            let mut r = joined("Failed to deserialize CBOR bytes into the ", target);
            r.append(" type");
            r
        },
    }
}

} // verus!
