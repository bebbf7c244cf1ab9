//! The canonical content encoding: an ordered list of paragraphs is
//! serialized as a JSON string array and compressed at the maximum zstd
//! level. Decompressing and decoding always reproduces the exact list.

use vstd::prelude::*;

verus! {

/// Relies on `serde_json::to_vec`: the JSON encoding of a string list is a
/// function of the list alone.
pub uninterp spec fn json_of(l: Seq<Seq<char>>) -> Seq<u8>;

/// Relies on `zstd::stream::encode_all` at a fixed level: the compressed
/// frame is a function of the input bytes alone.
pub uninterp spec fn zstd_of(b: Seq<u8>) -> Seq<u8>;

/// The stored form of a paragraph list: its JSON encoding, compressed.
pub open spec fn payload_of(l: Seq<Seq<char>>) -> Seq<u8> {
    zstd_of(json_of(l))
}

/// The error arm of the encoder's result. The contract of
/// [`compress_chapters`] shows that neither variant is ever produced: both
/// stages encode in memory and cannot fail on a string list.
#[derive(Clone, Copy, Debug, PartialEq, Eq, Structural)]
pub enum CompressError {
    /// The JSON serializer reported an error.
    JsonEncode,
    /// The compressor reported an error.
    ZstdEncode,
}

/// Relies on `serde_json::to_vec`: serializes the list as a JSON string
/// array. Its only documented failure modes are a `Serialize` impl that
/// decides to fail and a map with non-string keys; a vector of strings has
/// neither, and the writer is an in-memory vector, so the call succeeds.
#[verifier::external_body]
fn json_encode_strings(l: &Vec<String>) -> (r: Option<Vec<u8>>)
    ensures
        r is Some,
        r matches Some(b) ==> b@ == json_of(l.deep_view()),
{
    match serde_json::to_vec(l) {
        Ok(b) => Some(b),
        Err(_) => None,
    }
}

/// Relies on `serde_json::from_slice`: parsing the JSON encoding of a
/// string list yields that list back.
#[verifier::external_body]
fn json_decode_strings(b: &Vec<u8>) -> (r: Option<Vec<String>>)
    ensures
        match r {
            Some(out) => forall|l: Seq<Seq<char>>| b@ == json_of(l) ==> out.deep_view() == l,
            None => forall|l: Seq<Seq<char>>| b@ != json_of(l),
        },
{
    match serde_json::from_slice::<Vec<String>>(b.as_slice()) {
        Ok(out) => Some(out),
        Err(_) => None,
    }
}

/// Relies on `zstd::stream::encode_all` at level 22, the maximum valid
/// level: compresses the bytes into one zstd frame. It reads from an
/// in-memory slice and writes into an in-memory vector, and neither side
/// can report an I/O error, so the call succeeds.
#[verifier::external_body]
fn zstd_encode(b: &Vec<u8>) -> (r: Option<Vec<u8>>)
    ensures
        r is Some,
        r matches Some(c) ==> c@ == zstd_of(b@),
{
    match zstd::encode_all(b.as_slice(), 22) {
        Ok(c) => Some(c),
        Err(_) => None,
    }
}

/// Relies on `zstd::stream::decode_all`: compression is lossless, so
/// decoding a frame that `encode_all` produced yields the original bytes.
#[verifier::external_body]
fn zstd_decode(d: &Vec<u8>) -> (r: Option<Vec<u8>>)
    ensures
        match r {
            Some(out) => forall|orig: Seq<u8>| d@ == zstd_of(orig) ==> out@ == orig,
            None => forall|orig: Seq<u8>| d@ != zstd_of(orig),
        },
{
    match zstd::decode_all(d.as_slice()) {
        Ok(b) => Some(b),
        Err(_) => None,
    }
}

/// Encodes an ordered paragraph list for storage: JSON first, then maximum
/// level compression. The call succeeds on every list, the empty one
/// included, and the payload is exactly the canonical encoding of the
/// list, so decompression reproduces the list.
pub fn compress_chapters(strings: &Vec<String>) -> (r: Result<Vec<u8>, CompressError>)
    ensures
        r matches Ok(b) && b@ == payload_of(strings.deep_view()),
{
    let json = match json_encode_strings(strings) {
        Some(b) => b,
        None => {
            return Err(CompressError::JsonEncode);
        },
    };
    match zstd_encode(&json) {
        Some(c) => Ok(c),
        None => Err(CompressError::ZstdEncode),
    }
}

/// Decodes a stored payload back into its paragraph list. Round trip: for
/// every list `l`, decompressing `payload_of(l)` yields exactly `l`, the
/// empty list included.
pub fn decompress_chapters(data: &Vec<u8>) -> (r: Option<Vec<String>>)
    ensures
        forall|l: Seq<Seq<char>>|
            data@ == payload_of(l) ==> (r matches Some(out) && out.deep_view() == l),
{
    let json = match zstd_decode(data) {
        Some(b) => b,
        None => {
            return None;
        },
    };
    match json_decode_strings(&json) {
        Some(out) => Some(out),
        None => None,
    }
}

} // verus!
