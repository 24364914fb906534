//! Encoding normalization: guesses the encoding of the raw bytes from the
//! whole buffer and decodes them into text, replacing malformed sequences.
use vstd::prelude::*;

verus! {

/// The name of the encoding that the statistical detector guesses for the
/// whole buffer `data`.
pub uninterp spec fn guessed_encoding(data: Seq<u8>) -> Seq<char>;

/// The text that `data` decodes to under the guessed encoding, with a byte
/// order mark honoured and removed and each malformed sequence replaced by
/// U+FFFD.
pub uninterp spec fn decoded_text(data: Seq<u8>) -> Seq<char>;

/// Relies on chardetng's `EncodingDetector` (`new`, `feed` with the whole
/// buffer and `last` set, `guess` with no top-level domain and UTF-8
/// allowed), which never fails and always returns an encoding, and on
/// encoding_rs's `Encoding::decode`, which replaces malformed sequences
/// instead of failing and panics only when the output buffer size overflows
/// `usize`. Both results depend on the bytes alone.
#[verifier::external_body]
fn detect_and_decode(data: &[u8]) -> (r: (String, String))
    requires
        data@.len() <= usize::MAX / 8,
    ensures
        r.0@ == guessed_encoding(data@),
        r.1@ == decoded_text(data@),
{
    let mut detector = chardetng::EncodingDetector::new();
    detector.feed(data, true);
    let encoding = detector.guess(None, true);
    let (text, _, _) = encoding.decode(data);
    (encoding.name().to_string(), text.into_owned())
}

/// Decoded input: the text and the name of the encoding it was read as.
pub struct DecodedText {
    pub text: String,
    pub encoding: String,
}

/// Detects the encoding of the raw bytes and decodes them.
pub fn decode_input(data: &[u8]) -> (r: DecodedText)
    requires
        data@.len() <= usize::MAX / 8,
    ensures
        r.encoding@ == guessed_encoding(data@),
        r.text@ == decoded_text(data@),
{
    let (encoding, text) = detect_and_decode(data);
    DecodedText { text, encoding }
}

} // verus!
