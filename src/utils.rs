use vstd::prelude::*;
use vstd::slice::slice_to_vec;
use vstd::utf8::encode_utf8;
use chrono::{DateTime, FixedOffset};
use sha2::{Digest, Sha256};

verus! {

/// The SHA-256 digest of a byte string.
pub uninterp spec fn sha256_of(bytes: Seq<u8>) -> Seq<u8>;

/// The nanoseconds since the Unix epoch of a date-time text in the RFC 3339
/// form as chrono reads it (which also takes some relaxed spellings), where
/// the text parses and the instant fits in an `i64` count of nanoseconds.
pub uninterp spec fn datetime_nanos(text: Seq<char>) -> Option<i64>;

/// Relies on sha2's `Sha256::digest`: the 32-byte digest of the input.
#[verifier::external_body]
fn sha256_hash(bytes: &[u8]) -> (r: [u8; 32])
    ensures
        r@ == sha256_of(bytes@),
{
    Sha256::digest(bytes).into()
}

/// Relies on chrono's `str::parse::<DateTime<FixedOffset>>` (RFC 3339 text
/// with its offset) and `DateTime::timestamp_nanos_opt`, which is `None` for
/// instants out of the `i64` nanosecond range. The offset is read from the
/// text, so the instant depends on the text alone.
#[verifier::external_body]
fn parse_datetime_nanos(text: &str) -> (r: Option<i64>)
    ensures
        r == datetime_nanos(text@),
{
    match text.parse::<DateTime<FixedOffset>>() {
        Ok(t) => t.timestamp_nanos_opt(),
        Err(_) => None,
    }
}

/// The timestamp, in nanoseconds since the Unix epoch, that a date-time text
/// denotes; none for text that does not parse or an instant before the epoch.
pub open spec fn timestamp_of_text(text: Seq<char>) -> Option<u64> {
    match datetime_nanos(text) {
        Some(n) => if n >= 0 { Some(n as u64) } else { None },
        None => None,
    }
}

/// The derivation of a lucky number from a participant's address and the
/// randomness delivered for it.
pub open spec fn lucky_number_of(address: Seq<char>, randomness: Seq<u8>) -> Seq<u8> {
    sha256_of(encode_utf8(address) + randomness)
}

/// The hash of an address followed by a randomness text.
pub open spec fn true_randomness_of(address: Seq<char>, randomness: Seq<char>) -> Seq<u8> {
    sha256_of(encode_utf8(address) + encode_utf8(randomness))
}

/// Parses an RFC 3339 date-time text into nanoseconds since the Unix epoch.
pub fn convert_datetime_string(data: String) -> (r: Option<u64>)
    ensures
        r == timestamp_of_text(data@),
{
    match parse_datetime_nanos(data.as_str()) {
        Some(n) => {
            if n >= 0 {
                Some(n as u64)
            } else {
                None
            }
        },
        None => None,
    }
}

fn append_bytes(out: &mut Vec<u8>, bytes: &[u8])
    ensures
        final(out)@ == old(out)@ + bytes@,
{
    let mut i: usize = 0;
    while i < bytes.len()
        invariant
            i <= bytes@.len(),
            out@ == old(out)@ + bytes@.subrange(0, i as int),
        decreases bytes@.len() - i,
    {
        out.push(bytes[i]);
        i = i + 1;
        assert(out@ =~= old(out)@ + bytes@.subrange(0, i as int));
    }
    assert(bytes@.subrange(0, i as int) =~= bytes@);
}

/// Hashes the bytes of an address followed by those of a randomness text.
pub fn generate_true_randomness(address: String, randomness: String) -> (r: [u8; 32])
    ensures
        r@ == true_randomness_of(address@, randomness@),
{
    let mut seed = slice_to_vec(address.as_str().as_bytes());
    append_bytes(&mut seed, randomness.as_str().as_bytes());
    sha256_hash(seed.as_slice())
}

/// Derives a participant's lucky number from the participant's address and
/// the 32 bytes of randomness delivered for it.
pub fn generate_lucky_number(address: &String, randomness: [u8; 32]) -> (r: [u8; 32])
    ensures
        r@ == lucky_number_of(address@, randomness@),
{
    let mut seed = slice_to_vec(address.as_str().as_bytes());
    append_bytes(&mut seed, randomness.as_slice());
    sha256_hash(seed.as_slice())
}

} // verus!
