//! Content hashes: MD5 digests, computed by the `md5` crate, in lower-case
//! hexadecimal.

use vstd::prelude::*;
use vstd::string::*;

verus! {

/// The hashing state of the `md5` crate, carried through as an opaque value.
#[verifier::external_type_specification]
#[verifier::external_body]
pub struct ExContext(md5::Context);

/// The bytes that a hashing state has taken in so far, in order.
pub uninterp spec fn consumed(context: md5::Context) -> Seq<u8>;

/// The sixteen digest bytes that `md5::Context::finalize` returns once the
/// state has taken in exactly `bytes`.
pub uninterp spec fn md5_digest(bytes: Seq<u8>) -> Seq<u8>;

/// `md5::Context::new`: a state that has taken in nothing.
#[verifier::external_body]
pub(crate) fn context_new() -> (context: md5::Context)
    ensures
        consumed(context) == Seq::<u8>::empty(),
{
    md5::Context::new()
}

/// `md5::Context::consume`: the data is appended to what the state has
/// taken in; it never fails, whatever the length.
#[verifier::external_body]
pub(crate) fn context_consume(context: &mut md5::Context, data: &[u8])
    ensures
        consumed(*final(context)) == consumed(*old(context)) + data@,
{
    context.consume(data)
}

/// `md5::Context::finalize`: the digest depends on nothing but the bytes
/// taken in, however they were split over the calls of `consume`.
#[verifier::external_body]
pub(crate) fn context_finalize(context: md5::Context) -> (digest: [u8; 16])
    ensures
        digest@ == md5_digest(consumed(context)),
{
    context.finalize().0
}

/// The lower-case hexadecimal digit for a value below sixteen.
pub open spec fn hex_digit(nibble: int) -> char {
    if nibble < 10 {
        ((48 + nibble) as u8) as char
    } else {
        ((87 + nibble) as u8) as char
    }
}

/// Two lower-case hexadecimal digits per byte, high half first.
pub open spec fn lower_hex(bytes: Seq<u8>) -> Seq<char> {
    Seq::new(
        2 * bytes.len(),
        |i: int|
            if i % 2 == 0 {
                hex_digit(bytes[i / 2] as int / 16)
            } else {
                hex_digit(bytes[i / 2] as int % 16)
            },
    )
}

/// The content hash of a file with the given bytes, as manifests write it.
pub open spec fn content_hash(bytes: Seq<u8>) -> Seq<char> {
    lower_hex(md5_digest(bytes))
}

fn hex_digit_ascii(nibble: u8) -> (digit: u8)
    requires
        nibble < 16,
    ensures
        digit < 128,
        digit as char == hex_digit(nibble as int),
{
    if nibble < 10 {
        48 + nibble
    } else {
        87 + nibble
    }
}

/// Every character of a hexadecimal rendering is a plain ASCII character.
pub proof fn lemma_lower_hex_is_ascii(bytes: Seq<u8>)
    ensures
        lower_hex(bytes).len() == 2 * bytes.len(),
        forall|i: int|
            0 <= i < lower_hex(bytes).len() ==> (#[trigger] lower_hex(bytes)[i]) as u32 <= 0x7f,
{
    assert forall|i: int| 0 <= i < lower_hex(bytes).len() implies (#[trigger] lower_hex(
        bytes,
    )[i]) as u32 <= 0x7f by {
        let b = bytes[i / 2] as int;
        assert(0 <= b / 16 < 16 && 0 <= b % 16 < 16);
    }
}

/// Whether `expected` is, character for character, the lower-case
/// hexadecimal rendering of `digest`.
pub fn hex_matches(digest: &[u8; 16], expected: &str) -> (same: bool)
    ensures
        same == (expected@ == lower_hex(digest@)),
{
    proof {
        lemma_lower_hex_is_ascii(digest@);
    }
    if !expected.is_ascii() {
        return false;
    }
    let text = expected.as_bytes();
    proof {
        is_ascii_spec_bytes(expected);
    }
    if text.len() != 32 {
        return false;
    }
    let mut i: usize = 0;
    while i < 16
        invariant
            0 <= i <= 16,
            text@.len() == 32,
            expected@.len() == 32,
            is_ascii(expected),
            text@ == Seq::new(expected@.len(), |k: int| expected@[k] as u8),
            forall|k: int| 0 <= k < 2 * i ==> expected@[k] == #[trigger] lower_hex(digest@)[k],
        decreases 16 - i,
    {
        let byte: u8 = digest[i];
        let high: u8 = hex_digit_ascii(byte / 16);
        let low: u8 = hex_digit_ascii(byte % 16);
        if text[2 * i] != high || text[2 * i + 1] != low {
            proof {
                let k: int = if text[2 * i as int] != high { 2 * i as int } else { 2 * i + 1 };
                assert(text@[k] == expected@[k] as u8);
                assert(expected@[k] != lower_hex(digest@)[k]);
            }
            return false;
        }
        proof {
            assert(text@[2 * i as int] == expected@[2 * i as int] as u8);
            assert(text@[2 * i + 1] == expected@[2 * i + 1] as u8);
        }
        i += 1;
    }
    assert(expected@ =~= lower_hex(digest@));
    true
}

} // verus!
