//! Tunnel and forward identifiers: the 128-bit value of a UUID, and its text.
use vstd::prelude::*;

verus! {

/// The lower-case hexadecimal digit for `d` (below 16).
pub open spec fn hex_digit(d: nat) -> char {
    if d < 10 {
        (48 + d) as char
    } else {
        (87 + d) as char
    }
}

/// The last `n` hexadecimal digits of `v`, lower case, leading zeros included.
pub open spec fn hex_digits(v: nat, n: nat) -> Seq<char>
    decreases n,
{
    if n == 0 {
        Seq::empty()
    } else {
        hex_digits(v / 16, (n - 1) as nat).push(hex_digit(v % 16))
    }
}

/// The text that `uuid::Uuid` writes through `Display` for the UUID whose value is `id`:
/// its 32 lower-case hexadecimal digits, with a hyphen after the 8th, 12th, 16th and
/// 20th.
pub open spec fn uuid_text(id: u128) -> Seq<char> {
    let h = hex_digits(id as nat, 32);
    h.subrange(0, 8) + seq!['-'] + h.subrange(8, 12) + seq!['-'] + h.subrange(12, 16) + seq!['-']
        + h.subrange(16, 20) + seq!['-'] + h.subrange(20, 32)
}

/// What `uuid::Uuid::parse_str` gives for `text`: the parsed UUID's value, or `None`
/// where it reports an error.
pub uninterp spec fn uuid_parse(text: Seq<char>) -> Option<u128>;

/// The unsigned number whose big-endian bytes are `bytes`.
pub open spec fn big_endian(bytes: Seq<u8>) -> nat
    decreases bytes.len(),
{
    if bytes.len() == 0 {
        0
    } else {
        big_endian(bytes.drop_last()) * 256 + bytes.last() as nat
    }
}

/// The bytes of a random (version 4, RFC 4122 variant) UUID made from `bytes`: the high
/// nibble of byte 6 becomes the version 4, the two high bits of byte 8 become `10`.
pub open spec fn v4_bytes(bytes: Seq<u8>) -> Seq<u8> {
    bytes.update(6, (bytes[6] & 0x0f) | 0x40).update(8, (bytes[8] & 0x3f) | 0x80)
}

/// The value of the random UUID built from the sixteen `bytes`.
pub open spec fn v4_value(bytes: Seq<u8>) -> nat {
    big_endian(v4_bytes(bytes))
}

/// The message of the error that a failed draw of random bytes gives.
pub open spec fn no_randomness_message() -> Seq<char> {
    "could not obtain random bytes for a new identifier"@
}

/// Calls `getrandom::fill` on sixteen bytes; `None` stands for its error. The bytes are
/// the operating system's random bytes: nothing is claimed of them.
#[verifier::external_body]
fn random_bytes() -> (bytes: Option<[u8; 16]>) {
    let mut bytes = [0u8; 16];
    match getrandom::fill(&mut bytes) {
        Ok(()) => Some(bytes),
        Err(_) => None,
    }
}

/// Calls `uuid::Builder::from_random_bytes` and reads the UUID's value (`as_u128`, which
/// reads the bytes big-endian). The builder keeps the bytes but for the version nibble of
/// byte 6 and the variant bits of byte 8, as `v4_bytes` says.
#[verifier::external_body]
fn uuid_from_random_bytes(bytes: [u8; 16]) -> (id: u128)
    ensures
        id as nat == v4_value(bytes@),
{
    uuid::Builder::from_random_bytes(bytes).into_uuid().as_u128()
}

/// Calls `uuid::Uuid::to_string` (its `Display`): the hyphenated lower-case form
/// `uuid_text(id)`, which `uuid::Uuid::parse_str` reads back to the same UUID.
#[verifier::external_body]
pub(crate) fn write_uuid(id: u128) -> (text: String)
    ensures
        text@ == uuid_text(id),
        uuid_parse(text@) == Some(id),
{
    uuid::Uuid::from_u128(id).to_string()
}

/// Calls `uuid::Uuid::parse_str`; `None` stands for its error. The result is named
/// `uuid_parse(text@)`.
#[verifier::external_body]
pub(crate) fn read_uuid(text: &str) -> (id: Option<u128>)
    ensures
        id == uuid_parse(text@),
{
    uuid::Uuid::parse_str(text).ok().map(|u| u.as_u128())
}

/// A sequence of bytes whose big-endian value is zero holds only zero bytes.
pub proof fn lemma_big_endian_zero(bytes: Seq<u8>, i: int)
    requires
        big_endian(bytes) == 0,
        0 <= i < bytes.len(),
    ensures
        bytes[i] == 0,
    decreases bytes.len(),
{
    if i < bytes.len() - 1 {
        lemma_big_endian_zero(bytes.drop_last(), i);
    }
}

/// A random UUID is never the nil UUID: its variant bits are set.
pub proof fn lemma_v4_value_not_nil(bytes: Seq<u8>)
    requires
        bytes.len() == 16,
    ensures
        v4_value(bytes) != 0,
{
    let b8 = bytes[8];
    assert((b8 & 0x3f) | 0x80 != 0) by (bit_vector);
    if v4_value(bytes) == 0 {
        lemma_big_endian_zero(v4_bytes(bytes), 8);
    }
}

/// The identifier of a random UUID built from `drawn`, the outcome of a draw of sixteen
/// random bytes; a failed draw (`None`) is an error.
pub fn id_from_random(drawn: Option<[u8; 16]>) -> (id: Result<u128, String>)
    ensures
        match drawn {
            Some(bytes) => id matches Ok(v) && v as nat == v4_value(bytes@) && v != 0,
            None => id matches Err(m) && m@ == no_randomness_message(),
        },
{
    match drawn {
        Some(bytes) => {
            let v = uuid_from_random_bytes(bytes);
            proof {
                lemma_v4_value_not_nil(bytes@);
            }
            Ok(v)
        },
        None => Err("could not obtain random bytes for a new identifier".to_string()),
    }
}

/// A fresh random identifier (a version 4 UUID's value), or an error where the operating
/// system gives no random bytes. The identifier is never the nil UUID.
pub fn new_id() -> (id: Result<u128, String>)
    ensures
        match id {
            Ok(v) => v != 0 && exists|b: Seq<u8>| b.len() == 16 && v as nat == v4_value(b),
            Err(m) => m@ == no_randomness_message(),
        },
{
    let drawn = random_bytes();
    let id = id_from_random(drawn);
    proof {
        if let Some(bytes) = drawn {
            assert(bytes@.len() == 16 && v4_value(bytes@) == v4_value(bytes@));
        }
    }
    id
}

} // verus!
