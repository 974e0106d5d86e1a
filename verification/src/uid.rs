//! Unique ID (UID)
//!
//! The source differs per chip:
//!
//! - **RP2350**: the chip ID held in OTP, which is also what the bootrom reports as its USB
//!   serial number.
//! - **RP2040**: the die has no unique ID, so the SPI flash chip's unique ID is used instead.
//!   Not every flash chip implements the command.
//!
//! If the ID cannot be read, every byte reads back as `0xEE`, a well-defined and obviously
//! wrong value.

use vstd::prelude::*;
use vstd::string::StringSliceAdditionalSpecFns;
use vstd::utf8::valid_utf8;

verus! {

/// Value reported for every byte when the ID cannot be read.
pub const UNAVAILABLE: u8 = 0xEE;

/// What the chip answered when it was asked for its ID; `None` when it could not be read.
#[derive(Clone, Copy, PartialEq, Eq, Debug)]
pub enum UidSource {
    /// RP2040: the unique ID command of the flash chip.
    Flash(Option<[u8; 8]>),
    /// RP235x: the chip ID in OTP.
    Otp(Option<u64>),
}

/// Byte `i` of a 64-bit number, most significant byte first.
pub open spec fn be_byte(id: u64, i: int) -> u8 {
    (id >> ((56 - 8 * i) as u64) & 0xff) as u8
}

/// The upper-case hexadecimal digit for `n`.
pub open spec fn hex_digit(n: u8) -> int {
    if n < 10 {
        '0' as int + n
    } else {
        'A' as int + n - 10
    }
}

/// The two hexadecimal digits of each byte, in order.
pub open spec fn is_hex_of(hex: Seq<u8>, bytes: Seq<u8>) -> bool {
    &&& hex.len() == 2 * bytes.len()
    &&& forall|i: int|
        0 <= i < bytes.len() ==> {
            &&& hex[2 * i] == hex_digit(#[trigger] bytes[i] / 16)
            &&& hex[2 * i + 1] == hex_digit(bytes[i] % 16)
        }
}

/// The big-endian bytes are the digits of the number in base 256.
pub proof fn be_bytes_value(id: u64)
    ensures
        id == be_byte(id, 0) * 0x100_0000_0000_0000 + be_byte(id, 1) * 0x1_0000_0000_0000 + be_byte(
            id,
            2,
        ) * 0x100_0000_0000 + be_byte(id, 3) * 0x1_0000_0000 + be_byte(id, 4) * 0x100_0000
            + be_byte(id, 5) * 0x1_0000 + be_byte(id, 6) * 0x100 + be_byte(id, 7),
{
    assert(id == ((id >> 56) & 0xff) * 0x100_0000_0000_0000 + ((id >> 48) & 0xff)
        * 0x1_0000_0000_0000 + ((id >> 40) & 0xff) * 0x100_0000_0000 + ((id >> 32) & 0xff)
        * 0x1_0000_0000 + ((id >> 24) & 0xff) * 0x100_0000 + ((id >> 16) & 0xff) * 0x1_0000 + ((id
        >> 8) & 0xff) * 0x100 + ((id >> 0) & 0xff)) by (bit_vector);
    assert(forall|k: u64| #![trigger id >> k] (id >> k) & 0xff <= 0xff) by (bit_vector);
}

/// The ID that a chip's answer stands for.
pub fn read_uid(source: UidSource) -> (bytes: [u8; 8])
    ensures
        source matches UidSource::Flash(Some(id)) ==> bytes@ == id@,
        source matches UidSource::Otp(Some(id)) ==> forall|i: int|
            0 <= i < 8 ==> #[trigger] bytes[i] == be_byte(id, i),
        source matches UidSource::Flash(None) ==> forall|i: int|
            0 <= i < 8 ==> #[trigger] bytes[i] == UNAVAILABLE,
        source matches UidSource::Otp(None) ==> forall|i: int|
            0 <= i < 8 ==> #[trigger] bytes[i] == UNAVAILABLE,
{
    match source {
        UidSource::Flash(Some(id)) => id,
        UidSource::Otp(Some(id)) => {
            [
                ((id >> 56) & 0xff) as u8,
                ((id >> 48) & 0xff) as u8,
                ((id >> 40) & 0xff) as u8,
                ((id >> 32) & 0xff) as u8,
                ((id >> 24) & 0xff) as u8,
                ((id >> 16) & 0xff) as u8,
                ((id >> 8) & 0xff) as u8,
                ((id >> 0) & 0xff) as u8,
            ]
        },
        _ => [UNAVAILABLE; 8],
    }
}

fn digit(n: u8) -> (d: u8)
    requires
        n < 16,
    ensures
        d == hex_digit(n),
{
    if n < 10 {
        48 + n
    } else {
        55 + n
    }
}

/// A unique ID with its hexadecimal digits.
#[derive(Clone, Copy, PartialEq, Eq, Debug)]
pub struct Uid {
    bytes: [u8; 8],
    hex: [u8; 16],
}

impl Uid {
    /// The ID.
    pub closed spec fn bytes(self) -> Seq<u8> {
        self.bytes@
    }

    /// Its digits.
    pub closed spec fn hex(self) -> Seq<u8> {
        self.hex@
    }

    #[verifier::type_invariant]
    closed spec fn inv(self) -> bool {
        is_hex_of(self.hex@, self.bytes@)
    }

    /// Encode an ID.
    pub fn new(bytes: [u8; 8]) -> (uid: Uid)
        ensures
            uid.bytes() == bytes@,
            is_hex_of(uid.hex(), uid.bytes()),
    {
        let mut hex: [u8; 16] = [0; 16];
        let mut idx: usize = 0;
        while idx < 8
            invariant
                idx <= 8,
                forall|i: int|
                    0 <= i < idx ==> {
                        &&& hex[2 * i] == hex_digit(#[trigger] bytes[i] / 16)
                        &&& hex[2 * i + 1] == hex_digit(bytes[i] % 16)
                    },
            decreases 8 - idx,
        {
            let v: u8 = bytes[idx];
            let lo: u8 = v & 0x0f;
            let hi: u8 = (v & 0xf0) >> 4;
            assert(lo == v % 16 && hi == v / 16) by (bit_vector)
                requires
                    lo == v & 0x0f,
                    hi == (v & 0xf0) >> 4,
            ;
            hex[idx * 2] = digit(hi);
            hex[idx * 2 + 1] = digit(lo);
            idx = idx + 1;
        }
        Uid { bytes, hex }
    }
}

/// Get a device's unique 64-bit ID.
pub fn uid(id: &Uid) -> (bytes: &[u8; 8])
    ensures
        bytes@ == id.bytes(),
{
    &id.bytes
}

/// Get a device's unique 64-bit ID, encoded into 16 hexadecimal ASCII bytes.
pub fn uid_hex_bytes(id: &Uid) -> (hex: &[u8; 16])
    ensures
        hex@ == id.hex(),
        is_hex_of(hex@, id.bytes()),
{
    proof {
        use_type_invariant(id);
    }
    &id.hex
}

/// `core::str::from_utf8`. Trusted: it accepts valid UTF-8, and the text has those bytes.
#[verifier::external_body]
fn text(bytes: &[u8]) -> (s: &str)
    requires
        valid_utf8(bytes@),
    ensures
        s.spec_bytes() == bytes@,
{
    core::str::from_utf8(bytes).unwrap()
}

/// Get a device's unique 64-bit ID, encoded into a string of 16 hexadecimal ASCII digits.
pub fn uid_hex(id: &Uid) -> (s: &str)
    ensures
        s@ == Seq::new(16, |i: int| id.hex()[i] as char),
        is_hex_of(id.hex(), id.bytes()),
{
    proof {
        use_type_invariant(id);
        let chars = Seq::new(16, |i: int| id.hex()[i] as char);
        assert forall|i: int| 0 <= i < 16 implies '0' <= #[trigger] chars[i] <= 'F' by {
            assert(id.bytes@[i / 2] <= 255);
            assert(i == 2 * (i / 2) || i == 2 * (i / 2) + 1);
        }
        vstd::utf8::is_ascii_chars_encode_utf8(chars);
        assert(vstd::utf8::encode_utf8(chars) =~= id.hex@);
        vstd::utf8::encode_utf8_valid_utf8(chars);
        vstd::utf8::encode_utf8_decode_utf8(chars);
    }
    let hex: &[u8] = &id.hex;
    let s: &str = text(hex);
    proof {
        vstd::utf8::encode_utf8_decode_utf8(s@);
    }
    s
}

/// The digits determine the ID.
pub proof fn hex_determines_bytes(hex: Seq<u8>, a: Seq<u8>, b: Seq<u8>)
    requires
        is_hex_of(hex, a),
        is_hex_of(hex, b),
    ensures
        a == b,
{
    assert forall|i: int| 0 <= i < a.len() implies a[i] == b[i] by {
        assert(hex_digit(a[i] / 16) == hex_digit(b[i] / 16));
        assert(hex_digit(a[i] % 16) == hex_digit(b[i] % 16));
    }
    assert(a =~= b);
}

} // verus!
