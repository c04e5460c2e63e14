//! The identifier of a torrent: 20 bytes, written as 40 hexadecimal digits.
use vstd::prelude::*;
use vstd::string::StringExecFns;
use vstd::string::StringSliceAdditionalSpecFns;

verus! {

/// Compares two 20-byte identifiers byte by byte.
pub fn same_bytes_20(a: &[u8; 20], b: &[u8; 20]) -> (r: bool)
    ensures
        r == (a@ == b@),
{
    let mut i: usize = 0;
    while i < 20
        invariant
            i <= 20,
            a@.subrange(0, i as int) == b@.subrange(0, i as int),
        decreases 20 - i,
    {
        if a[i] != b[i] {
            return false;
        }
        assert(a@.subrange(0, i + 1) == a@.subrange(0, i as int).push(a@[i as int]));
        assert(b@.subrange(0, i + 1) == b@.subrange(0, i as int).push(b@[i as int]));
        i = i + 1;
    }
    assert(a@ == a@.subrange(0, 20));
    assert(b@ == b@.subrange(0, 20));
    true
}

/// A 20-byte identifier of a torrent's metadata.
#[derive(Clone, Copy, Eq, Hash, Debug)]
pub struct InfoHash(pub [u8; 20]);

impl PartialEq for InfoHash {
    fn eq(&self, other: &InfoHash) -> (r: bool) {
        same_bytes_20(&self.0, &other.0)
    }
}

impl View for InfoHash {
    type V = Seq<u8>;

    open spec fn view(&self) -> Seq<u8> {
        self.0@
    }
}

impl vstd::std_specs::cmp::PartialEqSpecImpl for InfoHash {
    open spec fn obeys_eq_spec() -> bool {
        true
    }

    open spec fn eq_spec(&self, other: &InfoHash) -> bool {
        self.0@ == other.0@
    }
}

/// The digits of lowercase hexadecimal, by value.
pub open spec fn hex_alphabet() -> Seq<char> {
    seq!['0', '1', '2', '3', '4', '5', '6', '7', '8', '9', 'a', 'b', 'c', 'd', 'e', 'f']
}

/// Lowercase hexadecimal text of `bytes`: two digits per byte, high nibble first.
pub open spec fn lower_hex(bytes: Seq<u8>) -> Seq<char> {
    Seq::new(
        2 * bytes.len(),
        |i: int|
            if i % 2 == 0 {
                hex_alphabet()[bytes[i / 2] as int / 16]
            } else {
                hex_alphabet()[bytes[i / 2] as int % 16]
            },
    )
}

/// Whether an ASCII byte is a hexadecimal digit of either case.
pub open spec fn is_hex_digit(c: u8) -> bool {
    (48 <= c <= 57) || (65 <= c <= 70) || (97 <= c <= 102)
}

/// The value of a hexadecimal digit.
pub open spec fn hex_digit_value(c: u8) -> int {
    if c <= 57 {
        c - 48
    } else if c <= 70 {
        c - 55
    } else {
        c - 87
    }
}

/// Why a text is not the hexadecimal form of a 20-byte identifier.
#[derive(Clone, Copy, PartialEq, Eq, Structural, Debug)]
pub enum HexError {
    /// The byte at `index` is not a hexadecimal digit.
    InvalidHexCharacter { c: char, index: usize },
    /// The text has an odd number of bytes.
    OddLength,
    /// The text has an even number of bytes, but not 40.
    InvalidStringLength,
}

/// What reading `data` as the hexadecimal form of 20 bytes gives: the length is
/// checked first (odd, then other than 40), then the first byte that is not a
/// digit is reported.
pub open spec fn hex_decode_20(data: Seq<u8>) -> Result<Seq<u8>, HexError> {
    if data.len() % 2 != 0 {
        Err(HexError::OddLength)
    } else if data.len() != 40 {
        Err(HexError::InvalidStringLength)
    } else if exists|k: int| 0 <= k < 40 && !is_hex_digit(data[k]) {
        let k = choose|k: int|
            0 <= k < 40 && !is_hex_digit(data[k]) && forall|j: int|
                0 <= j < k ==> is_hex_digit(#[trigger] data[j]);
        Err(HexError::InvalidHexCharacter { c: data[k] as char, index: k as usize })
    } else {
        Ok(
            Seq::new(
                20,
                |i: int| (hex_digit_value(data[2 * i]) * 16 + hex_digit_value(data[2 * i + 1])) as u8,
            ),
        )
    }
}

/// Relies on `hex::encode`: lowercase digits, two per byte, high nibble first.
#[verifier::external_body]
fn encode_lower_hex(bytes: &[u8]) -> (r: String)
    ensures
        r@ == lower_hex(bytes@),
{
    hex::encode(bytes)
}

/// Relies on `hex::decode_to_slice` into a 20-byte buffer: odd length, then a
/// length other than 40, then the first byte that is no hexadecimal digit, are
/// the errors, in that order.
#[verifier::external_body]
fn decode_hex_20(data: &[u8]) -> (r: Result<[u8; 20], HexError>)
    ensures
        match r {
            Ok(bytes) => hex_decode_20(data@) == Ok::<Seq<u8>, HexError>(bytes@),
            Err(e) => hex_decode_20(data@) == Err::<Seq<u8>, HexError>(e),
        },
{
    let mut out = [0u8; 20];
    match hex::decode_to_slice(data, &mut out) {
        Ok(()) => Ok(out),
        Err(hex::FromHexError::InvalidHexCharacter { c, index }) => Err(
            HexError::InvalidHexCharacter { c, index },
        ),
        Err(hex::FromHexError::OddLength) => Err(HexError::OddLength),
        Err(hex::FromHexError::InvalidStringLength) => Err(HexError::InvalidStringLength),
    }
}

impl InfoHash {
    /// Builds the identifier from its bytes.
    pub fn new(hash: [u8; 20]) -> (r: InfoHash)
        ensures
            r.0@ == hash@,
    {
        InfoHash(hash)
    }

    /// Parses the 40-digit hexadecimal form, in either case.
    pub fn from_hex(s: &str) -> (r: Result<InfoHash, HexError>)
        ensures
            match r {
                Ok(h) => hex_decode_20(s.spec_bytes()) == Ok::<Seq<u8>, HexError>(h.0@),
                Err(e) => hex_decode_20(s.spec_bytes()) == Err::<Seq<u8>, HexError>(e),
            },
    {
        match decode_hex_20(s.as_bytes()) {
            Ok(bytes) => Ok(InfoHash(bytes)),
            Err(e) => Err(e),
        }
    }

    /// The human-readable form: lowercase hexadecimal.
    pub fn display(&self) -> (r: String)
        ensures
            r@ == lower_hex(self.0@),
    {
        encode_lower_hex(&self.0)
    }

    /// The debugging form: the type's name around the hexadecimal digits.
    pub fn debug(&self) -> (r: String)
        ensures
            r@ == "InfoHash("@ + lower_hex(self.0@) + ")"@,
    {
        let mut r = String::from_str("InfoHash(");
        let digits = encode_lower_hex(&self.0);
        r.append(digits.as_str());
        r.append(")");
        r
    }
}

impl core::str::FromStr for InfoHash {
    type Err = HexError;

    fn from_str(s: &str) -> Result<InfoHash, HexError> {
        InfoHash::from_hex(s)
    }
}

} // verus!
