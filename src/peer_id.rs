//! The identifier of a peer: 20 bytes, generated as a tag, a version and
//! random base58 digits.
use vstd::prelude::*;
use vstd::string::StringExecFns;
use vstd::utf8::{decode_utf8, valid_utf8};

use crate::info_hash::same_bytes_20;
use crate::wire::{append_bytes, take_20, Decoded, SansIo};

verus! {

/// A 20-byte identifier that each participant picks for itself.
#[derive(Clone, Copy, Eq, Hash, Debug)]
pub struct PeerId(pub [u8; 20]);

impl View for PeerId {
    type V = Seq<u8>;

    open spec fn view(&self) -> Seq<u8> {
        self.0@
    }
}

impl PartialEq for PeerId {
    fn eq(&self, other: &PeerId) -> (r: bool) {
        same_bytes_20(&self.0, &other.0)
    }
}

impl vstd::std_specs::cmp::PartialEqSpecImpl for PeerId {
    open spec fn obeys_eq_spec() -> bool {
        true
    }

    open spec fn eq_spec(&self, other: &PeerId) -> bool {
        self.0@ == other.0@
    }
}

/// The base58 alphabet as bytes, by digit value: no `0`, `O`, `I` or `l`.
pub open spec fn base58_alphabet() -> Seq<u8> {
    seq![
        49u8, 50u8, 51u8, 52u8, 53u8, 54u8, 55u8, 56u8, 57u8, 65u8, 66u8, 67u8, 68u8, 69u8, 70u8,
        71u8, 72u8, 74u8, 75u8, 76u8, 77u8, 78u8, 80u8, 81u8, 82u8, 83u8, 84u8, 85u8, 86u8, 87u8,
        88u8, 89u8, 90u8, 97u8, 98u8, 99u8, 100u8, 101u8, 102u8, 103u8, 104u8, 105u8, 106u8,
        107u8, 109u8, 110u8, 111u8, 112u8, 113u8, 114u8, 115u8, 116u8, 117u8, 118u8, 119u8,
        120u8, 121u8, 122u8,
    ]
}

fn base58_alphabet_bytes() -> (r: [u8; 58])
    ensures
        r@ == base58_alphabet(),
{
    [
        49, 50, 51, 52, 53, 54, 55, 56, 57, 65, 66, 67, 68, 69, 70, 71, 72, 74, 75, 76, 77, 78, 80,
        81, 82, 83, 84, 85, 86, 87, 88, 89, 90, 97, 98, 99, 100, 101, 102, 103, 104, 105, 106, 107,
        109, 110, 111, 112, 113, 114, 115, 116, 117, 118, 119, 120, 121, 122,
    ]
}

/// Whether a byte is a digit of the base58 alphabet.
pub open spec fn is_base58_byte(b: u8) -> bool {
    base58_alphabet().contains(b)
}

/// The base58 digits of `n`, most significant first, without leading zeros.
pub open spec fn base58_digits(n: nat) -> Seq<char>
    decreases n,
{
    if n < 58 {
        seq![base58_alphabet()[n as int] as char]
    } else {
        base58_digits(n / 58).push(base58_alphabet()[(n % 58) as int] as char)
    }
}

/// Relies on `ToBase58::to_base58` of the base58 crate, on one byte or on two
/// bytes of which the first is not zero: the base-58 digits of their
/// big-endian value, most significant first (a lone zero byte gives "1").
#[verifier::external_body]
fn to_base58(bytes: &[u8]) -> (r: String)
    requires
        bytes@.len() == 1 || (bytes@.len() == 2 && bytes@[0] != 0),
    ensures
        r@ == base58_digits(
            if bytes@.len() == 1 {
                bytes@[0] as nat
            } else {
                bytes@[0] as nat * 256 + bytes@[1] as nat
            },
        ),
{
    base58::ToBase58::to_base58(bytes)
}

/// The base58 digits of a number.
fn render_base58(n: u16) -> (r: String)
    ensures
        r@ == base58_digits(n as nat),
{
    if n < 256 {
        let one = [n as u8];
        to_base58(one.as_slice())
    } else {
        let two = [(n / 256) as u8, (n % 256) as u8];
        to_base58(two.as_slice())
    }
}

/// Relies on rand's `thread_rng` sampled through `Uniform::new(0, bound)`,
/// which panics when `bound` is zero: `count` numbers, each below `bound`.
#[verifier::external_body]
fn random_indices(bound: usize, count: usize) -> (r: Vec<usize>)
    requires
        0 < bound,
    ensures
        r@.len() == count,
        forall|i: int| 0 <= i < count ==> r@[i] < bound,
{
    rand::Rng::sample_iter(rand::thread_rng(), rand::distributions::Uniform::new(0, bound)).take(
        count,
    ).collect()
}

/// The digits of the base58 alphabet at the given values.
pub fn base58_bytes_at(indices: &Vec<usize>) -> (r: Vec<u8>)
    requires
        forall|i: int| 0 <= i < indices@.len() ==> indices@[i] < 58,
    ensures
        r@.len() == indices@.len(),
        forall|i: int| 0 <= i < indices@.len() ==> r@[i] == base58_alphabet()[indices@[i] as int],
{
    let alphabet = base58_alphabet_bytes();
    let mut out: Vec<u8> = Vec::new();
    let mut i: usize = 0;
    while i < indices.len()
        invariant
            i <= indices@.len(),
            alphabet@ == base58_alphabet(),
            forall|j: int| 0 <= j < indices@.len() ==> indices@[j] < 58,
            out@.len() == i,
            forall|j: int| 0 <= j < i ==> out@[j] == base58_alphabet()[indices@[j] as int],
        decreases indices.len() - i,
    {
        out.push(alphabet[indices[i]]);
        i = i + 1;
    }
    out
}

/// `length` random digits of the base58 alphabet.
fn random_base58_bytes(length: usize) -> (r: Vec<u8>)
    ensures
        r@.len() == length,
        forall|i: int| 0 <= i < length ==> is_base58_byte(#[trigger] r@[i]),
{
    let indices = random_indices(58, length);
    let r = base58_bytes_at(&indices);
    assert forall|i: int| 0 <= i < length implies is_base58_byte(#[trigger] r@[i]) by {
        assert(base58_alphabet()[indices@[i] as int] == r@[i]);
    }
    r
}

/// Whether each part of a version fits the identifier's format: one base58
/// digit for the major and the patch number, two for the minor number.
pub open spec fn version_fits(major: u8, minor: u16, patch: u8) -> bool {
    major < 58 && minor / 58 < 58 && patch < 58
}

/// The first eight bytes of a generated identifier: a dash, the two-byte tag,
/// the version's four base58 digits, a dash.
pub open spec fn version_prefix(tag: Seq<u8>, major: u8, minor: u16, patch: u8) -> Seq<u8> {
    seq![
        45u8,
        tag[0],
        tag[1],
        base58_alphabet()[major as int],
        base58_alphabet()[minor as int / 58],
        base58_alphabet()[minor as int % 58],
        base58_alphabet()[patch as int],
        45u8,
    ]
}

/// A part of a version that does not fit the identifier's format, with the
/// base58 text that it would take.
#[derive(Debug, PartialEq, Eq)]
#[allow(inconsistent_fields)]
pub enum VersionError {
    Major { version: u8, rendered: String },
    Minor { version: u16, rendered: String },
    Patch { version: u8, rendered: String },
}

/// The error for the first part of a version that does not fit, in the order
/// major, minor, patch.
pub open spec fn describes_first_misfit(e: VersionError, major: u8, minor: u16, patch: u8) -> bool {
    match e {
        VersionError::Major { version, rendered } => major >= 58 && version == major && rendered@
            == base58_digits(major as nat),
        VersionError::Minor { version, rendered } => major < 58 && minor / 58 >= 58 && version
            == minor && rendered@ == base58_digits((minor / 58) as nat) + base58_digits(
            (minor % 58) as nat,
        ),
        VersionError::Patch { version, rendered } => major < 58 && minor / 58 < 58 && patch >= 58
            && version == patch && rendered@ == base58_digits(patch as nat),
    }
}

/// The decimal digits.
pub open spec fn decimal_alphabet() -> Seq<char> {
    seq!['0', '1', '2', '3', '4', '5', '6', '7', '8', '9']
}

/// The decimal digits of `n`, most significant first, without leading zeros.
pub open spec fn decimal_digits(n: nat) -> Seq<char>
    decreases n,
{
    if n < 10 {
        seq![decimal_alphabet()[n as int]]
    } else {
        decimal_digits(n / 10).push(decimal_alphabet()[(n % 10) as int])
    }
}

fn digit_text(d: u16) -> (r: &'static str)
    requires
        d < 10,
    ensures
        r@ == seq![decimal_alphabet()[d as int]],
{
    proof {
        reveal_strlit("0");
        reveal_strlit("1");
        reveal_strlit("2");
        reveal_strlit("3");
        reveal_strlit("4");
        reveal_strlit("5");
        reveal_strlit("6");
        reveal_strlit("7");
        reveal_strlit("8");
        reveal_strlit("9");
    }
    if d == 0 {
        "0"
    } else if d == 1 {
        "1"
    } else if d == 2 {
        "2"
    } else if d == 3 {
        "3"
    } else if d == 4 {
        "4"
    } else if d == 5 {
        "5"
    } else if d == 6 {
        "6"
    } else if d == 7 {
        "7"
    } else if d == 8 {
        "8"
    } else {
        "9"
    }
}

/// The decimal text of a number.
fn render_decimal(n: u16) -> (r: String)
    ensures
        r@ == decimal_digits(n as nat),
    decreases n,
{
    if n < 10 {
        String::from_str(digit_text(n))
    } else {
        let mut r = render_decimal(n / 10);
        r.append(digit_text(n % 10));
        r
    }
}

/// The human-readable text of a version error.
pub open spec fn version_error_text(e: VersionError) -> Seq<char> {
    match e {
        VersionError::Major { version, rendered } => "Couldn't parse major version "@
            + decimal_digits(version as nat) + " as a single base58 character (was: \""@ + rendered@
            + "\")"@,
        VersionError::Minor { version, rendered } => "Couldn't parse minor version "@
            + decimal_digits(version as nat) + " as two base58 characters (was: \""@ + rendered@
            + "\")"@,
        VersionError::Patch { version, rendered } => "Couldn't parse patch version "@
            + decimal_digits(version as nat) + " as a single base58 character (was: \""@ + rendered@
            + "\")"@,
    }
}

impl VersionError {
    /// The human-readable text: the part, its number and its base58 text.
    pub fn message(&self) -> (r: String)
        ensures
            r@ == version_error_text(*self),
    {
        match self {
            VersionError::Major { version, rendered } => {
                let mut r = String::from_str("Couldn't parse major version ");
                r.append(render_decimal(*version as u16).as_str());
                r.append(" as a single base58 character (was: \"");
                r.append(rendered.as_str());
                r.append("\")");
                r
            },
            VersionError::Minor { version, rendered } => {
                let mut r = String::from_str("Couldn't parse minor version ");
                r.append(render_decimal(*version).as_str());
                r.append(" as two base58 characters (was: \"");
                r.append(rendered.as_str());
                r.append("\")");
                r
            },
            VersionError::Patch { version, rendered } => {
                let mut r = String::from_str("Couldn't parse patch version ");
                r.append(render_decimal(*version as u16).as_str());
                r.append(" as a single base58 character (was: \"");
                r.append(rendered.as_str());
                r.append("\")");
                r
            },
        }
    }
}

impl SansIo for PeerId {
    open spec fn decoded_from(bytes: Seq<u8>) -> Decoded<Seq<u8>> {
        if bytes.len() < 20 {
            Decoded::Incomplete
        } else {
            Decoded::Done { consumed: 20, value: bytes.subrange(0, 20) }
        }
    }

    open spec fn encodable(v: Seq<u8>) -> bool {
        true
    }

    open spec fn encoded(v: Seq<u8>) -> Seq<u8> {
        v
    }

    /// Decodes an identifier from the first 20 bytes of `bytes`.
    fn decode(bytes: &[u8]) -> Decoded<PeerId> {
        if bytes.len() < 20 {
            Decoded::Incomplete
        } else {
            Decoded::Done { consumed: 20, value: PeerId(take_20(bytes, 0)) }
        }
    }

    /// The 20 bytes of the identifier.
    fn encode(&self) -> Vec<u8> {
        let mut buf: Vec<u8> = Vec::new();
        append_bytes(&mut buf, self.0.as_slice());
        buf
    }
}

/// A name for what `String::from_utf8_lossy` makes of bytes.
pub uninterp spec fn utf8_lossy(bytes: Seq<u8>) -> Seq<char>;

/// Relies on `String::from_utf8_lossy`: the text of the bytes, where valid
/// UTF-8 comes through unchanged and each invalid sequence becomes U+FFFD.
#[verifier::external_body]
fn lossy_text(bytes: &[u8]) -> (r: String)
    ensures
        r@ == utf8_lossy(bytes@),
        valid_utf8(bytes@) ==> r@ == decode_utf8(bytes@),
{
    String::from_utf8_lossy(bytes).into_owned()
}

impl PeerId {
    /// Builds a fixed identifier from its bytes.
    pub fn new(hash: [u8; 20]) -> (r: PeerId)
        ensures
            r@ == hash@,
    {
        PeerId(hash)
    }

    /// The identifier `-<tag><major><minor><patch>-<suffix>`, the version in
    /// base58 digits, or the first part of the version that does not fit.
    pub fn with_version(tag: &[u8; 2], major: u8, minor: u16, patch: u8, suffix: &[u8; 12]) -> (r:
        Result<PeerId, VersionError>)
        ensures
            r is Ok <==> version_fits(major, minor, patch),
            match r {
                Ok(p) => p@ == version_prefix(tag@, major, minor, patch) + suffix@,
                Err(e) => describes_first_misfit(e, major, minor, patch),
            },
    {
        if major >= 58 {
            return Err(VersionError::Major { version: major, rendered: render_base58(major as u16) });
        }
        if minor / 58 >= 58 {
            let mut rendered = render_base58(minor / 58);
            let low = render_base58(minor % 58);
            rendered.append(low.as_str());
            return Err(VersionError::Minor { version: minor, rendered });
        }
        if patch >= 58 {
            return Err(VersionError::Patch { version: patch, rendered: render_base58(patch as u16) });
        }
        let alphabet = base58_alphabet_bytes();
        let mut hash = [0u8; 20];
        hash[0] = 45;
        hash[1] = tag[0];
        hash[2] = tag[1];
        hash[3] = alphabet[major as usize];
        hash[4] = alphabet[(minor / 58) as usize];
        hash[5] = alphabet[(minor % 58) as usize];
        hash[6] = alphabet[patch as usize];
        hash[7] = 45;
        let mut i: usize = 0;
        while i < 12
            invariant
                i <= 12,
                hash@.len() == 20,
                hash@.subrange(0, 8) == version_prefix(tag@, major, minor, patch),
                forall|j: int| 0 <= j < i ==> hash@[8 + j] == suffix@[j],
            decreases 12 - i,
        {
            hash[8 + i] = suffix[i];
            i = i + 1;
        }
        assert(hash@ =~= version_prefix(tag@, major, minor, patch) + suffix@);
        Ok(PeerId(hash))
    }

    /// A fresh identifier `-<tag><major><minor><patch>-` followed by twelve
    /// random base58 digits, or the first part of the version that does not
    /// fit its digits.
    pub fn random(tag: &[u8; 2], major: u8, minor: u16, patch: u8) -> (r: Result<PeerId, VersionError>)
        ensures
            r is Ok <==> version_fits(major, minor, patch),
            match r {
                Ok(p) => p@.subrange(0, 8) == version_prefix(tag@, major, minor, patch) && forall|
                    i: int,
                | 8 <= i < 20 ==> is_base58_byte(#[trigger] p@[i]),
                Err(e) => describes_first_misfit(e, major, minor, patch),
            },
    {
        let drawn = random_base58_bytes(12);
        let mut suffix = [0u8; 12];
        let mut i: usize = 0;
        while i < 12
            invariant
                i <= 12,
                drawn@.len() == 12,
                suffix@.len() == 12,
                forall|j: int| 0 <= j < 12 ==> is_base58_byte(#[trigger] drawn@[j]),
                forall|j: int| 0 <= j < i ==> suffix@[j] == drawn@[j],
            decreases 12 - i,
        {
            suffix[i] = drawn[i];
            i = i + 1;
        }
        let r = PeerId::with_version(tag, major, minor, patch, &suffix);
        proof {
            if let Ok(p) = r {
                assert(p@.subrange(0, 8) =~= version_prefix(tag@, major, minor, patch));
                assert forall|i: int| 8 <= i < 20 implies is_base58_byte(#[trigger] p@[i]) by {
                    assert(p@[i] == suffix@[i - 8]);
                }
            }
        }
        r
    }

    /// The human-readable form: the bytes read as UTF-8 text, each invalid
    /// sequence replaced.
    pub fn display(&self) -> (r: String)
        ensures
            r@ == utf8_lossy(self@),
            valid_utf8(self@) ==> r@ == decode_utf8(self@),
    {
        lossy_text(self.0.as_slice())
    }

    /// The debugging form: the type's name around the human-readable form.
    pub fn debug(&self) -> (r: String)
        ensures
            r@ == "PeerId("@ + utf8_lossy(self@) + ")"@,
    {
        let mut r = String::from_str("PeerId(");
        let text = lossy_text(self.0.as_slice());
        r.append(text.as_str());
        r.append(")");
        r
    }
}

} // verus!
