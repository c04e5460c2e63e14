use rand::Rng;
use torrent_poc::{HexError, InfoHash, PeerId, SansIo, VersionError};

const HASH: &str = "018e50b58106b84a42c223ccf0494334f8d55958";
const HASH_BYTES: [u8; 20] = [
    0x01, 0x8e, 0x50, 0xb5, 0x81, 0x06, 0xb8, 0x4a, 0x42, 0xc2, 0x23, 0xcc, 0xf0, 0x49, 0x43, 0x34,
    0xf8, 0xd5, 0x59, 0x58,
];
const ALPHABET: &[u8] = b"123456789ABCDEFGHJKLMNPQRSTUVWXYZabcdefghijkmnopqrstuvwxyz";
const PEER: &str = "-Rp0123-HahW9F2VDDzU";
const PEER_BYTES: &[u8; 20] = b"-Rp0123-HahW9F2VDDzU";

#[test]
fn parse() {
    let hash: InfoHash = HASH.parse().unwrap();
    assert_eq!(hash, InfoHash(HASH_BYTES));
}

#[test]
fn parse_accepts_uppercase() {
    let hash = InfoHash::from_hex(&HASH.to_uppercase()).unwrap();
    assert_eq!(hash, InfoHash::new(HASH_BYTES));
}

#[test]
fn parse_rejects_odd_length() {
    assert_eq!(InfoHash::from_hex("018e5"), Err(HexError::OddLength));
}

#[test]
fn parse_rejects_wrong_length() {
    assert_eq!(InfoHash::from_hex("018e"), Err(HexError::InvalidStringLength));
    assert_eq!(InfoHash::from_hex(""), Err(HexError::InvalidStringLength));
}

#[test]
fn parse_rejects_first_non_hex_digit() {
    let text = "018e50b58106b84a42c223ccf0494334f8d5595g";
    assert_eq!(
        InfoHash::from_hex(text),
        Err(HexError::InvalidHexCharacter { c: 'g', index: 39 })
    );
    let text = "0x8e50b58106b84a42c223ccf0494334f8d5595z";
    assert_eq!(
        InfoHash::from_hex(text),
        Err(HexError::InvalidHexCharacter { c: 'x', index: 1 })
    );
}

#[test]
fn info_hash_display() {
    let hash = InfoHash::new(HASH_BYTES);
    let formatted = hash.display();
    assert_eq!(formatted, HASH);
}

#[test]
fn info_hash_debug() {
    let hash = InfoHash::new(HASH_BYTES);
    let formatted = hash.debug();
    assert_eq!(formatted, format!("InfoHash({})", HASH));
}

#[test]
fn random_matches_format() {
    let random = PeerId::random(b"Rp", 22, 502, 11).unwrap();
    assert_eq!(&random.0[0..8], b"-RpP9fC-");
    for byte in &random.0[8..] {
        assert!(ALPHABET.contains(byte));
    }
}

fn check_format(major: u8, minor: u16, patch: u8) {
    let random = PeerId::random(b"Rp", major, minor, patch)
        .unwrap_or_else(|e| panic!("{major}.{minor}.{patch}: {}", e.message()));
    assert_eq!(&random.0[0..3], b"-Rp");
    assert_eq!(random.0[7], b'-');
    for byte in &random.0[3..7] {
        assert!(ALPHABET.contains(byte));
    }
    for byte in &random.0[8..] {
        assert!(ALPHABET.contains(byte));
    }
}

#[test]
fn random_using_crate_version_matches_format() {
    let mut rng = rand::thread_rng();
    check_format(0, 0, 0);
    check_format(57, 3363, 57);
    for _ in 0..100 {
        check_format(
            rng.gen_range(0..=57),
            rng.gen_range(0..=3363),
            rng.gen_range(0..=57),
        );
    }
}

#[test]
fn random_using_crate_version_out_of_range_err() {
    let err = PeerId::random(b"Rp", 58, 0, 0).unwrap_err();
    assert_eq!(
        err.message(),
        "Couldn't parse major version 58 as a single base58 character (was: \"21\")"
    );
    let err = PeerId::random(b"Rp", 0, 5002, 0).unwrap_err();
    assert_eq!(
        err.message(),
        "Couldn't parse minor version 5002 as two base58 characters (was: \"2VF\")"
    );
    let err = PeerId::random(b"Rp", 0, 0, 255).unwrap_err();
    assert_eq!(
        err.message(),
        "Couldn't parse patch version 255 as a single base58 character (was: \"5Q\")"
    );
}

#[test]
fn minor_version_beyond_two_digits_is_refused() {
    let err = PeerId::random(b"Rp", 1, 14848, 1).unwrap_err();
    assert_eq!(
        err,
        VersionError::Minor {
            version: 14848,
            rendered: "5R1".to_string()
        }
    );
    assert_eq!(
        err.message(),
        "Couldn't parse minor version 14848 as two base58 characters (was: \"5R1\")"
    );
}

#[test]
fn version_errors_come_in_order_major_minor_patch() {
    let err = PeerId::random(b"Rp", 200, 5002, 255).unwrap_err();
    assert!(matches!(err, VersionError::Major { version: 200, .. }));
    let err = PeerId::random(b"Rp", 3, 5002, 255).unwrap_err();
    assert!(matches!(err, VersionError::Minor { version: 5002, .. }));
}

#[test]
fn with_version_places_prefix_and_suffix() {
    let id = PeerId::with_version(b"Rp", 22, 502, 11, b"HahW9F2VDDzU").unwrap();
    assert_eq!(&id.0, b"-RpP9fC-HahW9F2VDDzU");
}

#[test]
fn peer_id_display() {
    let hash = PeerId::new(*PEER_BYTES);
    let formatted = hash.display();
    assert_eq!(formatted, PEER);
}

#[test]
fn peer_id_debug() {
    let hash = PeerId::new(*PEER_BYTES);
    let formatted = hash.debug();
    assert_eq!(formatted, format!("PeerId({})", PEER));
}

#[test]
fn peer_id_display_replaces_invalid_utf8() {
    let mut bytes = [b'a'; 20];
    bytes[3] = 0xff;
    let text = PeerId::new(bytes).display();
    assert_eq!(text, format!("aaa\u{fffd}{}", "a".repeat(16)));
}

#[test]
fn peer_id_encodes_and_decodes_its_bytes() {
    let id = PeerId::new(*PEER_BYTES);
    assert_eq!(id.encode(), PEER_BYTES.to_vec());
    let mut bytes = PEER_BYTES.to_vec();
    bytes.push(7);
    assert_eq!(
        PeerId::decode(&bytes),
        torrent_poc::Decoded::Done {
            consumed: 20,
            value: id
        }
    );
    assert_eq!(PeerId::decode(&bytes[..19]), torrent_poc::Decoded::Incomplete);
}
