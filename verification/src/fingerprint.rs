//! Fingerprints: fixed 32-byte content hashes, and their lowercase hexadecimal form.

use vstd::prelude::*;
use vstd::std_specs::cmp::PartialEqSpecImpl;
use vstd::string::StrSliceExecFns;
use vstd::string::StringExecFns;

verus! {

/// The number of bytes in a fingerprint.
pub const FINGERPRINT_SIZE: usize = 32;

/// The lowercase hexadecimal digit for a value below 16.
pub open spec fn hex_digit(n: int) -> char {
    if 0 <= n < 10 {
        (('0' as u8) + n) as u8 as char
    } else {
        (('a' as u8) + n - 10) as u8 as char
    }
}

/// The value of a hexadecimal digit, in either case; `None` for any other character.
pub open spec fn hex_value(c: char) -> Option<int> {
    if '0' <= c <= '9' {
        Some(c as int - '0' as int)
    } else if 'a' <= c <= 'f' {
        Some(c as int - 'a' as int + 10)
    } else if 'A' <= c <= 'F' {
        Some(c as int - 'A' as int + 10)
    } else {
        None
    }
}

/// The value of the digit for `n` is `n`.
pub proof fn lemma_hex_digit_value(n: int)
    requires
        0 <= n < 16,
    ensures
        hex_value(hex_digit(n)) == Some(n),
{
}

/// The lowercase hexadecimal digit for a value below 16, as a string of one character.
fn hex_digit_str(n: u8) -> (s: &'static str)
    requires
        n < 16,
    ensures
        s@ == seq![hex_digit(n as int)],
{
    proof {
        reveal_strlit("0");
        reveal_strlit("1");
        reveal_strlit("2");
        reveal_strlit("3");
        reveal_strlit("4");
        reveal_strlit("5");
        reveal_strlit("6");
        reveal_strlit("7");
        reveal_strlit("8");
        reveal_strlit("9");
        reveal_strlit("a");
        reveal_strlit("b");
        reveal_strlit("c");
        reveal_strlit("d");
        reveal_strlit("e");
        reveal_strlit("f");
    }
    let s = match n {
        0 => "0",
        1 => "1",
        2 => "2",
        3 => "3",
        4 => "4",
        5 => "5",
        6 => "6",
        7 => "7",
        8 => "8",
        9 => "9",
        10 => "a",
        11 => "b",
        12 => "c",
        13 => "d",
        14 => "e",
        _ => "f",
    };
    assert(s@ =~= seq![hex_digit(n as int)]);
    s
}

/// The value of a hexadecimal digit, in either case; `None` for any other character.
fn hex_digit_value(c: char) -> (r: Option<u8>)
    ensures
        r is Some <==> hex_value(c) is Some,
        r matches Some(v) ==> hex_value(c) == Some(v as int) && v < 16,
{
    if '0' <= c && c <= '9' {
        Some((c as u8) - ('0' as u8))
    } else if 'a' <= c && c <= 'f' {
        Some((c as u8) - ('a' as u8) + 10)
    } else if 'A' <= c && c <= 'F' {
        Some((c as u8) - ('A' as u8) + 10)
    } else {
        None
    }
}

/// The value of the hexadecimal digit that the ASCII code `code` stands for.
fn ascii_digit_value(code: u8, Ghost(c): Ghost<char>) -> (r: Option<u8>)
    requires
        c as int == code as int,
    ensures
        r is Some <==> hex_value(c) is Some,
        r matches Some(v) ==> hex_value(c) == Some(v as int) && v < 16,
{
    if ('0' as u8) <= code && code <= ('9' as u8) {
        Some(code - ('0' as u8))
    } else if ('a' as u8) <= code && code <= ('f' as u8) {
        Some(code - ('a' as u8) + 10)
    } else if ('A' as u8) <= code && code <= ('F' as u8) {
        Some(code - ('A' as u8) + 10)
    } else {
        None
    }
}

/// The lowercase hexadecimal form of a byte string: two digits per byte, high nibble first.
pub open spec fn hex_encode(bytes: Seq<u8>) -> Seq<char> {
    Seq::new(
        2 * bytes.len(),
        |i: int|
            if i % 2 == 0 {
                hex_digit(bytes[i / 2] as int / 16)
            } else {
                hex_digit(bytes[i / 2] as int % 16)
            },
    )
}

/// Whether every character of `s` is a hexadecimal digit.
pub open spec fn is_hex_string(s: Seq<char>) -> bool {
    forall|i: int| 0 <= i < s.len() ==> (#[trigger] hex_value(s[i])) is Some
}

/// The bytes that a string of hexadecimal digits stands for: each pair of digits gives one
/// byte, high nibble first.
pub open spec fn hex_decode(s: Seq<char>) -> Seq<u8> {
    Seq::new(
        (s.len() / 2) as nat,
        |i: int| (hex_value(s[2 * i]).unwrap() * 16 + hex_value(s[2 * i + 1]).unwrap()) as u8,
    )
}

/// Whether `s` is the hexadecimal form of some fingerprint: 64 hexadecimal digits.
pub open spec fn is_fingerprint_hex(s: Seq<char>) -> bool {
    s.len() == 64 && is_hex_string(s)
}

/// Decoding the hexadecimal form of a byte string gives the byte string back, and the form
/// consists of two lowercase hexadecimal digits per byte.
pub proof fn lemma_hex_round_trip(bytes: Seq<u8>)
    ensures
        hex_encode(bytes).len() == 2 * bytes.len(),
        is_hex_string(hex_encode(bytes)),
        hex_decode(hex_encode(bytes)) == bytes,
        forall|i: int|
            0 <= i < hex_encode(bytes).len() ==> {
                let c = #[trigger] hex_encode(bytes)[i];
                '0' <= c <= '9' || 'a' <= c <= 'f'
            },
{
    let hex = hex_encode(bytes);
    assert forall|i: int| 0 <= i < hex.len() implies (#[trigger] hex_value(hex[i])) is Some by {
        let byte = bytes[i / 2] as int;
        lemma_hex_digit_value(byte / 16);
        lemma_hex_digit_value(byte % 16);
    }
    assert forall|k: int| 0 <= k < bytes.len() implies hex_decode(hex)[k] == bytes[k] by {
        let byte = bytes[k] as int;
        lemma_hex_digit_value(byte / 16);
        lemma_hex_digit_value(byte % 16);
        assert(hex[2 * k] == hex_digit(byte / 16));
        assert(hex[2 * k + 1] == hex_digit(byte % 16));
    }
    assert(hex_decode(hex) =~= bytes);
}

/// Different byte strings have different hexadecimal forms.
pub proof fn lemma_hex_encode_injective(a: Seq<u8>, b: Seq<u8>)
    requires
        hex_encode(a) == hex_encode(b),
    ensures
        a == b,
{
    lemma_hex_round_trip(a);
    lemma_hex_round_trip(b);
}

/// Why a string is not the hexadecimal form of a fingerprint.
#[derive(Clone, Copy, Debug, PartialEq, Eq, Structural)]
pub enum FingerprintParseError {
    /// The string does not have exactly 64 characters; `length` is the number it has.
    WrongLength { length: usize },
    /// The character at `index` is the first that is not a hexadecimal digit.
    InvalidCharacter { index: usize },
}

/// Whether `error` says what is wrong with `hex` as the hexadecimal form of a fingerprint:
/// a wrong length first, else the first character that is no hexadecimal digit.
pub open spec fn is_parse_error(hex: Seq<char>, error: FingerprintParseError) -> bool {
    match error {
        FingerprintParseError::WrongLength { length } => hex.len() != 64 && length == hex.len(),
        FingerprintParseError::InvalidCharacter { index } => {
            &&& hex.len() == 64
            &&& index < 64
            &&& hex_value(hex[index as int]) is None
            &&& forall|j: int| 0 <= j < index ==> (#[trigger] hex_value(hex[j])) is Some
        },
    }
}

/// A 32-byte content hash.
#[derive(Clone, Copy, Debug, Eq, Hash)]
pub struct Fingerprint(pub [u8; FINGERPRINT_SIZE]);

impl View for Fingerprint {
    type V = Seq<u8>;

    open spec fn view(&self) -> Seq<u8> {
        self.0@
    }
}

impl PartialEq for Fingerprint {
    fn eq(&self, other: &Fingerprint) -> (r: bool) {
        let mut i: usize = 0;
        while i < 32
            invariant
                i <= 32,
                forall|j: int| 0 <= j < i ==> self.0[j] == other.0[j],
            decreases 32 - i,
        {
            if self.0[i] != other.0[i] {
                return false;
            }
            i += 1;
        }
        assert(self.0 =~= other.0);
        true
    }
}

impl PartialEqSpecImpl for Fingerprint {
    open spec fn obeys_eq_spec() -> bool {
        true
    }

    open spec fn eq_spec(&self, other: &Fingerprint) -> bool {
        *self == *other
    }
}

impl Fingerprint {
    /// A fingerprint is the same as another exactly when their bytes are the same.
    pub proof fn lemma_view_injective(a: Fingerprint, b: Fingerprint)
        ensures
            a@.len() == 32,
            a@ == b@ <==> a == b,
    {
        if a@ == b@ {
            assert(a.0 =~= b.0);
        }
    }

    /// The fingerprint that consists of the given bytes.
    pub fn from_bytes(bytes: [u8; 32]) -> (fingerprint: Fingerprint)
        ensures
            fingerprint@ == bytes@,
    {
        Fingerprint(bytes)
    }

    /// The bytes of the fingerprint.
    pub fn as_bytes(&self) -> (bytes: &[u8; 32])
        ensures
            bytes@ == self@,
    {
        &self.0
    }

    /// The fingerprint as 64 lowercase hexadecimal digits.
    pub fn to_hex(&self) -> (hex: String)
        ensures
            hex@ == hex_encode(self@),
    {
        let mut hex = String::new();
        let mut i: usize = 0;
        while i < 32
            invariant
                i <= 32,
                hex@ == hex_encode(self@.take(i as int)),
            decreases 32 - i,
        {
            let byte: u8 = self.0[i];
            let ghost before = hex@;
            hex.append(hex_digit_str(byte / 16));
            hex.append(hex_digit_str(byte % 16));
            proof {
                let next = self@.take(i as int + 1);
                assert(hex@ =~= hex_encode(next)) by {
                    assert forall|k: int| 0 <= k < 2 * i implies hex_encode(next)[k]
                        == before[k] by {
                        assert(next[k / 2] == self@.take(i as int)[k / 2]);
                    }
                }
            }
            i += 1;
        }
        assert(self@.take(32) =~= self@);
        hex
    }

    /// The first two digits of the hexadecimal form: the name of the shard that holds the
    /// fingerprint.
    pub fn hex_prefix(&self) -> (prefix: String)
        ensures
            prefix@ == hex_encode(self@).take(2),
    {
        let byte: u8 = self.0[0];
        let mut prefix = String::new();
        prefix.append(hex_digit_str(byte / 16));
        prefix.append(hex_digit_str(byte % 16));
        assert(prefix@ =~= hex_encode(self@).take(2));
        prefix
    }

    /// Parses the hexadecimal form of a fingerprint. Digits of either case are accepted.
    pub fn from_hex_string(hex: &str) -> (parsed: Result<Fingerprint, FingerprintParseError>)
        ensures
            match parsed {
                Ok(fingerprint) => is_fingerprint_hex(hex@) && fingerprint@ == hex_decode(hex@),
                Err(error) => !is_fingerprint_hex(hex@) && is_parse_error(hex@, error),
            },
    {
        if hex.is_ascii() {
            Fingerprint::parse_ascii(hex)
        } else {
            Fingerprint::parse_chars(hex)
        }
    }

    /// Parses a string of ASCII characters, byte by byte.
    fn parse_ascii(hex: &str) -> (parsed: Result<Fingerprint, FingerprintParseError>)
        requires
            hex.is_ascii(),
        ensures
            match parsed {
                Ok(fingerprint) => is_fingerprint_hex(hex@) && fingerprint@ == hex_decode(hex@),
                Err(error) => !is_fingerprint_hex(hex@) && is_parse_error(hex@, error),
            },
    {
        let text: &[u8] = hex.as_bytes();
        let length: usize = text.len();
        proof {
            vstd::string::is_ascii_spec_bytes(hex);
            vstd::utf8::is_ascii_chars_nat_bound(hex@);
            assert(text@.len() == hex@.len());
            assert forall|j: int| 0 <= j < hex@.len() implies text@[j] as int == hex@[j] as int by {
                assert((hex@[j] as nat) < 128);
            }
        }
        if length != 64 {
            return Err(FingerprintParseError::WrongLength { length });
        }
        let mut bytes: [u8; 32] = [0u8; 32];
        let mut i: usize = 0;
        while i < 32
            invariant
                i <= 32,
                hex@.len() == 64,
                text@.len() == 64,
                forall|j: int| 0 <= j < 64 ==> text@[j] as int == hex@[j] as int,
                forall|j: int| 0 <= j < 2 * i ==> (#[trigger] hex_value(hex@[j])) is Some,
                forall|k: int| 0 <= k < i ==> bytes@[k] == hex_decode(hex@)[k],
            decreases 32 - i,
        {
            let high: u8 = match ascii_digit_value(text[2 * i], Ghost(hex@[2 * i])) {
                Some(v) => v,
                None => {
                    return Err(FingerprintParseError::InvalidCharacter { index: 2 * i });
                },
            };
            let low: u8 = match ascii_digit_value(text[2 * i + 1], Ghost(hex@[2 * i + 1])) {
                Some(v) => v,
                None => {
                    return Err(FingerprintParseError::InvalidCharacter { index: 2 * i + 1 });
                },
            };
            bytes[i] = high * 16 + low;
            i += 1;
        }
        assert(bytes@ =~= hex_decode(hex@));
        Ok(Fingerprint(bytes))
    }

    /// Parses a string that holds other characters than ASCII, character by character: it
    /// is no fingerprint, and the error says why.
    fn parse_chars(hex: &str) -> (parsed: Result<Fingerprint, FingerprintParseError>)
        ensures
            match parsed {
                Ok(fingerprint) => is_fingerprint_hex(hex@) && fingerprint@ == hex_decode(hex@),
                Err(error) => !is_fingerprint_hex(hex@) && is_parse_error(hex@, error),
            },
    {
        let length: usize = hex.unicode_len();
        if length != 64 {
            return Err(FingerprintParseError::WrongLength { length });
        }
        let mut bytes: [u8; 32] = [0u8; 32];
        let mut i: usize = 0;
        while i < 32
            invariant
                i <= 32,
                hex@.len() == 64,
                forall|j: int| 0 <= j < 2 * i ==> (#[trigger] hex_value(hex@[j])) is Some,
                forall|k: int| 0 <= k < i ==> bytes@[k] == hex_decode(hex@)[k],
            decreases 32 - i,
        {
            let high: u8 = match hex_digit_value(hex.get_char(2 * i)) {
                Some(v) => v,
                None => {
                    return Err(FingerprintParseError::InvalidCharacter { index: 2 * i });
                },
            };
            let low: u8 = match hex_digit_value(hex.get_char(2 * i + 1)) {
                Some(v) => v,
                None => {
                    return Err(FingerprintParseError::InvalidCharacter { index: 2 * i + 1 });
                },
            };
            bytes[i] = high * 16 + low;
            i += 1;
        }
        assert(bytes@ =~= hex_decode(hex@));
        Ok(Fingerprint(bytes))
    }
}

} // verus!
