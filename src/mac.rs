use vstd::prelude::*;
use vstd::string::*;

verus! {

/// The ASCII colon that may separate the octets of a written address.
pub const COLON: u8 = 58;

/// An ASCII hexadecimal digit, in either case.
pub open spec fn is_hex_digit(b: u8) -> bool {
    (48 <= b <= 57) || (97 <= b <= 102) || (65 <= b <= 70)
}

/// The value of a hexadecimal digit.
pub open spec fn hex_value(b: u8) -> int {
    if 48 <= b <= 57 {
        b - 48
    } else if 97 <= b <= 102 {
        b - 87
    } else {
        b - 55
    }
}

/// The lower-case hexadecimal digit for a value below 16.
pub open spec fn hex_char(v: int) -> u8 {
    if v < 10 {
        (48 + v) as u8
    } else {
        (87 + v) as u8
    }
}

/// ASCII lower-casing of one byte.
pub open spec fn ascii_lower(b: u8) -> u8 {
    if 65 <= b <= 90 {
        (b + 32) as u8
    } else {
        b
    }
}

/// ASCII lower-casing of a byte string.
pub open spec fn lowercase(s: Seq<u8>) -> Seq<u8> {
    Seq::new(s.len(), |i: int| ascii_lower(s[i]))
}

/// The text with every colon taken out.
pub open spec fn without_colons(s: Seq<u8>) -> Seq<u8>
    decreases s.len(),
{
    if s.len() == 0 {
        Seq::empty()
    } else if s.last() == COLON {
        without_colons(s.drop_last())
    } else {
        without_colons(s.drop_last()).push(s.last())
    }
}

/// Text that names an address: twelve hexadecimal digits once the colons are gone.
pub open spec fn is_mac_text(s: Seq<u8>) -> bool {
    let d = without_colons(s);
    d.len() == 12 && forall|i: int| 0 <= i < 12 ==> is_hex_digit(#[trigger] d[i])
}

/// Octet `i` of a run of hexadecimal digits, most significant digit first.
pub open spec fn octet_of(d: Seq<u8>, i: int) -> u8 {
    (hex_value(d[2 * i]) * 16 + hex_value(d[2 * i + 1])) as u8
}

/// The six octets that address text names.
pub open spec fn mac_octets(s: Seq<u8>) -> Seq<u8> {
    Seq::new(6, |i: int| octet_of(without_colons(s), i))
}

/// The canonical text of six octets: twelve lower-case hexadecimal digits, no separators.
pub open spec fn mac_text(b: Seq<u8>) -> Seq<u8> {
    Seq::new(
        12,
        |i: int|
            if i % 2 == 0 {
                hex_char(b[i / 2] as int / 16)
            } else {
                hex_char(b[i / 2] as int % 16)
            },
    )
}

/// Why address text was refused.
#[derive(Debug, Clone, Copy, PartialEq, Eq)]
pub enum MacError {
    /// Not twelve digits once the colons are taken out.
    WrongLength,
    /// Twelve characters, but not all of them hexadecimal digits.
    InvalidDigit,
}

/// A 48-bit Bluetooth device address.
#[derive(Debug, Clone, Copy, PartialEq, Eq)]
pub struct Mac(pub [u8; 6]);

fn hex_value_of(b: u8) -> (r: u8)
    requires
        is_hex_digit(b),
    ensures
        r as int == hex_value(b),
        r < 16,
{
    if 48 <= b && b <= 57 {
        b - 48
    } else if 97 <= b && b <= 102 {
        b - 87
    } else {
        b - 55
    }
}

fn hex_char_of(v: u8) -> (r: u8)
    requires
        v < 16,
    ensures
        r == hex_char(v as int),
{
    if v < 10 {
        48 + v
    } else {
        87 + v
    }
}

fn octet_at(d: &Vec<u8>, i: usize) -> (r: u8)
    requires
        i < 6,
        d@.len() == 12,
        forall|k: int| 0 <= k < 12 ==> is_hex_digit(#[trigger] d@[k]),
    ensures
        r == octet_of(d@, i as int),
{
    let hi = hex_value_of(d[2 * i]);
    let lo = hex_value_of(d[2 * i + 1]);
    hi * 16 + lo
}

impl Mac {
    /// Reads an address written as twelve hexadecimal digits in either case,
    /// with or without colons between the octets (`d0:cf:5e:82:85:06`).
    pub fn parse(s: &str) -> (r: Result<Mac, MacError>)
        ensures
            r is Ok <==> is_mac_text(s.spec_bytes()),
            r is Ok ==> r->Ok_0.0@ == mac_octets(s.spec_bytes()),
            r == Err::<Mac, MacError>(MacError::WrongLength) <==> without_colons(
                s.spec_bytes(),
            ).len() != 12,
    {
        Mac::parse_bytes(s.as_bytes())
    }

    /// Reads an address from its text as bytes; see [`Mac::parse`].
    pub fn parse_bytes(bytes: &[u8]) -> (r: Result<Mac, MacError>)
        ensures
            r is Ok <==> is_mac_text(bytes@),
            r is Ok ==> r->Ok_0.0@ == mac_octets(bytes@),
            r == Err::<Mac, MacError>(MacError::WrongLength) <==> without_colons(bytes@).len()
                != 12,
    {
        let mut digits: Vec<u8> = Vec::new();
        let mut i: usize = 0;
        while i < bytes.len()
            invariant
                0 <= i <= bytes@.len(),
                digits@ == without_colons(bytes@.subrange(0, i as int)),
            decreases bytes@.len() - i,
        {
            let b = bytes[i];
            if b != COLON {
                digits.push(b);
            }
            i = i + 1;
            assert(bytes@.subrange(0, i as int).drop_last() =~= bytes@.subrange(0, i - 1));
        }
        assert(bytes@.subrange(0, bytes@.len() as int) =~= bytes@);
        if digits.len() != 12 {
            return Err(MacError::WrongLength);
        }
        let mut k: usize = 0;
        while k < 12
            invariant
                0 <= k <= 12,
                digits@.len() == 12,
                digits@ == without_colons(bytes@),
                forall|j: int| 0 <= j < k ==> is_hex_digit(#[trigger] digits@[j]),
            decreases 12 - k,
        {
            let c = digits[k];
            if !((48 <= c && c <= 57) || (97 <= c && c <= 102) || (65 <= c && c <= 70)) {
                assert(!is_hex_digit(digits@[k as int]));
                return Err(MacError::InvalidDigit);
            }
            k = k + 1;
        }
        let mac = Mac(
            [
                octet_at(&digits, 0),
                octet_at(&digits, 1),
                octet_at(&digits, 2),
                octet_at(&digits, 3),
                octet_at(&digits, 4),
                octet_at(&digits, 5),
            ],
        );
        assert(mac.0@ =~= mac_octets(bytes@));
        Ok(mac)
    }

    /// The canonical text of the address: twelve lower-case hexadecimal digits.
    pub fn to_hex(&self) -> (r: Vec<u8>)
        ensures
            r@ == mac_text(self.0@),
    {
        let mut out: Vec<u8> = Vec::new();
        let mut k: usize = 0;
        while k < 6
            invariant
                0 <= k <= 6,
                self.0@.len() == 6,
                out@ =~= mac_text(self.0@).subrange(0, 2 * k as int),
            decreases 6 - k,
        {
            let b = self.0[k];
            let hi = hex_char_of(b / 16);
            let lo = hex_char_of(b % 16);
            out.push(hi);
            out.push(lo);
            k = k + 1;
        }
        out
    }
}

proof fn lemma_colon_free(s: Seq<u8>)
    requires
        forall|i: int| 0 <= i < s.len() ==> s[i] != COLON,
    ensures
        without_colons(s) == s,
    decreases s.len(),
{
    if s.len() > 0 {
        lemma_colon_free(s.drop_last());
        assert(s.drop_last().push(s.last()) =~= s);
    }
}

proof fn lemma_hex_char(v: int)
    requires
        0 <= v < 16,
    ensures
        is_hex_digit(hex_char(v)),
        hex_value(hex_char(v)) == v,
        hex_char(v) != COLON,
{
}

proof fn lemma_hex_digit_lower(c: u8)
    requires
        is_hex_digit(c),
    ensures
        0 <= hex_value(c) < 16,
        hex_char(hex_value(c)) == ascii_lower(c),
{
}

/// Formatting six octets and reading the text back gives the same six octets.
pub proof fn lemma_mac_text_round_trip(b: Seq<u8>)
    requires
        b.len() == 6,
    ensures
        is_mac_text(mac_text(b)),
        mac_octets(mac_text(b)) == b,
{
    let t = mac_text(b);
    assert forall|i: int| 0 <= i < 12 implies is_hex_digit(#[trigger] t[i]) && t[i] != COLON by {
        lemma_hex_char(b[i / 2] as int / 16);
        lemma_hex_char(b[i / 2] as int % 16);
    }
    lemma_colon_free(t);
    assert forall|i: int| 0 <= i < 6 implies #[trigger] octet_of(t, i) == b[i] by {
        assert((2 * i) / 2 == i);
        assert((2 * i + 1) / 2 == i);
        assert((2 * i) % 2 == 0);
        assert((2 * i + 1) % 2 == 1);
        lemma_hex_char(b[i] as int / 16);
        lemma_hex_char(b[i] as int % 16);
    }
    assert(mac_octets(t) =~= b);
}

/// Reading accepted address text and formatting the octets gives the text
/// without its colons, in lower case.
pub proof fn lemma_mac_text_normalises(s: Seq<u8>)
    requires
        is_mac_text(s),
    ensures
        mac_text(mac_octets(s)) == lowercase(without_colons(s)),
{
    let d = without_colons(s);
    let o = mac_octets(s);
    assert forall|i: int| 0 <= i < 12 implies #[trigger] mac_text(o)[i] == lowercase(d)[i] by {
        let k = i / 2;
        assert(0 <= k < 6);
        assert(2 * k == i || 2 * k + 1 == i);
        lemma_hex_digit_lower(d[2 * k]);
        lemma_hex_digit_lower(d[2 * k + 1]);
        let hi = hex_value(d[2 * k]);
        let lo = hex_value(d[2 * k + 1]);
        assert(o[k] as int == hi * 16 + lo);
        assert((hi * 16 + lo) / 16 == hi);
        assert((hi * 16 + lo) % 16 == lo);
    }
    assert(mac_text(o) =~= lowercase(d));
}

impl core::str::FromStr for Mac {
    type Err = MacError;

    fn from_str(s: &str) -> Result<Mac, MacError> {
        Mac::parse(s)
    }
}

} // verus!
