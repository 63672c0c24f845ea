use vstd::prelude::*;
use vstd::slice::*;
use vstd::string::*;
use vstd::utf8::*;
use crate::mac::{COLON, without_colons};
use crate::response::utf8_string;
use crate::scan::{ScanError, i8_text, parse_i8, span_of};
use crate::text::{split_words, words, lemma_words_in_bounds};

verus! {

/// The mathematical value of a scan row.
pub struct RowView {
    pub mac: Seq<char>,
    pub friendly_name: Seq<char>,
    pub rssi: int,
}

/// A row of the scan table with the address kept as text, its colons taken out.
#[derive(Debug, Clone, PartialEq, Eq)]
pub struct ScanResult {
    pub mac: String,
    pub friendly_name: String,
    pub rssi: i8,
}

impl View for ScanResult {
    type V = RowView;

    open spec fn view(&self) -> RowView {
        RowView { mac: self.mac@, friendly_name: self.friendly_name@, rssi: self.rssi as int }
    }
}

/// The row `#  <index>  <rssi> <address> <name>`, read from its third, fourth and
/// fifth words; the address is kept as written, less its colons.
pub open spec fn scan_row(s: Seq<u8>) -> Option<RowView> {
    let w = words(s);
    if w.len() < 5 {
        None
    } else {
        let rssi = i8_text(span_of(s, w[2]));
        let mac = without_colons(span_of(s, w[3]));
        let name = span_of(s, w[4]);
        if rssi is None || !valid_utf8(mac) || !valid_utf8(name) {
            None
        } else {
            Some(
                RowView {
                    mac: decode_utf8(mac),
                    friendly_name: decode_utf8(name),
                    rssi: rssi->Some_0,
                },
            )
        }
    }
}

fn strip_colons(t: &[u8]) -> (r: Vec<u8>)
    ensures
        r@ == without_colons(t@),
{
    let mut out: Vec<u8> = Vec::new();
    let mut i: usize = 0;
    while i < t.len()
        invariant
            0 <= i <= t@.len(),
            out@ == without_colons(t@.subrange(0, i as int)),
        decreases t@.len() - i,
    {
        if t[i] != COLON {
            out.push(t[i]);
        }
        i = i + 1;
        assert(t@.subrange(0, i as int).drop_last() =~= t@.subrange(0, i - 1));
    }
    assert(t@.subrange(0, t@.len() as int) =~= t@);
    out
}

impl ScanResult {
    /// Reads a row of the scan table, `#  1  -47 d0:cf:5e:82:85:06 LOR-8090`.
    pub fn from_str(s: &str) -> (r: Result<ScanResult, ScanError>)
        ensures
            r is Ok <==> scan_row(s.spec_bytes()) is Some,
            r is Ok ==> scan_row(s.spec_bytes()) == Some(r->Ok_0@),
    {
        let b = s.as_bytes();
        let w = split_words(b);
        if w.len() < 5 {
            return Err(ScanError::MissingField);
        }
        proof {
            lemma_words_in_bounds(b@);
            assert(w@[2].0 as int == words(b@)[2].0 && w@[2].1 as int == words(b@)[2].1);
            assert(w@[3].0 as int == words(b@)[3].0 && w@[3].1 as int == words(b@)[3].1);
            assert(w@[4].0 as int == words(b@)[4].0 && w@[4].1 as int == words(b@)[4].1);
        }
        let rssi = match parse_i8(slice_subrange(b, w[2].0, w[2].1)) {
            Some(v) => v,
            None => {
                return Err(ScanError::InvalidRssi);
            },
        };
        let digits = strip_colons(slice_subrange(b, w[3].0, w[3].1));
        let mac = match utf8_string(digits.as_slice()) {
            Some(m) => m,
            None => {
                return Err(ScanError::InvalidMac);
            },
        };
        let friendly_name = match utf8_string(slice_subrange(b, w[4].0, w[4].1)) {
            Some(n) => n,
            None => {
                return Err(ScanError::InvalidName);
            },
        };
        Ok(ScanResult { mac, friendly_name, rssi })
    }
}

} // verus!
