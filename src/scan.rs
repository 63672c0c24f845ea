use vstd::prelude::*;
use vstd::slice::*;
use vstd::string::*;
use vstd::utf8::*;
use crate::mac::{Mac, is_mac_text, mac_octets};
use crate::response::{BgxResponse, utf8_string};
use crate::text::{split_lines, split_words, lines, words, lemma_words_in_bounds, lemma_lines_in_bounds};
use crate::response::ResponseView;

verus! {

/// The bytes of `s` in the span `(start, end)`.
pub open spec fn span_of(s: Seq<u8>, p: (int, int)) -> Seq<u8> {
    s.subrange(p.0, p.1)
}

/// The value of a run of decimal digits.
pub open spec fn decimal_value(d: Seq<u8>) -> int
    decreases d.len(),
{
    if d.len() == 0 {
        0
    } else {
        decimal_value(d.drop_last()) * 10 + (d.last() - 48)
    }
}

/// Every byte is an ASCII decimal digit.
pub open spec fn all_digits(d: Seq<u8>) -> bool {
    forall|i: int| 0 <= i < d.len() ==> 48 <= #[trigger] d[i] <= 57
}

/// The value of an `i8` written in decimal, with an optional sign, as `str::parse` reads it.
pub open spec fn i8_text(t: Seq<u8>) -> Option<int> {
    if t.len() == 0 {
        None
    } else {
        let signed = t[0] == 45 || t[0] == 43;
        let d = if signed {
            t.drop_first()
        } else {
            t
        };
        let v = if t[0] == 45 {
            -decimal_value(d)
        } else {
            decimal_value(d)
        };
        if d.len() == 0 || !all_digits(d) || v < -128 || v > 127 {
            None
        } else {
            Some(v)
        }
    }
}

/// Reads an `i8` written in decimal, with an optional sign.
pub fn parse_i8(t: &[u8]) -> (r: Option<i8>)
    ensures
        r is Some <==> i8_text(t@) is Some,
        r is Some ==> r->Some_0 as int == i8_text(t@)->Some_0,
{
    if t.len() == 0 {
        return None;
    }
    let neg = t[0] == 45;
    let start: usize = if t[0] == 45 || t[0] == 43 {
        1
    } else {
        0
    };
    let ghost d = t@.subrange(start as int, t@.len() as int);
    proof {
        if start == 1 {
            assert(d =~= t@.drop_first());
        } else {
            assert(d =~= t@);
        }
    }
    if start == t.len() {
        return None;
    }
    let mut acc: u32 = 0;
    let mut big = false;
    let mut k: usize = start;
    while k < t.len()
        invariant
            start <= k <= t@.len(),
            t@.len() > 0,
            neg == (t@[0] == 45),
            start == 0 || start == 1,
            start == 1 <==> (t@[0] == 45 || t@[0] == 43),
            d == t@.subrange(start as int, t@.len() as int),
            start == 1 ==> d == t@.drop_first(),
            start == 0 ==> d == t@,
            all_digits(t@.subrange(start as int, k as int)),
            big ==> decimal_value(t@.subrange(start as int, k as int)) > 200,
            !big ==> acc as int == decimal_value(t@.subrange(start as int, k as int)),
            !big ==> acc <= 200,
        decreases t@.len() - k,
    {
        let c = t[k];
        if c < 48 || c > 57 {
            assert(d[k - start] == c);
            assert(!all_digits(d));
            return None;
        }
        let ghost prev = t@.subrange(start as int, k as int);
        if !big {
            acc = acc * 10 + (c - 48) as u32;
            if acc > 200 {
                big = true;
            }
        }
        k = k + 1;
        assert(t@.subrange(start as int, k as int).drop_last() =~= prev);
    }
    if big {
        return None;
    }
    if neg {
        if acc > 128 {
            return None;
        }
        Some((0 - acc as i32) as i8)
    } else {
        if acc > 127 {
            return None;
        }
        Some(acc as i8)
    }
}

/// The mathematical value of a scanned device.
pub struct DeviceView {
    pub mac: Seq<u8>,
    pub friendly_name: Seq<char>,
    pub rssi: int,
}

/// A device that a scan found: its address, its advertised name and the signal
/// strength it was received with, in dBm.
#[derive(Debug, Clone, PartialEq, Eq)]
pub struct ScannedDevice {
    pub mac: Mac,
    pub friendly_name: String,
    pub rssi: i8,
}

impl View for ScannedDevice {
    type V = DeviceView;

    open spec fn view(&self) -> DeviceView {
        DeviceView { mac: self.mac.0@, friendly_name: self.friendly_name@, rssi: self.rssi as int }
    }
}

/// Why a row of the scan table could not be read.
#[derive(Debug, Clone, Copy, PartialEq, Eq)]
pub enum ScanError {
    /// Fewer than five words in the row.
    MissingField,
    /// The third word is not a signal strength.
    InvalidRssi,
    /// The fourth word is not an address.
    InvalidMac,
    /// The fifth word is not UTF-8.
    InvalidName,
    /// The reply carried no header, so it is no scan table.
    UnexpectedRaw,
}

/// The device that a row `#  <index>  <rssi> <address> <name>` of the scan table
/// describes: its third, fourth and fifth words.
pub open spec fn device_row(s: Seq<u8>) -> Option<DeviceView> {
    let w = words(s);
    if w.len() < 5 {
        None
    } else {
        let rssi = i8_text(span_of(s, w[2]));
        let mac = span_of(s, w[3]);
        let name = span_of(s, w[4]);
        if rssi is None || !is_mac_text(mac) || !valid_utf8(name) {
            None
        } else {
            Some(
                DeviceView {
                    mac: mac_octets(mac),
                    friendly_name: decode_utf8(name),
                    rssi: rssi->Some_0,
                },
            )
        }
    }
}

impl ScannedDevice {
    /// Reads a row of the scan table, `#  1  -47 d0:cf:5e:82:85:06 LOR-8090`.
    pub fn from_str(s: &str) -> (r: Result<ScannedDevice, ScanError>)
        ensures
            r is Ok <==> device_row(s.spec_bytes()) is Some,
            r is Ok ==> device_row(s.spec_bytes()) == Some(r->Ok_0@),
    {
        ScannedDevice::from_bytes(s.as_bytes())
    }

    /// Reads a row of the scan table from its bytes.
    pub fn from_bytes(s: &[u8]) -> (r: Result<ScannedDevice, ScanError>)
        ensures
            r is Ok <==> device_row(s@) is Some,
            r is Ok ==> device_row(s@) == Some(r->Ok_0@),
    {
        let w = split_words(s);
        if w.len() < 5 {
            return Err(ScanError::MissingField);
        }
        proof {
            assert(w@[2].0 as int == words(s@)[2].0 && w@[2].1 as int == words(s@)[2].1);
            assert(w@[3].0 as int == words(s@)[3].0 && w@[3].1 as int == words(s@)[3].1);
            assert(w@[4].0 as int == words(s@)[4].0 && w@[4].1 as int == words(s@)[4].1);
            lemma_words_in_bounds(s@);
        }
        let rssi = match parse_i8(slice_subrange(s, w[2].0, w[2].1)) {
            Some(v) => v,
            None => {
                return Err(ScanError::InvalidRssi);
            },
        };
        let mac = match Mac::parse_bytes(slice_subrange(s, w[3].0, w[3].1)) {
            Ok(m) => m,
            Err(_) => {
                return Err(ScanError::InvalidMac);
            },
        };
        let friendly_name = match utf8_string(slice_subrange(s, w[4].0, w[4].1)) {
            Some(n) => n,
            None => {
                return Err(ScanError::InvalidName);
            },
        };
        Ok(ScannedDevice { mac, friendly_name, rssi })
    }
}

/// The devices that the rows `ls` of `s` describe, in order; rows that do not
/// read as a device are left out.
pub open spec fn devices_in(s: Seq<u8>, ls: Seq<(int, int)>) -> Seq<DeviceView>
    decreases ls.len(),
{
    if ls.len() == 0 {
        Seq::empty()
    } else {
        let prev = devices_in(s, ls.drop_last());
        match device_row(span_of(s, ls.last())) {
            Some(d) => prev.push(d),
            None => prev,
        }
    }
}

/// The devices of a scan table: each row after the title row that reads as a device.
pub open spec fn scan_table(s: Seq<u8>) -> Seq<DeviceView> {
    let ls = lines(s);
    if ls.len() == 0 {
        Seq::empty()
    } else {
        devices_in(s, ls.drop_first())
    }
}

/// The devices that a scan found, in the order the module listed them.
#[derive(Debug, Clone, PartialEq, Eq)]
pub struct ScanResult(pub Vec<ScannedDevice>);

impl View for ScanResult {
    type V = Seq<DeviceView>;

    open spec fn view(&self) -> Seq<DeviceView> {
        self.0@.map_values(|d: ScannedDevice| d@)
    }
}

impl ScanResult {
    /// Reads the body of the reply to `scan results`.
    pub fn from_table(body: &[u8]) -> (r: ScanResult)
        ensures
            r@ == scan_table(body@),
    {
        let ls = split_lines(body);
        let mut out: Vec<ScannedDevice> = Vec::new();
        if ls.len() == 0 {
            return ScanResult(out);
        }
        let ghost all = lines(body@);
        proof {
            lemma_lines_in_bounds(body@);
        }
        let mut k: usize = 1;
        while k < ls.len()
            invariant
                1 <= k <= ls@.len(),
                ls@.len() == all.len(),
                all == lines(body@),
                forall|j: int|
                    0 <= j < ls@.len() ==> (ls@[j].0 as int, ls@[j].1 as int) == #[trigger] all[j],
                forall|j: int| 0 <= j < all.len() ==> 0 <= (#[trigger] all[j]).0 <= all[j].1 <= body@.len(),
                out@.map_values(|d: ScannedDevice| d@) == devices_in(body@, all.subrange(1, k as int)),
            decreases ls@.len() - k,
        {
            let (a, b) = ls[k];
            assert((a as int, b as int) == all[k as int]);
            let ghost prev = out@;
            match ScannedDevice::from_bytes(slice_subrange(body, a, b)) {
                Ok(d) => {
                    out.push(d);
                    assert(out@.map_values(|d: ScannedDevice| d@) =~= prev.map_values(
                        |d: ScannedDevice| d@,
                    ).push(d@));
                },
                Err(_) => {},
            }
            k = k + 1;
            assert(all.subrange(1, k as int).drop_last() =~= all.subrange(1, k - 1));
        }
        assert(all.subrange(1, ls@.len() as int) =~= all.drop_first());
        ScanResult(out)
    }

    /// Reads the devices from the reply to `scan results`; a reply without a
    /// header is no scan table.
    pub fn try_from(value: BgxResponse) -> (r: Result<ScanResult, ScanError>)
        ensures
            match value@ {
                ResponseView::Framed(_, b) => r is Ok && r->Ok_0@ == scan_table(encode_utf8(b)),
                ResponseView::Raw(_) => r == Err::<ScanResult, ScanError>(ScanError::UnexpectedRaw),
            },
    {
        match value {
            BgxResponse::DataWithHeader(_, s) => Ok(ScanResult::from_table(s.as_str().as_bytes())),
            BgxResponse::DataWithoutHeader(_) => Err(ScanError::UnexpectedRaw),
        }
    }
}

} // verus!
