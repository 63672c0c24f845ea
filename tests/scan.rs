use std::str::FromStr;

use bgx13p::mac::Mac;
use bgx13p::response::{BgxResponse, ResponseCodes, ResponseHeader};
use bgx13p::scan::{parse_i8, ScanError, ScanResult, ScannedDevice};
use bgx13p::scan_result::ScanResult as ScanRow;
use bgx13p::text::split_words;

#[test]
fn scan_result_1() {
    let resp: BgxResponse = BgxResponse::DataWithHeader(
        ResponseHeader {
            response_code: ResponseCodes::Success,
            data_length: 123,
        },
        "!  # RSSI BD_ADDR           Device Name\r\n#  1  -47 d0:cf:5e:82:85:06 LOR-8090\r\n#  2  -52 00:0d:6f:a7:a1:54 LOR-8090\r\n".to_string(),
    );
    let res_test: ScanResult = ScanResult::try_from(resp).unwrap();

    let res_made = ScanResult(vec![
        ScannedDevice {
            mac: "d0cf5e828506".parse().unwrap(),
            friendly_name: "LOR-8090".to_string(),
            rssi: -47,
        },
        ScannedDevice {
            mac: "000d6fa7a154".parse().unwrap(),
            friendly_name: "LOR-8090".to_string(),
            rssi: -52,
        },
    ]);

    assert_eq!(res_test, res_made);
}

#[test]
fn test_scan_result_1() {
    const SCAN_RESULT: &str = "R000117\r\n!  # RSSI BD_ADDR           Device Name\r\n#  1  -47 d0:cf:5e:82:85:06 LOR-8090\r\n#  2  -52 00:0d:6f:a7:a1:54 LOR-8090\r\n";
    let lines = SCAN_RESULT.lines().skip(2);

    let res1 = lines
        .map(|f| ScanRow::from_str(f).unwrap())
        .collect::<Vec<_>>();
    let res2 = vec![
        ScanRow {
            mac: "d0cf5e828506".to_string(),
            friendly_name: "LOR-8090".to_string(),
            rssi: -47,
        },
        ScanRow {
            mac: "000d6fa7a154".to_string(),
            friendly_name: "LOR-8090".to_string(),
            rssi: -52,
        },
    ];

    assert_eq!(res1, res2);
}

#[test]
fn test_scan_result_2() {
    const SCAN_RESULT: &str = "#  1  -47 d0:cf:5e:82:85:06 LOR-8090";

    let res1 = ScanRow::from_str(SCAN_RESULT).unwrap();
    let res2 = ScanRow {
        mac: "d0cf5e828506".to_string(),
        friendly_name: "LOR-8090".to_string(),
        rssi: -47,
    };

    assert_eq!(res1, res2);
}

#[test]
fn scanned_device_1() {
    const SCAN_RESULT: &str = "#  1  -47 d0:cf:5e:82:85:06 LOR-8090";

    let res1 = ScannedDevice::from_str(SCAN_RESULT).unwrap();
    let res2 = ScannedDevice {
        mac: "d0cf5e828506".parse().unwrap(),
        friendly_name: "LOR-8090".to_string(),
        rssi: -47,
    };

    assert_eq!(res1, res2);
}

#[test]
fn scan_table_two_devices_in_order() {
    let body = b"!  # RSSI BD_ADDR  Device Name\r\n#  1  -47 d0:cf:5e:82:85:06 LOR-8090\r\n#  2  -52 00:0d:6f:a7:a1:54 LOR-8090\r\n";
    let r = ScanResult::from_table(body);
    assert_eq!(r.0.len(), 2);
    assert_eq!(r.0[0].mac, Mac([0xd0, 0xcf, 0x5e, 0x82, 0x85, 0x06]));
    assert_eq!(r.0[0].rssi, -47);
    assert_eq!(r.0[0].friendly_name, "LOR-8090");
    assert_eq!(r.0[1].mac, Mac([0x00, 0x0d, 0x6f, 0xa7, 0xa1, 0x54]));
    assert_eq!(r.0[1].rssi, -52);
}

#[test]
fn scan_table_skips_bad_rows() {
    let body = b"!  # RSSI BD_ADDR  Device Name\r\n\r\n#  1  -147 d0:cf:5e:82:85:06 A\r\n#  2  -52 00:0d:6f:a7:a1 B\r\n#  3  -60 00:0d:6f:a7:a1:55\r\n#  4  -61 00:0d:6f:a7:a1:56 C";
    let r = ScanResult::from_table(body);
    assert_eq!(r.0.len(), 1);
    assert_eq!(r.0[0].friendly_name, "C");
    assert_eq!(r.0[0].rssi, -61);
    assert_eq!(ScanResult::from_table(b"").0.len(), 0);
    assert_eq!(ScanResult::from_table(b"!  # RSSI BD_ADDR  Device Name\r\n").0.len(), 0);
}

#[test]
fn scan_of_raw_reply_is_refused() {
    let r = ScanResult::try_from(BgxResponse::DataWithoutHeader(b"Ready".to_vec()));
    assert_eq!(r, Err(ScanError::UnexpectedRaw));
}

#[test]
fn scanned_device_errors() {
    assert_eq!(
        ScannedDevice::from_str("#  1  -47 d0:cf:5e:82:85:06"),
        Err(ScanError::MissingField)
    );
    assert_eq!(
        ScannedDevice::from_str("#  1  x47 d0:cf:5e:82:85:06 N"),
        Err(ScanError::InvalidRssi)
    );
    assert_eq!(
        ScannedDevice::from_str("#  1  -47 d0:cf:5e:82:85 N"),
        Err(ScanError::InvalidMac)
    );
    assert_eq!(
        ScannedDevice::from_bytes(b"#  1  -47 d0:cf:5e:82:85:06 \xff"),
        Err(ScanError::InvalidName)
    );
}

#[test]
fn signal_strength_reading() {
    assert_eq!(parse_i8(b"-47"), Some(-47));
    assert_eq!(parse_i8(b"+12"), Some(12));
    assert_eq!(parse_i8(b"-128"), Some(-128));
    assert_eq!(parse_i8(b"127"), Some(127));
    assert_eq!(parse_i8(b"-0000047"), Some(-47));
    assert_eq!(parse_i8(b"128"), None);
    assert_eq!(parse_i8(b"-129"), None);
    assert_eq!(parse_i8(b"-"), None);
    assert_eq!(parse_i8(b""), None);
    assert_eq!(parse_i8(b"1a"), None);
    assert_eq!(parse_i8(b"99999999999"), None);
}

#[test]
fn rows_split_at_unicode_white_space() {
    let row = "a b 1 000000000000 x\u{a0}y";
    let d = ScannedDevice::from_str(row).unwrap();
    assert_eq!(d.friendly_name, "x");
    assert_eq!(d.rssi, 1);
    let row = "#\u{3000}1\u{2009}-47\u{85}d0:cf:5e:82:85:06\u{1680}LOR-8090\u{205f}rest";
    let d = ScannedDevice::from_str(row).unwrap();
    assert_eq!(d.rssi, -47);
    assert_eq!(d.friendly_name, "LOR-8090");
    let r = ScanRow::from_str("#  1  -47 d0:cf:5e:82:85:06 N\u{2028}x").unwrap();
    assert_eq!(r.friendly_name, "N");
}

#[test]
fn word_spans_match_split_whitespace() {
    let samples = [
        "",
        "   ",
        "a",
        " a  b\tc\r\nd ",
        "x\u{a0}y\u{2000}z\u{200a}w\u{2029}v\u{202f}u\u{3000}t",
        "é\u{85}ü ñ",
        "\u{200b}a",
    ];
    for s in samples {
        let spans = split_words(s.as_bytes());
        let got: Vec<&str> = spans.iter().map(|(a, b)| &s[*a..*b]).collect();
        let want: Vec<&str> = s.split_whitespace().collect();
        assert_eq!(got, want, "for {:?}", s);
    }
}
