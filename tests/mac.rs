use bgx13p::mac::{Mac, MacError};
use bgx13p::usb::is_bgx_manufacturer;

#[test]
fn mac_parse_1() {
    const MAC_STR: &str = "d0:cf:5e:82:85:06";
    const MAC: Mac = Mac([0xd0, 0xcf, 0x5e, 0x82, 0x85, 0x06]);

    let mac_str = MAC_STR.parse().unwrap();

    assert_eq!(MAC, mac_str)
}

#[test]
fn mac_parse_without_colons_and_upper_case() {
    let m = Mac::parse("D0CF5E828DF6").unwrap();
    assert_eq!(m, Mac([0xd0, 0xcf, 0x5e, 0x82, 0x8d, 0xf6]));
}

#[test]
fn mac_wrong_length_is_refused() {
    assert_eq!(Mac::parse("d0:cf:5e:82:85"), Err(MacError::WrongLength));
    assert_eq!(Mac::parse(""), Err(MacError::WrongLength));
    assert_eq!(Mac::parse("d0cf5e8285061"), Err(MacError::WrongLength));
}

#[test]
fn mac_invalid_digit_is_refused() {
    assert_eq!(Mac::parse("d0:cf:5e:82:85:0g"), Err(MacError::InvalidDigit));
    assert_eq!(Mac::parse("+0cf5e828506"), Err(MacError::InvalidDigit));
}

#[test]
fn mac_formats_lower_case_without_separators() {
    let m = Mac([0xd0, 0xcf, 0x5e, 0x82, 0x85, 0x06]);
    assert_eq!(m.to_hex(), b"d0cf5e828506".to_vec());
    let z = Mac([0x00, 0x0d, 0x6f, 0xa7, 0xa1, 0x54]);
    assert_eq!(z.to_hex(), b"000d6fa7a154".to_vec());
}

#[test]
fn mac_round_trips() {
    let octets = [[0u8; 6], [255u8; 6], [0x12, 0xab, 0x00, 0xff, 0x7f, 0x80]];
    for b in octets {
        let text = String::from_utf8(Mac(b).to_hex()).unwrap();
        assert_eq!(Mac::parse(&text), Ok(Mac(b)));
    }
    let s = "AA:bb:0C:dd:EE:ff";
    let m = Mac::parse(s).unwrap();
    assert_eq!(m.to_hex(), b"aabb0cddeeff".to_vec());
}

#[test]
fn usb_bridge_manufacturers() {
    assert!(is_bgx_manufacturer("Silicon Labs"));
    assert!(is_bgx_manufacturer("Cygnal Integrated Products, Inc."));
    assert!(is_bgx_manufacturer("CP2102N USB to UART"));
    assert!(!is_bgx_manufacturer("FTDI"));
    assert!(!is_bgx_manufacturer("silicon labs"));
    assert!(!is_bgx_manufacturer(""));
}
