use bgx13p::response::{
    body_string, debug_rendering, parse_header, parse_response, BgxResponse, Errors,
    ResponseCodes, ResponseHeader,
};

const SCAN_REPLY: &[u8] = &[
    82, 48, 48, 48, 50, 51, 49, 13, 10, 33, 32, 32, 35, 32, 82, 83, 83, 73, 32, 66, 68, 95, 65,
    68, 68, 82, 32, 32, 32, 32, 32, 32, 32, 32, 32, 32, 32, 68, 101, 118, 105, 99, 101, 32, 78,
    97, 109, 101, 13, 10, 35, 32, 32, 49, 32, 32, 45, 55, 49, 32, 101, 99, 58, 49, 98, 58, 98,
    100, 58, 49, 98, 58, 49, 50, 58, 97, 49, 32, 76, 79, 82, 45, 49, 52, 57, 48, 13, 10, 35,
    32, 32, 50, 32, 32, 45, 55, 54, 32, 56, 52, 58, 55, 49, 58, 50, 55, 58, 57, 100, 58, 102,
    56, 58, 102, 50, 32, 76, 79, 82, 45, 49, 52, 57, 48, 13, 10, 35, 32, 32, 51, 32, 32, 45,
    55, 52, 32, 54, 48, 58, 97, 52, 58, 50, 51, 58, 99, 53, 58, 57, 48, 58, 97, 98, 32, 76, 79,
    82, 45, 49, 52, 53, 48, 13, 10, 35, 32, 32, 52, 32, 32, 45, 56, 48, 32, 101, 99, 58, 49,
    98, 58, 98, 100, 58, 49, 98, 58, 49, 50, 58, 101, 48, 32, 76, 79, 82, 45, 49, 52, 57, 48,
    13, 10, 35, 32, 32, 53, 32, 32, 45, 56, 53, 32, 54, 48, 58, 97, 52, 58, 50, 51, 58, 99, 53,
    58, 57, 49, 58, 98, 55, 32, 76, 79, 82, 45, 56, 48, 57, 48, 13, 10,
];

const SCAN_BODY: &[u8] = &[
    33, 32, 32, 35, 32, 82, 83, 83, 73, 32, 66, 68, 95, 65, 68, 68, 82, 32, 32, 32, 32, 32, 32,
    32, 32, 32, 32, 32, 68, 101, 118, 105, 99, 101, 32, 78, 97, 109, 101, 13, 10, 35, 32, 32,
    49, 32, 32, 45, 55, 49, 32, 101, 99, 58, 49, 98, 58, 98, 100, 58, 49, 98, 58, 49, 50, 58,
    97, 49, 32, 76, 79, 82, 45, 49, 52, 57, 48, 13, 10, 35, 32, 32, 50, 32, 32, 45, 55, 54, 32,
    56, 52, 58, 55, 49, 58, 50, 55, 58, 57, 100, 58, 102, 56, 58, 102, 50, 32, 76, 79, 82, 45,
    49, 52, 57, 48, 13, 10, 35, 32, 32, 51, 32, 32, 45, 55, 52, 32, 54, 48, 58, 97, 52, 58, 50,
    51, 58, 99, 53, 58, 57, 48, 58, 97, 98, 32, 76, 79, 82, 45, 49, 52, 53, 48, 13, 10, 35, 32,
    32, 52, 32, 32, 45, 56, 48, 32, 101, 99, 58, 49, 98, 58, 98, 100, 58, 49, 98, 58, 49, 50,
    58, 101, 48, 32, 76, 79, 82, 45, 49, 52, 57, 48, 13, 10, 35, 32, 32, 53, 32, 32, 45, 56,
    53, 32, 54, 48, 58, 97, 52, 58, 50, 51, 58, 99, 53, 58, 57, 49, 58, 98, 55, 32, 76, 79, 82,
    45, 56, 48, 57, 48, 13, 10,
];

fn framed(code: ResponseCodes, len: u32, body: &str) -> BgxResponse {
    BgxResponse::DataWithHeader(
        ResponseHeader {
            response_code: code,
            data_length: len,
        },
        body.to_string(),
    )
}

#[test]
fn bgx_response_module_response_test_1() {
    let input1: &[u8] = b"R000029\r\nBGX13P.1.2.2738.2-1524-2738\r\n";

    assert_eq!(
        framed(ResponseCodes::Success, 29, "BGX13P.1.2.2738.2-1524-2738\r\n"),
        parse_response(input1).unwrap()
    )
}

#[test]
fn bgx_response_module_response_test_2() {
    assert_eq!(
        BgxResponse::DataWithHeader(
            ResponseHeader {
                response_code: ResponseCodes::Success,
                data_length: 231
            },
            String::from_utf8(SCAN_BODY.to_vec()).unwrap(),
        ),
        parse_response(SCAN_REPLY).unwrap()
    )
}

#[test]
fn response_module_response_test_1() {
    let input1: &[u8] = b"R000029\r\nBGX13P.1.2.2738.2-1524-2738\r\n";

    assert_eq!(
        BgxResponse::DataWithHeader(
            ResponseHeader {
                response_code: ResponseCodes::Success,
                data_length: 29
            },
            "BGX13P.1.2.2738.2-1524-2738\r\n".to_string(),
        ),
        parse_response(input1).unwrap()
    )
}

#[test]
fn response_module_response_test_2() {
    assert_eq!(
        BgxResponse::DataWithHeader(
            ResponseHeader {
                response_code: ResponseCodes::Success,
                data_length: 231
            },
            String::from_utf8(SCAN_BODY.to_vec()).unwrap(),
        ),
        parse_response(SCAN_REPLY).unwrap()
    )
}

#[test]
fn test_response_header_1() {
    let header: &[u8] = b"R000009\r\n";

    let h = parse_header(header).unwrap();
    let h2 = ResponseHeader {
        response_code: ResponseCodes::Success,
        data_length: 9,
    };

    assert_eq!(h, h2);
}

#[test]
#[should_panic]
fn test_response_header_2() {
    let header: &[u8] = b"R000010\r\n";

    let h = parse_header(header).unwrap();
    let h2 = ResponseHeader {
        response_code: ResponseCodes::Success,
        data_length: 9,
    };

    assert_eq!(h, h2);
}

#[test]
#[should_panic]
fn test_response_header_3() {
    let header: &[u8] = b"00009\r\n";

    let _ = parse_header(header).unwrap();
}

#[test]
#[should_panic]
fn test_response_header_4() {
    let header: &[u8] = b"RR0009\r\n";

    let _ = parse_header(header).unwrap();
}

#[test]
#[should_panic]
fn test_response_header_5() {
    let header: &[u8] = b"R10009\r\n";

    let _ = parse_header(header).unwrap();
}

#[test]
#[should_panic]
fn test_response_header_6() {
    let header: &[u8] = b"2120009\r\n";

    let _ = parse_header(header).unwrap();
}

#[test]
#[should_panic]
fn test_response_header_7() {
    let header: &[u8] = b"R000009";

    let _ = parse_header(header).unwrap();
}

#[test]
fn header_refusals_name_the_error() {
    assert_eq!(parse_header(b"R00009\r\n"), Err(Errors::MalformedHeader));
    assert_eq!(parse_header(b"R0000a9\r\n"), Err(Errors::MalformedHeader));
    assert_eq!(parse_header(b"R000009\n\r"), Err(Errors::MalformedHeader));
}

#[test]
fn header_round_trips_for_every_code() {
    for code in 0u8..=9 {
        for len in [0u32, 1, 9, 10, 117, 99999] {
            let text = format!("R{}{:05}\r\n", code, len);
            let h = parse_header(text.as_bytes()).unwrap();
            assert_eq!(h.response_code.number(), code);
            assert_eq!(h.data_length, len);
        }
    }
}

#[test]
fn response_codes_from_numbers() {
    assert_eq!(ResponseCodes::try_from(0), Ok(ResponseCodes::Success));
    assert_eq!(ResponseCodes::try_from(1), Ok(ResponseCodes::CommandFailed));
    assert_eq!(ResponseCodes::try_from(8), Ok(ResponseCodes::Timeout));
    assert_eq!(ResponseCodes::try_from(9), Ok(ResponseCodes::SecurityMismatch));
    assert_eq!(
        ResponseCodes::try_from(10),
        Err(Errors::InvalidResponseCode(10))
    );
}

#[test]
fn bytes_without_header_are_raw() {
    let input: &[u8] = b"Ready\r\nR00\r\n";
    assert_eq!(
        parse_response(input),
        Ok(BgxResponse::DataWithoutHeader(input.to_vec()))
    );
    assert_eq!(
        parse_response(b""),
        Ok(BgxResponse::DataWithoutHeader(Vec::new()))
    );
}

#[test]
fn bytes_before_the_header_are_skipped_and_after_the_body_ignored() {
    let input: &[u8] = b"xxR1R000009\r\nSuccess\r\ntrailing";
    assert_eq!(
        parse_response(input),
        Ok(framed(ResponseCodes::Success, 9, "Success\r\n"))
    );
}

#[test]
fn a_short_body_is_incomplete() {
    assert_eq!(parse_response(b"R000010\r\nSuccess"), Err(Errors::Incomplete));
}

#[test]
fn body_that_is_not_utf8_is_rendered_as_numbers() {
    let input: &[u8] = &[b'R', b'9', b'0', b'0', b'0', b'0', b'3', 13, 10, 0xff, 0, 82];
    assert_eq!(
        parse_response(input),
        Ok(framed(ResponseCodes::SecurityMismatch, 3, "[255, 0, 82]"))
    );
    assert_eq!(debug_rendering(&[]), b"[]".to_vec());
    assert_eq!(body_string(&[0xc3]), format!("{:?}", &[0xc3u8]));
    assert_eq!(body_string("é".as_bytes()), "é".to_string());
}
