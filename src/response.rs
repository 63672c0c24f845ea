use vstd::prelude::*;
use vstd::slice::*;
use vstd::string::*;
use vstd::utf8::*;

verus! {

/// The result code that a framed reply carries.
#[derive(Debug, Clone, Copy, PartialEq, Eq, Structural)]
pub enum ResponseCodes {
    Success,
    CommandFailed,
    ParseError,
    UnknownCommand,
    TooFewArguments,
    TooManyArguments,
    UnknownVariableOrOption,
    InvalidArgument,
    Timeout,
    SecurityMismatch,
}

/// Why a reply could not be decoded.
#[derive(Debug, Clone, Copy, PartialEq, Eq, Structural)]
pub enum Errors {
    /// A result code outside 0 to 9.
    InvalidResponseCode(u8),
    /// The bytes do not start with a header `R<d><ddddd>\r\n`.
    MalformedHeader,
    /// The header announces more body bytes than followed it.
    Incomplete,
}

/// The number that stands for a result code on the wire.
pub open spec fn code_number(c: ResponseCodes) -> u8 {
    match c {
        ResponseCodes::Success => 0,
        ResponseCodes::CommandFailed => 1,
        ResponseCodes::ParseError => 2,
        ResponseCodes::UnknownCommand => 3,
        ResponseCodes::TooFewArguments => 4,
        ResponseCodes::TooManyArguments => 5,
        ResponseCodes::UnknownVariableOrOption => 6,
        ResponseCodes::InvalidArgument => 7,
        ResponseCodes::Timeout => 8,
        ResponseCodes::SecurityMismatch => 9,
    }
}

impl ResponseCodes {
    /// The result code with the given number.
    pub fn try_from(value: u8) -> (r: Result<ResponseCodes, Errors>)
        ensures
            r is Ok <==> value <= 9,
            r is Ok ==> code_number(r->Ok_0) == value,
            !(r is Ok) ==> r == Err::<ResponseCodes, Errors>(Errors::InvalidResponseCode(value)),
    {
        match value {
            0 => Ok(ResponseCodes::Success),
            1 => Ok(ResponseCodes::CommandFailed),
            2 => Ok(ResponseCodes::ParseError),
            3 => Ok(ResponseCodes::UnknownCommand),
            4 => Ok(ResponseCodes::TooFewArguments),
            5 => Ok(ResponseCodes::TooManyArguments),
            6 => Ok(ResponseCodes::UnknownVariableOrOption),
            7 => Ok(ResponseCodes::InvalidArgument),
            8 => Ok(ResponseCodes::Timeout),
            9 => Ok(ResponseCodes::SecurityMismatch),
            _ => Err(Errors::InvalidResponseCode(value)),
        }
    }

    /// The number that stands for this code on the wire.
    pub fn number(&self) -> (r: u8)
        ensures
            r == code_number(*self),
    {
        match self {
            ResponseCodes::Success => 0,
            ResponseCodes::CommandFailed => 1,
            ResponseCodes::ParseError => 2,
            ResponseCodes::UnknownCommand => 3,
            ResponseCodes::TooFewArguments => 4,
            ResponseCodes::TooManyArguments => 5,
            ResponseCodes::UnknownVariableOrOption => 6,
            ResponseCodes::InvalidArgument => 7,
            ResponseCodes::Timeout => 8,
            ResponseCodes::SecurityMismatch => 9,
        }
    }
}

/// The header of a framed reply: its result code and the length of its body in bytes.
#[derive(Debug, Clone, Copy, PartialEq, Eq, Structural)]
pub struct ResponseHeader {
    pub response_code: ResponseCodes,
    pub data_length: u32,
}

/// An ASCII decimal digit.
pub open spec fn is_digit(b: u8) -> bool {
    48 <= b <= 57
}

/// The value of the decimal digit at position `i`.
pub open spec fn digit_at(s: Seq<u8>, i: int) -> int {
    s[i] - 48
}

/// A header `R<d><ddddd>\r\n` begins at position `i`.
pub open spec fn header_at(s: Seq<u8>, i: int) -> bool {
    &&& 0 <= i
    &&& i + 9 <= s.len()
    &&& s[i] == 82
    &&& is_digit(s[i + 1])
    &&& is_digit(s[i + 2])
    &&& is_digit(s[i + 3])
    &&& is_digit(s[i + 4])
    &&& is_digit(s[i + 5])
    &&& is_digit(s[i + 6])
    &&& s[i + 7] == 13
    &&& s[i + 8] == 10
}

/// The body length written by the five digits of the header at position `i`.
pub open spec fn length_at(s: Seq<u8>, i: int) -> int {
    digit_at(s, i + 2) * 10000 + digit_at(s, i + 3) * 1000 + digit_at(s, i + 4) * 100
        + digit_at(s, i + 5) * 10 + digit_at(s, i + 6)
}

/// The header written at position `i`.
pub open spec fn header_of(s: Seq<u8>, i: int) -> ResponseHeader {
    ResponseHeader {
        response_code: code_with_number(digit_at(s, i + 1)),
        data_length: length_at(s, i) as u32,
    }
}

/// The result code with number `n`, for `n` in 0 to 9.
pub open spec fn code_with_number(n: int) -> ResponseCodes {
    if n == 0 {
        ResponseCodes::Success
    } else if n == 1 {
        ResponseCodes::CommandFailed
    } else if n == 2 {
        ResponseCodes::ParseError
    } else if n == 3 {
        ResponseCodes::UnknownCommand
    } else if n == 4 {
        ResponseCodes::TooFewArguments
    } else if n == 5 {
        ResponseCodes::TooManyArguments
    } else if n == 6 {
        ResponseCodes::UnknownVariableOrOption
    } else if n == 7 {
        ResponseCodes::InvalidArgument
    } else if n == 8 {
        ResponseCodes::Timeout
    } else {
        ResponseCodes::SecurityMismatch
    }
}

/// The position of the first header at or after `i`, or -1 where none follows.
pub open spec fn find_header(s: Seq<u8>, i: int) -> int
    decreases s.len() - i,
{
    if i < 0 || i + 9 > s.len() {
        -1
    } else if header_at(s, i) {
        i
    } else {
        find_header(s, i + 1)
    }
}

/// The decimal digits of a byte, without leading zeros.
pub open spec fn decimal(v: u8) -> Seq<u8> {
    if v < 10 {
        seq![(48 + v) as u8]
    } else if v < 100 {
        seq![(48 + v / 10) as u8, (48 + v % 10) as u8]
    } else {
        seq![(48 + v / 100) as u8, (48 + v / 10 % 10) as u8, (48 + v % 10) as u8]
    }
}

/// The bytes in decimal, separated by `, `.
pub open spec fn decimal_list(b: Seq<u8>) -> Seq<u8>
    decreases b.len(),
{
    if b.len() == 0 {
        Seq::empty()
    } else if b.len() == 1 {
        decimal(b[0])
    } else {
        decimal_list(b.drop_last()) + seq![44u8, 32u8] + decimal(b.last())
    }
}

/// The debug rendering of a byte string, as a list of numbers: `[82, 0, 255]`.
pub open spec fn debug_bytes(b: Seq<u8>) -> Seq<u8> {
    seq![91u8] + decimal_list(b) + seq![93u8]
}

/// The text of a body: its characters where it is valid UTF-8, else the debug
/// rendering of its bytes.
pub open spec fn body_text(b: Seq<u8>) -> Seq<char> {
    if valid_utf8(b) {
        decode_utf8(b)
    } else {
        decode_utf8(debug_bytes(b))
    }
}

/// A reply of the module, as read off the wire.
#[derive(Debug, Clone, PartialEq, Eq)]
pub enum BgxResponse {
    /// A header and the body it announced.
    DataWithHeader(ResponseHeader, String),
    /// Bytes in which no header was found, whole.
    DataWithoutHeader(Vec<u8>),
}

/// The mathematical value of a reply.
pub enum ResponseView {
    Framed(ResponseHeader, Seq<char>),
    Raw(Seq<u8>),
}

impl View for BgxResponse {
    type V = ResponseView;

    open spec fn view(&self) -> ResponseView {
        match self {
            BgxResponse::DataWithHeader(h, s) => ResponseView::Framed(*h, s@),
            BgxResponse::DataWithoutHeader(b) => ResponseView::Raw(b@),
        }
    }
}

/// How a buffer of received bytes decodes: the first header in it and the body it
/// announces; or, where no header is found, the buffer whole as raw data.
pub open spec fn response_of(s: Seq<u8>) -> Result<ResponseView, Errors> {
    let i = find_header(s, 0);
    if i < 0 {
        Ok(ResponseView::Raw(s))
    } else {
        let h = header_of(s, i);
        if i + 9 + h.data_length > s.len() {
            Err(Errors::Incomplete)
        } else {
            Ok(
                ResponseView::Framed(
                    h,
                    body_text(s.subrange(i + 9, i + 9 + h.data_length)),
                ),
            )
        }
    }
}

/// The view of a decoding result.
pub open spec fn result_view(r: Result<BgxResponse, Errors>) -> Result<ResponseView, Errors> {
    match r {
        Ok(v) => Ok(v@),
        Err(e) => Err(e),
    }
}

/// Relies on `String::from_utf8`: it accepts exactly the valid UTF-8 byte strings
/// and then holds the characters they encode.
#[verifier::external_body]
pub(crate) fn utf8_string(b: &[u8]) -> (r: Option<String>)
    ensures
        r is Some <==> valid_utf8(b@),
        r is Some ==> r->Some_0@ == decode_utf8(b@),
{
    String::from_utf8(b.to_vec()).ok()
}

fn push_decimal(out: &mut Vec<u8>, v: u8)
    ensures
        final(out)@ == old(out)@ + decimal(v),
{
    if v < 10 {
        out.push(48 + v);
    } else if v < 100 {
        out.push(48 + v / 10);
        out.push(48 + v % 10);
    } else {
        out.push(48 + v / 100);
        out.push(48 + v / 10 % 10);
        out.push(48 + v % 10);
    }
}

/// The debug rendering of a byte string, `[82, 0, 255]`.
pub fn debug_rendering(b: &[u8]) -> (r: Vec<u8>)
    ensures
        r@ == debug_bytes(b@),
{
    let mut out: Vec<u8> = Vec::new();
    out.push(91);
    let mut k: usize = 0;
    while k < b.len()
        invariant
            0 <= k <= b@.len(),
            out@ == seq![91u8] + decimal_list(b@.subrange(0, k as int)),
        decreases b@.len() - k,
    {
        if k > 0 {
            out.push(44);
            out.push(32);
        }
        push_decimal(&mut out, b[k]);
        k = k + 1;
        assert(b@.subrange(0, k as int).drop_last() =~= b@.subrange(0, k - 1));
        assert(out@ =~= seq![91u8] + decimal_list(b@.subrange(0, k as int)));
    }
    assert(b@.subrange(0, b@.len() as int) =~= b@);
    out.push(93);
    assert(out@ =~= debug_bytes(b@));
    out
}

proof fn lemma_decimal_list_ascii(b: Seq<u8>)
    ensures
        forall|i: int| 0 <= i < decimal_list(b).len() ==> decimal_list(b)[i] < 128,
    decreases b.len(),
{
    if b.len() > 0 {
        let d = decimal(b.last());
        assert(forall|i: int| 0 <= i < d.len() ==> d[i] < 128);
    }
    if b.len() > 1 {
        lemma_decimal_list_ascii(b.drop_last());
        let l = decimal_list(b.drop_last());
        let d = decimal(b.last());
        let all = l + seq![44u8, 32u8] + d;
        assert forall|i: int| 0 <= i < all.len() implies all[i] < 128 by {
            if i < l.len() {
            } else if i < l.len() + 2 {
            } else {
                assert(all[i] == d[i - l.len() - 2]);
            }
        }
    }
}

proof fn lemma_debug_bytes_ascii(b: Seq<u8>)
    ensures
        forall|i: int| 0 <= i < debug_bytes(b).len() ==> debug_bytes(b)[i] < 128,
{
    lemma_decimal_list_ascii(b);
}

/// The text of a body: the string it encodes, or the debug rendering of its
/// bytes where they are not UTF-8.
pub fn body_string(b: &[u8]) -> (r: String)
    ensures
        r@ == body_text(b@),
{
    match utf8_string(b) {
        Some(s) => s,
        None => {
            let d = debug_rendering(b);
            proof {
                lemma_debug_bytes_ascii(b@);
                lemma_ascii_bytes_valid(d@);
            }
            match utf8_string(d.as_slice()) {
                Some(s) => s,
                None => String::new(),
            }
        },
    }
}

fn header_here(s: &[u8], i: usize) -> (r: bool)
    requires
        i + 9 <= s@.len(),
    ensures
        r == header_at(s@, i as int),
{
    s[i] == 82 && 48 <= s[i + 1] && s[i + 1] <= 57 && 48 <= s[i + 2] && s[i + 2] <= 57 && 48
        <= s[i + 3] && s[i + 3] <= 57 && 48 <= s[i + 4] && s[i + 4] <= 57 && 48 <= s[i + 5]
        && s[i + 5] <= 57 && 48 <= s[i + 6] && s[i + 6] <= 57 && s[i + 7] == 13 && s[i + 8] == 10
}

fn decode_header_at(s: &[u8], i: usize) -> (r: Result<ResponseHeader, Errors>)
    requires
        header_at(s@, i as int),
        i + 9 <= s.len(),
    ensures
        r == Ok::<ResponseHeader, Errors>(header_of(s@, i as int)),
{
    let c = s[i + 1];
    assert(is_digit(c));
    let code = ResponseCodes::try_from(c - 48)?;
    let len: u32 = (s[i + 2] - 48) as u32 * 10000 + (s[i + 3] - 48) as u32 * 1000 + (s[i + 4]
        - 48) as u32 * 100 + (s[i + 5] - 48) as u32 * 10 + (s[i + 6] - 48) as u32;
    Ok(ResponseHeader { response_code: code, data_length: len })
}

/// Reads a header `R<d><ddddd>\r\n` at the very start of the bytes.
pub fn parse_header(input: &[u8]) -> (r: Result<ResponseHeader, Errors>)
    ensures
        r is Ok <==> header_at(input@, 0),
        r is Ok ==> r->Ok_0 == header_of(input@, 0),
        !(r is Ok) ==> r == Err::<ResponseHeader, Errors>(Errors::MalformedHeader),
{
    if input.len() < 9 || !header_here(input, 0) {
        return Err(Errors::MalformedHeader);
    }
    decode_header_at(input, 0)
}

/// Decodes a buffer of received bytes. Bytes before the first header are
/// skipped, bytes after the body it announces are ignored; where no header is
/// found the buffer is returned whole as raw data.
pub fn parse_response(input: &[u8]) -> (r: Result<BgxResponse, Errors>)
    ensures
        result_view(r) == response_of(input@),
{
    let n = input.len();
    let mut i: usize = 0;
    while n >= 9 && i <= n - 9
        invariant
            n == input@.len(),
            i <= n,
            find_header(input@, 0) == find_header(input@, i as int),
        decreases n - i,
    {
        if header_here(input, i) {
            let h = decode_header_at(input, i)?;
            let start = i + 9;
            if h.data_length as usize > n - start {
                return Err(Errors::Incomplete);
            }
            let body = slice_subrange(input, start, start + h.data_length as usize);
            return Ok(BgxResponse::DataWithHeader(h, body_string(body)));
        }
        i = i + 1;
    }
    Ok(BgxResponse::DataWithoutHeader(slice_to_vec(input)))
}

/// The canonical header for a result code number and a body length: `R<code><len:05>\r\n`.
pub open spec fn header_text(code: int, len: int) -> Seq<u8> {
    seq![
        82u8,
        (48 + code) as u8,
        (48 + len / 10000) as u8,
        (48 + len / 1000 % 10) as u8,
        (48 + len / 100 % 10) as u8,
        (48 + len / 10 % 10) as u8,
        (48 + len % 10) as u8,
        13u8,
        10u8,
    ]
}

/// A header written for a code in 0 to 9 and a length in 0 to 99999 reads back as
/// that code and that length.
pub proof fn lemma_header_round_trip(code: int, len: int)
    requires
        0 <= code <= 9,
        0 <= len <= 99999,
    ensures
        header_at(header_text(code, len), 0),
        code_number(header_of(header_text(code, len), 0).response_code) == code,
        header_of(header_text(code, len), 0).data_length == len,
{
    let t = header_text(code, len);
    assert(len == (len / 10000) * 10000 + (len / 1000 % 10) * 1000 + (len / 100 % 10) * 100 + (
    len / 10 % 10) * 10 + len % 10) by (nonlinear_arith)
        requires
            0 <= len <= 99999,
    ;
    assert(length_at(t, 0) == len);
}

proof fn lemma_no_header_from(s: Seq<u8>, i: int)
    requires
        0 <= i,
        forall|j: int| i <= j ==> !header_at(s, j),
    ensures
        find_header(s, i) == -1,
    decreases s.len() - i,
{
    if i + 9 <= s.len() {
        lemma_no_header_from(s, i + 1);
    }
}

/// Bytes in which no header begins decode as raw data, whole.
pub proof fn lemma_raw_fallback(s: Seq<u8>)
    requires
        forall|i: int| !header_at(s, i),
    ensures
        response_of(s) == Ok::<ResponseView, Errors>(ResponseView::Raw(s)),
{
    lemma_no_header_from(s, 0);
}

proof fn lemma_ascii_bytes_valid(b: Seq<u8>)
    requires
        forall|i: int| 0 <= i < b.len() ==> b[i] < 128,
    ensures
        valid_utf8(b),
    decreases b.len(),
{
    if b.len() > 0 {
        let b0 = b[0];
        assert((b0 & 0x7f) as u32 <= 0x7f) by (bit_vector);
        lemma_ascii_bytes_valid(b.subrange(1, b.len() as int));
        assert(pop_first_scalar(b) =~= b.subrange(1, b.len() as int));
    }
}

/// Where a buffer is the canonical header of a framed reply followed by the UTF-8
/// bytes of its body, the body is exactly as long as the header announced.
pub proof fn lemma_framed_body_length(bytes: Seq<u8>, h: ResponseHeader, body: Seq<char>)
    requires
        response_of(bytes) == Ok::<ResponseView, Errors>(ResponseView::Framed(h, body)),
        bytes == header_text(code_number(h.response_code) as int, h.data_length as int)
            + encode_utf8(body),
    ensures
        encode_utf8(body).len() == h.data_length,
{
    let i = find_header(bytes, 0);
    lemma_find_header_range(bytes, 0);
    assert(header_at(bytes, i));
    let len = h.data_length as int;
    assert(0 <= len <= 99999);
    lemma_header_round_trip(code_number(h.response_code) as int, len);
    assert(header_at(bytes, 0)) by {
        assert(header_text(code_number(h.response_code) as int, len) =~= bytes.subrange(0, 9));
    }
    assert(i == 0);
    let e = encode_utf8(body);
    let x = bytes.subrange(9, 9 + len);
    assert(x =~= e.subrange(0, len));
    if valid_utf8(x) {
        decode_utf8_encode_utf8(x);
    } else {
        let d = debug_bytes(x);
        lemma_debug_bytes_ascii(x);
        lemma_ascii_bytes_valid(d);
        decode_utf8_encode_utf8(d);
        assert(e == d);
        assert forall|k: int| 0 <= k < x.len() implies x[k] < 128 by {
            assert(x[k] == e[k]);
        }
        lemma_ascii_bytes_valid(x);
    }
}

proof fn lemma_find_header_range(s: Seq<u8>, i: int)
    ensures
        find_header(s, i) == -1 || (i <= find_header(s, i) && header_at(s, find_header(s, i))),
    decreases s.len() - i,
{
    if !(i < 0 || i + 9 > s.len()) && !header_at(s, i) {
        lemma_find_header_range(s, i + 1);
    }
}

} // verus!
