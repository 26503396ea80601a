use bintext::codec::{decode, encode, strip_trailing_whitespace};
use bintext::error::Error;

fn encoded(text: &str) -> Vec<u8> {
    let mut out = Vec::new();
    encode(text.as_bytes(), &mut out).unwrap();
    out
}

fn decoded(digits: &[u8]) -> Result<Vec<u8>, Error> {
    let mut out = Vec::new();
    decode(digits, &mut out)?;
    Ok(out)
}

#[test]
fn encode_known_vectors() {
    assert_eq!(encoded("a"), b"01100001".to_vec());
    assert_eq!(encoded("ab"), b"0110000101100010".to_vec());
    assert_eq!(encoded(""), Vec::<u8>::new());
    assert_eq!(
        encoded("hello"),
        b"0110100001100101011011000110110001101111".to_vec()
    );
    assert_eq!(encoded("\u{e9}"), b"1100001110101001".to_vec());
}

#[test]
fn decode_known_vectors() {
    assert_eq!(decoded(b"01100001"), Ok(b"a".to_vec()));
    assert_eq!(decoded(b"0110000101100010"), Ok(b"ab".to_vec()));
    assert_eq!(decoded(b""), Ok(Vec::new()));
    assert_eq!(decoded(b"1100001110101001"), Ok(vec![0xc3, 0xa9]));
}

#[test]
fn encode_then_decode_gives_hello_back() {
    let digits = encoded("hello");
    assert_eq!(decoded(&digits), Ok(b"hello".to_vec()));
}

#[test]
fn encode_then_decode_keeps_text_of_several_bytes_a_character() {
    for s in [
        "\u{1f602} I'm d",
        "\u{7d42}\u{65bc}\u{6709}\u{4e86}\u{4fe1}\u{865f} \u{6211}\u{6c92}",
        "ðŸ˜‚ I'm d",
        "çµ‚æ–¼æœ‰äº†ä¿¡è™Ÿ æˆ‘æ²’",
        "na\u{ef}ve caf\u{e9}\n",
    ] {
        let digits = encoded(s);
        assert_eq!(digits.len(), 8 * s.len());
        assert!(digits.iter().all(|&d| d == b'0' || d == b'1'));
        let text = decoded(&digits).unwrap();
        assert_eq!(String::from_utf8(text).unwrap(), s);
    }
}

#[test]
fn encode_rejects_bytes_that_are_no_text() {
    let mut out = b"kept".to_vec();
    assert_eq!(
        encode(&[0x61, 0x80], &mut out),
        Err(Error::DecodeError { valid_up_to: 1 })
    );
    assert_eq!(out, b"kept".to_vec());
}

#[test]
fn encode_appends_to_what_the_sink_holds() {
    let mut out = b"kept".to_vec();
    assert_eq!(encode(b"a", &mut out), Ok(()));
    assert_eq!(out, b"kept01100001".to_vec());
}

#[test]
fn decode_rejects_a_wrong_length() {
    let mut out = b"kept".to_vec();
    assert_eq!(
        decode(b"0000000", &mut out),
        Err(Error::InvalidLength {
            expected_multiple: 8,
            actual: 7
        })
    );
    assert_eq!(out, b"kept".to_vec());
}

#[test]
fn decode_rejects_an_invalid_digit() {
    let mut out = b"kept".to_vec();
    assert_eq!(
        decode(b"0110000x", &mut out),
        Err(Error::InvalidDigit('x'))
    );
    assert_eq!(out, b"kept".to_vec());
}

#[test]
fn decode_rejects_stray_whitespace() {
    assert_eq!(
        decoded(b"01100001\n0000000"),
        Err(Error::InvalidDigit('\n'))
    );
    assert_eq!(
        decoded(b" 1100001"),
        Err(Error::InvalidDigit(' '))
    );
}

#[test]
fn decode_counts_the_length_in_characters() {
    let mut out = b"kept".to_vec();
    assert_eq!(
        decode("\u{e9}000000".as_bytes(), &mut out),
        Err(Error::InvalidLength {
            expected_multiple: 8,
            actual: 7
        })
    );
    assert_eq!(
        decode("0000000\u{e9}".as_bytes(), &mut out),
        Err(Error::InvalidDigit('\u{e9}'))
    );
    assert_eq!(out, b"kept".to_vec());
}

#[test]
fn decode_rejects_digits_that_render_no_text() {
    let mut out = b"kept".to_vec();
    // 0x61 0xff
    assert_eq!(
        decode(b"0110000111111111", &mut out),
        Err(Error::DecodeError { valid_up_to: 1 })
    );
    assert_eq!(out, b"kept".to_vec());
    // 0xc3 alone: a character cut short
    assert_eq!(decoded(b"11000011"), Err(Error::DecodeError { valid_up_to: 0 }));
}

#[test]
fn decode_rejects_input_that_is_no_text() {
    assert_eq!(
        decoded(&[0x30, 0x30, 0x30, 0xfe, 0x30, 0x30, 0x30, 0x30]),
        Err(Error::DecodeError { valid_up_to: 3 })
    );
}

#[test]
fn decode_appends_to_what_the_sink_holds() {
    let mut out = b"kept".to_vec();
    assert_eq!(decode(b"01100001", &mut out), Ok(()));
    assert_eq!(out, b"kepta".to_vec());
}

#[test]
fn strip_removes_trailing_line_feeds() {
    let mut v = b"abc\n\n".to_vec();
    strip_trailing_whitespace(&mut v);
    assert_eq!(v, b"abc".to_vec());
}

#[test]
fn strip_removes_trailing_carriage_returns() {
    let mut v = b"abc\r\n".to_vec();
    strip_trailing_whitespace(&mut v);
    assert_eq!(v, b"abc".to_vec());

    let mut v = b"abc\n\r\r".to_vec();
    strip_trailing_whitespace(&mut v);
    assert_eq!(v, b"abc".to_vec());
}

#[test]
fn strip_leaves_the_rest_alone() {
    let mut v = b"a\nb c \n".to_vec();
    strip_trailing_whitespace(&mut v);
    assert_eq!(v, b"a\nb c ".to_vec());

    let mut v = b"\n\rabc".to_vec();
    strip_trailing_whitespace(&mut v);
    assert_eq!(v, b"\n\rabc".to_vec());

    let mut v = b"abc".to_vec();
    strip_trailing_whitespace(&mut v);
    assert_eq!(v, b"abc".to_vec());
}

#[test]
fn strip_may_leave_nothing() {
    let mut v = b"\n\r\n".to_vec();
    strip_trailing_whitespace(&mut v);
    assert!(v.is_empty());

    let mut v: Vec<u8> = Vec::new();
    strip_trailing_whitespace(&mut v);
    assert!(v.is_empty());
}

#[test]
fn stripped_input_decodes_where_the_raw_input_does_not() {
    let mut input = b"0110100001101001\n".to_vec();
    assert_eq!(
        decoded(&input),
        Err(Error::InvalidLength {
            expected_multiple: 8,
            actual: 17
        })
    );
    strip_trailing_whitespace(&mut input);
    assert_eq!(decoded(&input), Ok(b"hi".to_vec()));
}
