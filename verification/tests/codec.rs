use devsak::alphabet::{keep, valid_chars, PAD};
use devsak::codec::{
    decode, decode_lossy, decode_lossy_text, decode_text, encode, encode_text, CodecError,
    INVALID_INPUT,
};
use devsak::text::trim;

#[test]
fn encode_test() {
    assert_eq!("dGVzdA==", encode(b"test"));
    assert_eq!("dGVzdA==", encode_text("test"));
}

#[test]
fn decode_test() {
    assert_eq!(Ok(b"test".to_vec()), decode("dGVzdA=="));
    assert_eq!(Ok(String::from("test")), decode_text("dGVzdA=="));
    assert_eq!("test", decode_lossy_text("dGVzdA=="));
    assert_eq!(Some(String::from("test")), decode_lossy("dGVzdA=="));
}

#[test]
fn encode_standard_vectors() {
    assert_eq!("", encode(b""));
    assert_eq!("Zg==", encode(b"f"));
    assert_eq!("Zm8=", encode(b"fo"));
    assert_eq!("Zm9v", encode(b"foo"));
    assert_eq!("Zm9vYg==", encode(b"foob"));
    assert_eq!("Zm9vYmE=", encode(b"fooba"));
    assert_eq!("Zm9vYmFy", encode(b"foobar"));
}

#[test]
fn decode_standard_vectors() {
    assert_eq!(Ok(b"".to_vec()), decode(""));
    assert_eq!(Ok(b"f".to_vec()), decode("Zg=="));
    assert_eq!(Ok(b"fo".to_vec()), decode("Zm8="));
    assert_eq!(Ok(b"foo".to_vec()), decode("Zm9v"));
    assert_eq!(Ok(b"foob".to_vec()), decode("Zm9vYg=="));
    assert_eq!(Ok(b"fooba".to_vec()), decode("Zm9vYmE="));
    assert_eq!(Ok(b"foobar".to_vec()), decode("Zm9vYmFy"));
}

#[test]
fn encode_uses_the_last_two_symbols() {
    assert_eq!("+/+/", encode(&[0xfb, 0xff, 0xbf]));
    assert_eq!("////", encode(&[0xff, 0xff, 0xff]));
    assert_eq!("AAAA", encode(&[0, 0, 0]));
    assert_eq!(Ok(vec![0xfb, 0xff, 0xbf]), decode("+/+/"));
}

#[test]
fn encoded_length_is_four_for_every_three() {
    for n in 0..50usize {
        let bytes = vec![0xa5u8; n];
        assert_eq!((n + 2) / 3 * 4, encode(&bytes).len());
    }
}

#[test]
fn decode_rejects_what_is_no_encoding() {
    let malformed = [
        "not valid base64!!",
        "Z",
        "Zg",
        "Zg=",
        "Zm8",
        "Zm9vY",
        "====",
        "Z===",
        "=Zg=",
        "Zg==Zg==",
        "Zm8=Zm9v",
        "Zh==",
        "Zm9=",
        "Zm9v\n",
        " Zm9v",
        "Zm9v ",
        "Zm-v",
        "Zm_v",
        "Zm9\u{e9}",
        "\u{e9}\u{e9}",
        "Zg==\u{1f600}",
        "Z=g=",
        "Zg=g",
    ];
    for text in malformed {
        assert_eq!(Err(CodecError::InvalidEncoding), decode(text), "{text:?}");
        assert_eq!(Err(CodecError::InvalidEncoding), decode_text(text), "{text:?}");
        assert_eq!(INVALID_INPUT, decode_lossy_text(text), "{text:?}");
        assert_eq!(None, decode_lossy(text), "{text:?}");
    }
    assert_eq!("Invalid Input", INVALID_INPUT);
}

#[test]
fn decode_text_tells_bytes_that_are_no_text() {
    assert_eq!(Ok(vec![0xff]), decode("/w=="));
    assert_eq!(Err(CodecError::InvalidUtf8), decode_text("/w=="));
    assert_eq!("\u{fffd}", decode_lossy_text("/w=="));
    assert_eq!(Some(String::from("\u{fffd}")), decode_lossy("/w=="));
    assert_eq!(Ok(vec![b'a', 0xff, b'b']), decode("Yf9i"));
    assert_eq!(Err(CodecError::InvalidUtf8), decode_text("Yf9i"));
    assert_eq!("a\u{fffd}b", decode_lossy_text("Yf9i"));
}

#[test]
fn round_trip_of_text() {
    let texts = [
        "",
        "test",
        "Hello World!",
        "a",
        "ab",
        "abc",
        "gr\u{fc}\u{df}e",
        "\u{65e5}\u{672c}\u{8a9e}",
        "\u{1f600} and more",
        "  spaces kept  ",
        "line\nbreaks\r\n",
        "\0",
    ];
    for text in texts {
        let encoded = encode_text(text);
        assert_eq!(Ok(String::from(text)), decode_text(&encoded));
        assert_eq!(text, decode_lossy_text(&encoded));
        assert_eq!(Ok(text.as_bytes().to_vec()), decode(&encoded));
    }
}

#[test]
fn trim_drops_white_space_at_both_ends() {
    assert_eq!("test", trim("  test\n"));
    assert_eq!("te st", trim("\t te st \r\n"));
    assert_eq!("", trim(""));
    assert_eq!("", trim(" \n\t "));
    assert_eq!("x", trim("x"));
    assert_eq!("x", trim("x "));
    assert_eq!("x", trim(" x"));
    assert_eq!("\u{e9}t\u{e9}", trim("\u{a0}\u{e9}t\u{e9}\u{2003}"));
    for text in ["", " ", "a", " a", "a ", " a b ", "\u{3000}a\u{3000}", "\n\na\u{85}"] {
        assert_eq!(text.trim(), trim(text));
    }
}

#[test]
fn trim_takes_the_six_ascii_characters_for_white_space() {
    for code in 0..128u8 {
        let c = code as char;
        let is_white = c == ' ' || ('\t'..='\r').contains(&c);
        let alone = c.to_string();
        assert_eq!(is_white, trim(&alone).is_empty(), "{c:?}");
        let inside = format!("a{c}b");
        assert_eq!(inside, trim(&inside), "{c:?}");
        let around = format!("{c}ab{c}");
        assert_eq!(if is_white { "ab" } else { around.as_str() }, trim(&around), "{c:?}");
    }
}

#[test]
fn valid_chars_are_the_symbols_and_the_padding() {
    let valid = valid_chars();
    let symbols = "ABCDEFGHIJKLMNOPQRSTUVWXYZabcdefghijklmnopqrstuvwxyz0123456789+/";
    assert_eq!(65, valid.len());
    for code in 0..0x300u32 {
        let c = char::from_u32(code).unwrap();
        assert_eq!(symbols.contains(c) || c == '=', valid.contains(&c), "{c:?}");
    }
    assert_eq!('=', PAD);
    assert!(valid.contains(&PAD));
    assert!(!valid.contains(&'\u{1f600}'));
}

#[test]
fn keep_retains_valid_characters_in_order() {
    let valid = valid_chars();
    assert_eq!("dGVzdA==", keep("dGVz\ndA==\n", &valid));
    assert_eq!("", keep("", &valid));
    assert_eq!("=", keep(" =-_\u{e9}\n", &valid));
    assert_eq!("ab+/09", keep("a b\t+ / 0 9", &valid));
    let none = std::collections::HashSet::default();
    assert_eq!("", keep("dGVzdA==", &none));
}

#[test]
fn round_trip_of_bytes() {
    for a in 0..=255u8 {
        let one = [a];
        assert_eq!(Ok(one.to_vec()), decode(&encode(&one)));
        for b in [0u8, 1, 15, 16, 63, 64, 127, 128, 254, 255] {
            let two = [a, b];
            assert_eq!(Ok(two.to_vec()), decode(&encode(&two)));
            let three = [b, a, b];
            assert_eq!(Ok(three.to_vec()), decode(&encode(&three)));
        }
    }
}
