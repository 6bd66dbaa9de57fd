use encoding::base64::codec::decode_bytes;
use encoding::base64::model::Dialect;
use encoding::base64::alphabet::Alphabet;
use encoding::base64::{Error, Standard, StandardNopad, UrlSafe, UrlSafeNopad, B64};
use encoding::Encoding;

fn all_four(text: &str) -> [Result<Vec<u8>, Error>; 4] {
    [
        B64::<Standard>::new().decode(text.as_bytes()),
        B64::<UrlSafe>::new().decode(text.as_bytes()),
        B64::<StandardNopad>::new().decode(text.as_bytes()),
        B64::<UrlSafeNopad>::new().decode(text.as_bytes()),
    ]
}

fn padded(text: &str) -> [Result<Vec<u8>, Error>; 2] {
    let [a, b, _, _] = all_four(text);
    [a, b]
}

fn unpadded(text: &str) -> [Result<Vec<u8>, Error>; 2] {
    let [_, _, c, d] = all_four(text);
    [c, d]
}

#[test]
fn empty_text_gives_empty_bytes() {
    for res in all_four("") {
        assert_eq!(res, Ok(Vec::new()));
    }
}

#[test]
fn known_vectors_padded_decode() {
    let engine = B64::<Standard>::new();
    assert_eq!(engine.decode(b"Zg=="), Ok(b"f".to_vec()));
    assert_eq!(engine.decode(b"Zm8="), Ok(b"fo".to_vec()));
    assert_eq!(engine.decode(b"Zm9v"), Ok(b"foo".to_vec()));
    assert_eq!(engine.decode(b"Zm9vYg=="), Ok(b"foob".to_vec()));
    assert_eq!(engine.decode(b"Zm9vYmE="), Ok(b"fooba".to_vec()));
    assert_eq!(engine.decode(b"Zm9vYmFy"), Ok(b"foobar".to_vec()));
    assert_eq!(engine.decode(b"QUJDREdFVEFKSEU="), Ok(b"ABCDGETAJHE".to_vec()));
}

#[test]
fn known_vectors_unpadded_decode() {
    let engine = B64::<UrlSafeNopad>::new();
    assert_eq!(engine.decode(b"Zg"), Ok(b"f".to_vec()));
    assert_eq!(engine.decode(b"Zm8"), Ok(b"fo".to_vec()));
    assert_eq!(engine.decode(b"Zm9v"), Ok(b"foo".to_vec()));
    assert_eq!(engine.decode(b"Zm9vYg"), Ok(b"foob".to_vec()));
    assert_eq!(engine.decode(b"Zm9vYmE"), Ok(b"fooba".to_vec()));
    assert_eq!(engine.decode(b"-_8"), Ok(vec![0xfb, 0xff]));
    assert_eq!(engine.decode(b"QUJDREdFVEFKSEU"), Ok(b"ABCDGETAJHE".to_vec()));
}

#[test]
fn one_pad_after_two_symbols_is_rejected() {
    for res in padded("QQ=") {
        assert!(matches!(res, Err(Error::InvalidLength) | Err(Error::InvalidPadding)));
        assert_eq!(res, Err(Error::InvalidPadding));
    }
}

#[test]
fn two_pads_after_two_symbols_are_accepted() {
    for res in padded("QQ==") {
        assert_eq!(res, Ok("A".as_bytes().to_vec()));
    }
}

#[test]
fn unpadded_variants_reject_a_pad_at_the_end() {
    for text in ["QQ==", "QQ=", "QUI=", "QUJD=", "=", "QUJDREdFVEFKSEU="] {
        for res in unpadded(text) {
            assert_eq!(res, Err(Error::InvalidPadding));
        }
    }
}

#[test]
fn exclamation_mark_is_an_invalid_symbol() {
    for text in ["!", "QQ!=", "QUJD!", "!QUJ", "Q!", "QQ=!", "!=", "=!", "!===", "QUJ!QUJD"] {
        for res in all_four(text) {
            assert_eq!(res, Err(Error::InvalidSymbol));
        }
    }
}

#[test]
fn symbols_of_the_other_alphabet_are_invalid() {
    assert_eq!(B64::<Standard>::new().decode(b"-_8="), Err(Error::InvalidSymbol));
    assert_eq!(B64::<StandardNopad>::new().decode(b"-_8"), Err(Error::InvalidSymbol));
    assert_eq!(B64::<UrlSafe>::new().decode(b"+/8="), Err(Error::InvalidSymbol));
    assert_eq!(B64::<UrlSafeNopad>::new().decode(b"+/8"), Err(Error::InvalidSymbol));
    assert_eq!(B64::<Standard>::new().decode(b"+/8="), Ok(vec![0xfb, 0xff]));
    assert_eq!(B64::<UrlSafe>::new().decode(b"-_8="), Ok(vec![0xfb, 0xff]));
}

#[test]
fn bytes_outside_ascii_and_blanks_are_invalid() {
    for res in all_four("QUJD QUJD") {
        assert_eq!(res, Err(Error::InvalidSymbol));
    }
    for res in all_four("QUJD\n") {
        assert_eq!(res, Err(Error::InvalidSymbol));
    }
    assert_eq!(B64::<Standard>::new().decode(&[0x51, 0x51, 0xc3, 0xa9]), Err(Error::InvalidSymbol));
}

#[test]
fn missing_padding_is_rejected() {
    for text in ["QQ", "QUI", "Zm9vYg", "Zm9vYmE"] {
        for res in padded(text) {
            assert_eq!(res, Err(Error::InvalidPadding));
        }
    }
}

#[test]
fn surplus_padding_is_rejected() {
    for text in ["QUJD=", "QUJD==", "QUJD====", "QUI==", "QQ===", "====", "="] {
        for res in padded(text) {
            assert_eq!(res, Err(Error::InvalidPadding));
        }
    }
}

#[test]
fn pad_inside_the_text_is_rejected() {
    for text in ["Q=QQ", "QQ=Q", "=QUJ", "QU=JQUJD", "QQ==QUJD"] {
        for res in all_four(text) {
            assert_eq!(res, Err(Error::InvalidPadding));
        }
    }
}

#[test]
fn one_symbol_left_over_is_an_invalid_length() {
    for text in ["Q", "QUJDQ", "QUJDREdFQ"] {
        for res in all_four(text) {
            assert_eq!(res, Err(Error::InvalidLength));
        }
    }
    for text in ["Q===", "QUJDQ==="] {
        for res in padded(text) {
            assert_eq!(res, Err(Error::InvalidLength));
        }
    }
}

#[test]
fn spare_bits_must_be_zero() {
    for res in padded("QR==") {
        assert_eq!(res, Err(Error::InvalidSymbol));
    }
    for res in padded("QUJ=") {
        assert_eq!(res, Err(Error::InvalidSymbol));
    }
    for res in unpadded("QR") {
        assert_eq!(res, Err(Error::InvalidSymbol));
    }
    for res in unpadded("QUJ") {
        assert_eq!(res, Err(Error::InvalidSymbol));
    }
    for res in unpadded("QQ") {
        assert_eq!(res, Ok(vec![0x41]));
    }
    for res in unpadded("QUI") {
        assert_eq!(res, Ok(vec![0x41, 0x42]));
    }
}

#[test]
fn symbols_are_judged_before_padding_and_length() {
    for res in unpadded("!=") {
        assert_eq!(res, Err(Error::InvalidSymbol));
    }
    for res in all_four("Q!QUJ") {
        assert_eq!(res, Err(Error::InvalidSymbol));
    }
    for res in all_four("Q=QUJ") {
        assert_eq!(res, Err(Error::InvalidPadding));
    }
}

#[test]
fn accepted_texts_are_the_encodings() {
    let engines = [
        Dialect { alphabet: Alphabet::Standard, padded: true },
        Dialect { alphabet: Alphabet::Standard, padded: false },
        Dialect { alphabet: Alphabet::UrlSafe, padded: true },
        Dialect { alphabet: Alphabet::UrlSafe, padded: false },
    ];
    let symbols = b"AQg/_=";
    for d in engines {
        for len in 0..=4usize {
            let mut index = vec![0usize; len];
            loop {
                let text: Vec<u8> = index.iter().map(|&i| symbols[i]).collect();
                if let Ok(bytes) = decode_bytes(d, &text) {
                    assert_eq!(encoding::base64::codec::encode_bytes(d, &bytes), text);
                }
                let mut pos = 0;
                while pos < len && index[pos] == symbols.len() - 1 {
                    index[pos] = 0;
                    pos += 1;
                }
                if pos == len {
                    break;
                }
                index[pos] += 1;
            }
        }
    }
}
