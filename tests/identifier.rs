use short_id::{Identifier, InvalidIdentifierError};

#[test]
fn identifier_test_round_trips() {
    let id = Identifier::generate("test").unwrap();
    let id_str = id.as_str();
    let id2 = Identifier::from_str(id_str).unwrap();
    assert_eq!(id, id2);

    let id = "user_C3M2XCLwa3LjkkH4V15muQ";
    let id2 = Identifier::from_str(id).unwrap();
    assert_eq!(id, id2.as_str());

    let id = "u_C";
    let id2 = Identifier::from_str(id).unwrap();
    assert_eq!(id, id2.as_str());

    let id = "useruser_C3M2XCLwa3LjkkH4V15muQ";
    let id2 = Identifier::from_str(id).unwrap();
    assert_eq!(id, id2.as_str());

    let id = b"useruser_C3M2XCLwa3LjkkH4V15muQ";
    let id2 = Identifier::from_bytes(id).unwrap();
    assert_eq!(id, id2.as_bytes());
}

#[test]
fn test_invalid() {
    let id = "_C3M2XCLwa3LjkkH4V15muQ";
    assert!(Identifier::from_str(id).is_err());

    let id = "test_";
    assert!(Identifier::from_str(id).is_err());

    let id = "";
    assert!(Identifier::from_str(id).is_err());

    let id = "testtestt_C3M2X";
    assert!(Identifier::from_str(id).is_err());

    let id = "t_C3M2XCLwa3LjkkH4V15muQa";
    assert!(Identifier::from_str(id).is_err());

    let id = "\u{f0}\u{178}\u{2dc}\u{160}_C3M2XCLwa3LjkkH4V15muQ";
    assert!(Identifier::from_str(id).is_err());
}

#[test]
fn test_partial_eq() {
    let id = "test_C3M2XCLwa3LjkkH4V15muQ";
    let id2 = Identifier::from_str(id).unwrap();

    assert!(id2.eq(id));
    assert!(id2.eq(&id.to_string()));
    assert!(id2 == id);
    assert!(id2 == id);
}

#[test]
fn parse_gives_prefix_suffix_and_length() {
    let id = Identifier::from_str("cus_C3M2XCLwa3LjkkH4V15muQ").unwrap();
    assert_eq!(id.prefix(), "cus");
    assert_eq!(id.suffix(), "C3M2XCLwa3LjkkH4V15muQ");
    assert_eq!(id.len(), 26);
}

#[test]
fn shortest_identifier_parses() {
    let id = Identifier::from_str("u_C").unwrap();
    assert_eq!(id.len(), 3);
    assert_eq!(id.prefix(), "u");
    assert_eq!(id.suffix(), "C");
}

#[test]
fn nine_byte_prefix_is_refused() {
    assert_eq!(Identifier::from_str("testtestt_C3M2X"), Err(InvalidIdentifierError));
}

#[test]
fn longest_identifier_parses() {
    let text = "abcdefgh_ABCDEFGHIJKLMNOPQRSTUV";
    assert_eq!(text.len(), 31);
    let id = Identifier::from_str(text).unwrap();
    assert_eq!(id.as_str(), text);
    assert!(Identifier::from_str("abcdefgh_ABCDEFGHIJKLMNOPQRSTUVW").is_err());
}

#[test]
fn rejection_shapes() {
    for text in [
        "",
        "abc",
        "_abc",
        "abc_",
        "abcdefghi_x",
        "a_ABCDEFGHIJKLMNOPQRSTUVW",
        "a_bc_d",
        "a-b_c",
        "ab_c d",
        "a__b",
    ] {
        assert!(Identifier::from_str(text).is_err(), "{text}");
        assert!(Identifier::from_bytes(text.as_bytes()).is_err(), "{text}");
    }
    assert!(Identifier::from_bytes(&[b'a', b'_', 0xff]).is_err());
}

#[test]
fn byte_round_trip() {
    let b: &[u8] = b"ab12_XYZ";
    let id = Identifier::from_bytes(b).unwrap();
    assert_eq!(id.as_bytes(), b);
    assert_eq!(id.as_str(), "ab12_XYZ");
}

#[test]
fn unchecked_constructors_keep_text() {
    let a = Identifier::from_bytes_unchecked(b"ab_cd");
    let b = Identifier::from_str_unchecked("ab_cd");
    assert_eq!(a, b);
    assert_eq!(a.as_str(), "ab_cd");
}

#[test]
fn generation_from_draw_is_exact() {
    assert_eq!(Identifier::generate_from("cus", 0).unwrap().as_str(), "cus_0");
    assert_eq!(Identifier::generate_from("cus", 61).unwrap().as_str(), "cus_z");
    assert_eq!(Identifier::generate_from("cus", 62).unwrap().as_str(), "cus_10");
    assert_eq!(Identifier::generate_from("cus", 36).unwrap().as_str(), "cus_a");
    assert_eq!(Identifier::generate_from("cus", 10).unwrap().as_str(), "cus_A");
    let max = Identifier::generate_from("abcdefgh", u128::MAX).unwrap();
    assert_eq!(max.as_str(), "abcdefgh_7n42DGM5Tflk9n8mt7Fhc7");
    assert_eq!(max.len(), 31);
}

#[test]
fn generation_refuses_bad_prefix() {
    for p in ["", "abcdefghi", "a_b", "a-b", "\u{e9}"] {
        assert!(Identifier::generate(p).is_err(), "{p}");
        assert!(Identifier::generate_from(p, 5).is_err(), "{p}");
    }
}

#[test]
fn generated_identifier_has_prefix() {
    let id = Identifier::generate("acct").unwrap();
    assert_eq!(id.prefix(), "acct");
    assert!(Identifier::from_str(id.as_str()).is_ok());
    assert!(id.suffix().len() >= 1 && id.suffix().len() <= 22);
}

#[test]
fn generated_suffixes_differ() {
    let a = Identifier::generate("p").unwrap();
    let b = Identifier::generate("p").unwrap();
    assert_ne!(a.suffix(), b.suffix());
}

#[test]
fn ordering_is_bytewise() {
    let a = Identifier::from_str("ab_c").unwrap();
    let b = Identifier::from_str("ab_d").unwrap();
    let c = Identifier::from_str("ab_cd").unwrap();
    assert!(a < b);
    assert!(a < c);
    assert!(c < b);
    assert_eq!(a.partial_cmp(&a), Some(std::cmp::Ordering::Equal));
    let upper = Identifier::from_str("Z_a").unwrap();
    let lower = Identifier::from_str("a_a").unwrap();
    assert!(upper < lower);
}

#[test]
fn invalid_identifier_error_text() {
    assert_eq!(InvalidIdentifierError.message(), "invalid identifier");
}
