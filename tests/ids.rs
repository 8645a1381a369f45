use short_id::{
    ChargeId, CustomerId, InvoiceId, ParseIdError, PaymentMethodId, PaymentSourceId, PriceId,
    ProductId, RefundId, SubscriptionId, TokenId,
};

fn round_trip_invoice(id: &str) {
    let parsed = InvoiceId::from_str(id).expect("Could not parse id");
    let text = parsed.as_str().to_string();
    let again = InvoiceId::from_str(&text).expect("Could not deserialize id");
    assert_eq!(again.as_str(), id);
}

#[test]
fn test_empty_invoice_id_default() {
    for body in ["", "in_"] {
        let deser = InvoiceId::from_str(body).expect("Could not deser");
        assert_eq!(deser, InvoiceId::none());
    }
}

#[test]
fn test_ser_de_roundtrip() {
    // InvoiceId special cased
    for id in ["in_12345", "in_"] {
        round_trip_invoice(id);
    }

    // Single prefix
    let parsed = PriceId::from_str("price_abc").expect("Could not parse id");
    let again = PriceId::from_str(parsed.as_str()).expect("Could not deserialize id");
    assert_eq!(again.as_str(), "price_abc");

    // Case where multiple possible prefixes
    for id in ["re_bcd", "pyr_123"] {
        let parsed = RefundId::from_str(id).expect("Could not parse id");
        let again = RefundId::from_str(parsed.as_str()).expect("Could not deserialize id");
        assert_eq!(again.as_str(), id);
    }

    // Case where id can be anything
    for id in ["anything", ""] {
        let parsed = ProductId::from_str(id).expect("Could not parse id");
        let again = ProductId::from_str(parsed.as_str()).expect("Could not deserialize id");
        assert_eq!(again.as_str(), id);
    }

    // Case where enum id
    for id in ["tok_123", "btok_456"] {
        let parsed = TokenId::from_str(id).expect("Could not parse id");
        let again = TokenId::from_str(parsed.as_str()).expect("Could not deserialize id");
        assert_eq!(again.as_str(), id);
    }
}

#[test]
fn test_deser_err() {
    // InvoiceId special cased
    assert!(InvoiceId::from_str("in").is_err());

    // Single prefix
    for id in ["sub", ""] {
        assert!(SubscriptionId::from_str(id).is_err());
    }

    // Case where multiple possible prefixes
    for id in ["abc_bcd", "pyr_123"] {
        assert!(PaymentMethodId::from_str(id).is_err());
    }

    // Case where enum id
    for id in ["tok_123", "btok_456"] {
        assert!(PaymentSourceId::from_str(id).is_err());
    }
}

#[test]
fn test_parse_customer() {
    assert!("cus_123".parse::<CustomerId>().is_ok());
    let bad_parse = "zzz_123".parse::<CustomerId>();
    assert!(bad_parse.is_err());
    if let Err(err) = bad_parse {
        let err: ParseIdError = err;
        assert_eq!(
            err.message(),
            "invalid `CustomerId`, expected id to start with \"cus_\""
        );
    }
}

#[test]
fn test_parse_charge() {
    assert!("ch_123".parse::<ChargeId>().is_ok());
    assert!("py_123".parse::<ChargeId>().is_ok());
    let bad_parse = "zz_123".parse::<ChargeId>();
    assert!(bad_parse.is_err());
    if let Err(err) = bad_parse {
        assert_eq!(
            err.message(),
            "invalid `ChargeId`, expected id to start with \"ch_\" or \"py_\""
        );
    }
}

#[test]
fn invoice_sentinel_text_and_real_ids() {
    let none = InvoiceId::none();
    assert!(none.is_none());
    assert_eq!(none.as_str(), "in_");
    let real = InvoiceId::from_str("in_42").unwrap();
    assert!(!real.is_none());
    assert_eq!(real.as_str(), "in_42");
    assert_ne!(real, none);
    assert!(InvoiceId::from_str("ch_42").is_err());
}

#[test]
fn payment_source_variants_in_order() {
    let card = PaymentSourceId::from_str("card_1").unwrap();
    assert_eq!(card.variant(), 2);
    let src = PaymentSourceId::from_str("src_1").unwrap();
    assert_eq!(src.variant(), 4);
    let token = TokenId::from_str("btok_9").unwrap();
    assert_eq!(token.variant(), 1);
}
