use std::str::FromStr;

use short_id::{
    AccountId, ChargeId, CustomerId, Identifier, ParseIdErrorKind, UserId, UserOrAccount,
    UserOrCharge,
};

#[test]
fn test_prefix() {
    let account_id = AccountId::generate().unwrap();
    assert_eq!(account_id.prefix(), "acct");
    assert_eq!(AccountId::prefixes(), ["acct"]);
    assert!(AccountId::is_valid_prefix("acct"));
    assert!(!AccountId::is_valid_prefix("acct_"));

    let user_id = UserId::generate().unwrap();
    assert_eq!(user_id.prefix(), "user");
    assert_eq!(UserId::prefixes(), ["user"]);
    assert!(UserId::is_valid_prefix("user"));
    assert!(!UserId::is_valid_prefix("user_"));

    let charge_id = ChargeId::generate().unwrap();
    assert_eq!(charge_id.prefix(), "ch");
    assert_eq!(ChargeId::prefixes(), ["ch", "py"]);
    assert!(ChargeId::is_valid_prefix("ch"));
    assert!(ChargeId::is_valid_prefix("py"));
    assert!(!AccountId::is_valid_prefix("ch_"));
    assert!(!AccountId::is_valid_prefix("py_"));
}

#[test]
fn test_enum() {
    let account_id: AccountId = "acct_C3M2XCLwa3LjkkH4V15muQ".parse().unwrap();
    let user_id: UserId = "user_C3M2XCLwa3LjkkH4V15muQ".parse().unwrap();

    let account_but_maybe_user = UserOrAccount::from_typed(account_id).unwrap();
    let user_but_maybe_account = UserOrAccount::from_typed(user_id).unwrap();

    assert_eq!(account_but_maybe_user.as_str(), account_id.as_str());
    assert_eq!(user_but_maybe_account.as_str(), user_id.as_str());

    assert_eq!(account_but_maybe_user, account_id);
    assert_eq!(account_but_maybe_user, "acct_C3M2XCLwa3LjkkH4V15muQ");

    let user_but_maybe_charge = UserOrCharge::from_typed(user_id).unwrap();

    assert_eq!(user_but_maybe_charge.as_str(), user_but_maybe_account.as_str());

    let bad_enum: Result<UserOrAccount, _> = "ch_C3M2XCLwa3LjkkH4V15muQ".parse();
    assert!(bad_enum.is_err())
}

#[test]
fn tests_test_round_trips() {
    let account_id = AccountId::generate().unwrap();
    let account_id_str = account_id.as_str().to_string();
    let account_id2 = AccountId::from_str(&account_id_str).unwrap();
    assert_eq!(account_id, account_id2);

    let user_id = UserId::generate().unwrap();
    let user_id_str = user_id.as_str();
    let user_id2 = UserId::from_str(&user_id_str).unwrap();
    assert_eq!(user_id, user_id2);
}

#[test]
fn wrong_prefix_is_a_mismatch_naming_the_expected_one() {
    let err = CustomerId::from_str("acct_X").unwrap_err();
    assert_eq!(err.kind, ParseIdErrorKind::PrefixMismatch);
    assert_eq!(err.typename, "CustomerId");
    assert!(err.message().contains("\"cus_\""));
}

#[test]
fn allowed_prefix_with_bad_body_is_malformed() {
    let err = CustomerId::from_str("cus_a-b").unwrap_err();
    assert_eq!(err.kind, ParseIdErrorKind::Malformed);
    assert_eq!(err.message(), "invalid `CustomerId`, invalid identifier");
    let err = CustomerId::from_str("cus_").unwrap_err();
    assert_eq!(err.kind, ParseIdErrorKind::Malformed);
}

#[test]
fn sum_dispatch_picks_first_matching_variant() {
    let id = UserOrCharge::from_str("py_123").unwrap();
    assert_eq!(id.variant(), 0);
    assert_eq!(id.as_str(), "py_123");
    let id = UserOrCharge::from_str("user_123").unwrap();
    assert_eq!(id.variant(), 1);
    let err = UserOrCharge::from_str("zz_123").unwrap_err();
    assert_eq!(err.kind, ParseIdErrorKind::UnknownPrefix);
    assert_eq!(err.message(), "invalid `UserOrCharge`, unknown id prefix");
}

#[test]
fn sum_parse_without_separator_is_unknown_prefix() {
    let err = UserOrCharge::from_str("ch123").unwrap_err();
    assert_eq!(err.kind, ParseIdErrorKind::UnknownPrefix);
    let err = UserOrCharge::from_str("ch_!").unwrap_err();
    assert_eq!(err.kind, ParseIdErrorKind::Malformed);
}

#[test]
fn sum_from_bytes_dispatches() {
    let id = UserOrCharge::from_bytes(b"ch_abc").unwrap();
    assert_eq!(id.variant(), 0);
    assert_eq!(id.as_bytes(), b"ch_abc");
    assert!(UserOrCharge::from_bytes(b"acct_abc").is_err());
    assert!(UserOrCharge::from_bytes(b"user_").is_err());
}

#[test]
fn typed_from_bytes_checks_prefix_then_grammar() {
    assert!(ChargeId::from_bytes(b"py_1").is_ok());
    assert!(ChargeId::from_bytes(b"pyr_1").is_err());
    assert!(ChargeId::from_bytes(b"ch_").is_err());
    assert!(ChargeId::from_bytes(b"ch").is_err());
    assert!(ChargeId::is_valid_prefix_bytes(b"py"));
    assert!(!ChargeId::is_valid_prefix_bytes(b"cus"));
}

#[test]
fn typed_generation_uses_default_prefix() {
    assert_eq!(ChargeId::default_prefix(), "ch");
    let id = ChargeId::generate_from(62).unwrap();
    assert_eq!(id.as_str(), "ch_10");
    assert_eq!(id.inner(), &Identifier::from_str("ch_10").unwrap());
}

#[test]
fn typed_ordering_and_equality() {
    let a = UserId::from_str("user_a").unwrap();
    let b = UserId::from_str("user_b").unwrap();
    assert!(a < b);
    assert!(a != b);
    assert_eq!(a, "user_a");
}
