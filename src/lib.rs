//! Compact prefixed identifiers such as `cus_C3M2XCLwa3LjkkH4V15muQ`.
//!
//! An [`Identifier`] holds a short ASCII text `prefix_suffix` inline in 32
//! bytes; its grammar is `^[A-Za-z0-9]{1,8}_[A-Za-z0-9]{1,22}$`. Typed
//! identifiers ([`TypedId`]) bind an identifier to the prefixes of one kind of
//! object, and sum identifiers ([`SumId`]) pick among several kinds by
//! prefix, the first that matches winning.

mod encoding;
mod free_form;
mod grammar;
mod identifier;
mod kinds;
mod laws;
mod sum;
mod typed;

pub use encoding::{ascii_chars, base62_digit, base62_digits, pow62};
pub use free_form::{invoice_sentinel, InvoiceId, ProductId};
pub use grammar::{
    all_alnum, byte_order, bytes_equal, compare_bytes, find_separator, id_prefix, id_suffix,
    is_alnum, is_alnum_byte, is_valid_identifier, is_valid_prefix_text, join_id, separator_index,
    valid_id, valid_id_at, valid_prefix, valid_suffix, MAX_PREFIX_LEN, MAX_SUFFIX_LEN, SEPARATOR,
};
pub use identifier::{all_ascii, zero_from, Identifier, InvalidIdentifierError};
pub use kinds::{
    AccountId, AccountKind, AlipayAccountId, AlipayAccountKind, BankAccountId, BankAccountKind,
    BankTokenId, BankTokenKind, CardId, CardKind, CardTokenId, CardTokenKind, ChargeId, ChargeKind,
    CustomerId, CustomerKind, InvoiceKind, InvoiceTypedId, PaymentMethodId, PaymentMethodKind,
    PaymentSourceId, PaymentSourceKind, PriceId, PriceKind, RefundId, RefundKind, SourceId,
    SourceKind, SubscriptionId, SubscriptionKind, TokenId, TokenKind, UserId, UserKind,
    UserOrAccount, UserOrAccountKind, UserOrCharge, UserOrChargeKind,
};
pub use laws::{
    clearly_malformed, law_bytes_round_trip, law_generated_from_draw, law_generated_valid,
    law_invoice_sentinel, law_rejection, law_text_round_trip,
};
pub use sum::{dispatch, first_variant, some_variant, SumId, SumKind};
pub use typed::{
    first_segment, has_prefix_sep, split_first_segment, starts_with_any, IdKind, ParseIdError,
    ParseIdErrorKind, TypedId,
};
