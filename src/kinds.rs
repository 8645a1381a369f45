use vstd::prelude::*;
use vstd::string::StringSliceAdditionalSpecFns;
use crate::sum::{SumId, SumKind};
use crate::typed::{IdKind, TypedId};

verus! {

/// Prefix `acct`.
#[derive(Debug, Clone, Copy)]
pub struct AccountKind;

impl IdKind for AccountKind {
    open spec fn prefix_set() -> Seq<Seq<u8>> {
        seq!["acct".spec_bytes()]
    }

    fn prefixes() -> (r: Vec<&'static str>) {
        vec!["acct"]
    }

    fn name() -> &'static str {
        "AccountId"
    }

    fn expectation() -> &'static str {
        "expected id to start with \"acct_\""
    }
}

pub type AccountId = TypedId<AccountKind>;

/// Prefix `user`.
#[derive(Debug, Clone, Copy)]
pub struct UserKind;

impl IdKind for UserKind {
    open spec fn prefix_set() -> Seq<Seq<u8>> {
        seq!["user".spec_bytes()]
    }

    fn prefixes() -> (r: Vec<&'static str>) {
        vec!["user"]
    }

    fn name() -> &'static str {
        "UserId"
    }

    fn expectation() -> &'static str {
        "expected id to start with \"user_\""
    }
}

pub type UserId = TypedId<UserKind>;

/// Prefix `cus`.
#[derive(Debug, Clone, Copy)]
pub struct CustomerKind;

impl IdKind for CustomerKind {
    open spec fn prefix_set() -> Seq<Seq<u8>> {
        seq!["cus".spec_bytes()]
    }

    fn prefixes() -> (r: Vec<&'static str>) {
        vec!["cus"]
    }

    fn name() -> &'static str {
        "CustomerId"
    }

    fn expectation() -> &'static str {
        "expected id to start with \"cus_\""
    }
}

pub type CustomerId = TypedId<CustomerKind>;

/// Prefixes `ch`, `py`.
#[derive(Debug, Clone, Copy)]
pub struct ChargeKind;

impl IdKind for ChargeKind {
    open spec fn prefix_set() -> Seq<Seq<u8>> {
        seq!["ch".spec_bytes(), "py".spec_bytes()]
    }

    fn prefixes() -> (r: Vec<&'static str>) {
        vec!["ch", "py"]
    }

    fn name() -> &'static str {
        "ChargeId"
    }

    fn expectation() -> &'static str {
        "expected id to start with \"ch_\" or \"py_\""
    }
}

pub type ChargeId = TypedId<ChargeKind>;

/// Invoices: prefix `in`; see `InvoiceId` for the form with an empty sentinel.
#[derive(Debug, Clone, Copy)]
pub struct InvoiceKind;

impl IdKind for InvoiceKind {
    open spec fn prefix_set() -> Seq<Seq<u8>> {
        seq!["in".spec_bytes()]
    }

    fn prefixes() -> (r: Vec<&'static str>) {
        vec!["in"]
    }

    fn name() -> &'static str {
        "InvoiceId"
    }

    fn expectation() -> &'static str {
        "expected id to start with \"in_\""
    }
}

pub type InvoiceTypedId = TypedId<InvoiceKind>;

/// Prefix `price`.
#[derive(Debug, Clone, Copy)]
pub struct PriceKind;

impl IdKind for PriceKind {
    open spec fn prefix_set() -> Seq<Seq<u8>> {
        seq!["price".spec_bytes()]
    }

    fn prefixes() -> (r: Vec<&'static str>) {
        vec!["price"]
    }

    fn name() -> &'static str {
        "PriceId"
    }

    fn expectation() -> &'static str {
        "expected id to start with \"price_\""
    }
}

pub type PriceId = TypedId<PriceKind>;

/// Prefixes `re`, `pyr`.
#[derive(Debug, Clone, Copy)]
pub struct RefundKind;

impl IdKind for RefundKind {
    open spec fn prefix_set() -> Seq<Seq<u8>> {
        seq!["re".spec_bytes(), "pyr".spec_bytes()]
    }

    fn prefixes() -> (r: Vec<&'static str>) {
        vec!["re", "pyr"]
    }

    fn name() -> &'static str {
        "RefundId"
    }

    fn expectation() -> &'static str {
        "expected id to start with \"re_\" or \"pyr_\""
    }
}

pub type RefundId = TypedId<RefundKind>;

/// Prefix `sub`.
#[derive(Debug, Clone, Copy)]
pub struct SubscriptionKind;

impl IdKind for SubscriptionKind {
    open spec fn prefix_set() -> Seq<Seq<u8>> {
        seq!["sub".spec_bytes()]
    }

    fn prefixes() -> (r: Vec<&'static str>) {
        vec!["sub"]
    }

    fn name() -> &'static str {
        "SubscriptionId"
    }

    fn expectation() -> &'static str {
        "expected id to start with \"sub_\""
    }
}

pub type SubscriptionId = TypedId<SubscriptionKind>;

/// Prefixes `pm`, `card`, `src`, `ba`.
#[derive(Debug, Clone, Copy)]
pub struct PaymentMethodKind;

impl IdKind for PaymentMethodKind {
    open spec fn prefix_set() -> Seq<Seq<u8>> {
        seq!["pm".spec_bytes(), "card".spec_bytes(), "src".spec_bytes(), "ba".spec_bytes()]
    }

    fn prefixes() -> (r: Vec<&'static str>) {
        vec!["pm", "card", "src", "ba"]
    }

    fn name() -> &'static str {
        "PaymentMethodId"
    }

    fn expectation() -> &'static str {
        "expected id to start with \"pm_\" or \"card_\" or \"src_\" or \"ba_\""
    }
}

pub type PaymentMethodId = TypedId<PaymentMethodKind>;

/// Prefix `aliacc`.
#[derive(Debug, Clone, Copy)]
pub struct AlipayAccountKind;

impl IdKind for AlipayAccountKind {
    open spec fn prefix_set() -> Seq<Seq<u8>> {
        seq!["aliacc".spec_bytes()]
    }

    fn prefixes() -> (r: Vec<&'static str>) {
        vec!["aliacc"]
    }

    fn name() -> &'static str {
        "AlipayAccountId"
    }

    fn expectation() -> &'static str {
        "expected id to start with \"aliacc_\""
    }
}

pub type AlipayAccountId = TypedId<AlipayAccountKind>;

/// Prefixes `ba`, `card`.
#[derive(Debug, Clone, Copy)]
pub struct BankAccountKind;

impl IdKind for BankAccountKind {
    open spec fn prefix_set() -> Seq<Seq<u8>> {
        seq!["ba".spec_bytes(), "card".spec_bytes()]
    }

    fn prefixes() -> (r: Vec<&'static str>) {
        vec!["ba", "card"]
    }

    fn name() -> &'static str {
        "BankAccountId"
    }

    fn expectation() -> &'static str {
        "expected id to start with \"ba_\" or \"card_\""
    }
}

pub type BankAccountId = TypedId<BankAccountKind>;

/// Prefix `card`.
#[derive(Debug, Clone, Copy)]
pub struct CardKind;

impl IdKind for CardKind {
    open spec fn prefix_set() -> Seq<Seq<u8>> {
        seq!["card".spec_bytes()]
    }

    fn prefixes() -> (r: Vec<&'static str>) {
        vec!["card"]
    }

    fn name() -> &'static str {
        "CardId"
    }

    fn expectation() -> &'static str {
        "expected id to start with \"card_\""
    }
}

pub type CardId = TypedId<CardKind>;

/// Prefix `src`.
#[derive(Debug, Clone, Copy)]
pub struct SourceKind;

impl IdKind for SourceKind {
    open spec fn prefix_set() -> Seq<Seq<u8>> {
        seq!["src".spec_bytes()]
    }

    fn prefixes() -> (r: Vec<&'static str>) {
        vec!["src"]
    }

    fn name() -> &'static str {
        "SourceId"
    }

    fn expectation() -> &'static str {
        "expected id to start with \"src_\""
    }
}

pub type SourceId = TypedId<SourceKind>;

/// Prefix `tok`.
#[derive(Debug, Clone, Copy)]
pub struct CardTokenKind;

impl IdKind for CardTokenKind {
    open spec fn prefix_set() -> Seq<Seq<u8>> {
        seq!["tok".spec_bytes()]
    }

    fn prefixes() -> (r: Vec<&'static str>) {
        vec!["tok"]
    }

    fn name() -> &'static str {
        "CardTokenId"
    }

    fn expectation() -> &'static str {
        "expected id to start with \"tok_\""
    }
}

pub type CardTokenId = TypedId<CardTokenKind>;

/// Prefix `btok`.
#[derive(Debug, Clone, Copy)]
pub struct BankTokenKind;

impl IdKind for BankTokenKind {
    open spec fn prefix_set() -> Seq<Seq<u8>> {
        seq!["btok".spec_bytes()]
    }

    fn prefixes() -> (r: Vec<&'static str>) {
        vec!["btok"]
    }

    fn name() -> &'static str {
        "BankTokenId"
    }

    fn expectation() -> &'static str {
        "expected id to start with \"btok_\""
    }
}

pub type BankTokenId = TypedId<BankTokenKind>;

/// Variants, in order: `AccountId`, `UserId`.
#[derive(Debug, Clone, Copy)]
pub struct UserOrAccountKind;

impl SumKind for UserOrAccountKind {
    open spec fn variant_sets() -> Seq<Seq<Seq<u8>>> {
        seq![AccountKind::prefix_set(), UserKind::prefix_set()]
    }

    fn variants() -> (r: Vec<Vec<&'static str>>) {
        vec![AccountKind::prefixes(), UserKind::prefixes()]
    }

    fn name() -> &'static str {
        "UserOrAccount"
    }
}

pub type UserOrAccount = SumId<UserOrAccountKind>;

/// Variants, in order: `ChargeId`, `UserId`.
#[derive(Debug, Clone, Copy)]
pub struct UserOrChargeKind;

impl SumKind for UserOrChargeKind {
    open spec fn variant_sets() -> Seq<Seq<Seq<u8>>> {
        seq![ChargeKind::prefix_set(), UserKind::prefix_set()]
    }

    fn variants() -> (r: Vec<Vec<&'static str>>) {
        vec![ChargeKind::prefixes(), UserKind::prefixes()]
    }

    fn name() -> &'static str {
        "UserOrCharge"
    }
}

pub type UserOrCharge = SumId<UserOrChargeKind>;

/// Variants, in order: `CardTokenId`, `BankTokenId`.
#[derive(Debug, Clone, Copy)]
pub struct TokenKind;

impl SumKind for TokenKind {
    open spec fn variant_sets() -> Seq<Seq<Seq<u8>>> {
        seq![CardTokenKind::prefix_set(), BankTokenKind::prefix_set()]
    }

    fn variants() -> (r: Vec<Vec<&'static str>>) {
        vec![CardTokenKind::prefixes(), BankTokenKind::prefixes()]
    }

    fn name() -> &'static str {
        "TokenId"
    }
}

pub type TokenId = SumId<TokenKind>;

/// Variants, in order: `AccountId`, `AlipayAccountId`, `BankAccountId`, `CardId`, `SourceId`.
#[derive(Debug, Clone, Copy)]
pub struct PaymentSourceKind;

impl SumKind for PaymentSourceKind {
    open spec fn variant_sets() -> Seq<Seq<Seq<u8>>> {
        seq![
            AccountKind::prefix_set(),
            AlipayAccountKind::prefix_set(),
            BankAccountKind::prefix_set(),
            CardKind::prefix_set(),
            SourceKind::prefix_set(),
        ]
    }

    fn variants() -> (r: Vec<Vec<&'static str>>) {
        vec![
            AccountKind::prefixes(),
            AlipayAccountKind::prefixes(),
            BankAccountKind::prefixes(),
            CardKind::prefixes(),
            SourceKind::prefixes(),
        ]
    }

    fn name() -> &'static str {
        "PaymentSourceId"
    }
}

pub type PaymentSourceId = SumId<PaymentSourceKind>;

} // verus!
