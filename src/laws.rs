use vstd::prelude::*;
use vstd::string::StringSliceAdditionalSpecFns;
use vstd::utf8::{
    encode_scalar, encode_utf8, has_width_1_encoding, is_ascii_chars, is_ascii_chars_encode_utf8,
};
use crate::encoding::ascii_chars;
use crate::free_form::InvoiceId;
use crate::grammar::{
    id_prefix, is_alnum, lemma_id_parts, lemma_join_valid, separator_index, valid_id,
    valid_prefix, MAX_PREFIX_LEN, MAX_SUFFIX_LEN, SEPARATOR,
};
use crate::identifier::{all_ascii, Identifier, InvalidIdentifierError};
use crate::typed::first_segment;

verus! {

/// Text whose UTF-8 bytes are all below 128 is ASCII, one character per byte.
proof fn lemma_ascii_text(c: Seq<char>)
    requires
        all_ascii(encode_utf8(c)),
    ensures
        is_ascii_chars(c),
        c == ascii_chars(encode_utf8(c)),
    decreases c.len(),
{
    if c.len() > 0 {
        let b = encode_utf8(c);
        let v = c[0] as u32;
        let head = encode_scalar(v);
        let rest = encode_utf8(c.drop_first());
        assert(b == head + rest);
        assert(b[0] == head[0]);
        if !has_width_1_encoding(v) {
            let x = ((v >> 6) & 0x1F) as u8;
            let y = ((v >> 12) & 0x0F) as u8;
            let z = ((v >> 18) & 0x7) as u8;
            assert(0xC0u8 | x >= 128) by (bit_vector);
            assert(0xE0u8 | y >= 128) by (bit_vector);
            assert(0xF0u8 | z >= 128) by (bit_vector);
            assert(false);
        }
        assert(head.len() == 1);
        assert forall|i: int| 0 <= i < rest.len() implies #[trigger] rest[i] < 128 by {
            assert(b[i + 1] == rest[i]);
        }
        lemma_ascii_text(c.drop_first());
        vstd::utf8::char_u32_cast(c[0], v);
        assert(c[0] <= '\u{7f}');
        assert forall|i: int| 0 <= i < c.len() implies '\0' <= #[trigger] c[i] <= '\u{7f}' by {
            if i > 0 {
                assert(c.drop_first()[i - 1] == c[i]);
            }
        }
    }
    is_ascii_chars_encode_utf8(c);
    assert(c =~= ascii_chars(encode_utf8(c)));
}

/// Parsing a valid identifier text with `from_str` succeeds, and `as_str` on
/// the result gives back the same text.
pub proof fn law_text_round_trip(
    s: &str,
    parsed: Result<Identifier, InvalidIdentifierError>,
    text: &str,
)
    requires
        valid_id(s.spec_bytes()),
        call_ensures(Identifier::from_str, (s,), parsed),
        parsed matches Ok(id) ==> call_ensures(Identifier::as_str, (&id,), text),
    ensures
        parsed is Ok,
        text@ == s@,
{
    lemma_id_parts(s.spec_bytes());
    let b = s.spec_bytes();
    let i = separator_index(b);
    assert forall|k: int| 0 <= k < b.len() implies #[trigger] b[k] < 128 by {
        if k < i {
            assert(b.take(i)[k] == b[k]);
        } else if k > i {
            assert(b.skip(i + 1)[k - i - 1] == b[k]);
        }
    }
    lemma_ascii_text(s@);
}

/// Parsing valid identifier bytes with `from_bytes` succeeds, and `as_bytes`
/// on the result gives back the same bytes.
pub proof fn law_bytes_round_trip(
    b: &[u8],
    parsed: Result<Identifier, InvalidIdentifierError>,
    out: &[u8],
)
    requires
        valid_id(b@),
        call_ensures(Identifier::from_bytes, (b,), parsed),
        parsed matches Ok(id) ==> call_ensures(Identifier::as_bytes, (&id,), out),
    ensures
        parsed is Ok,
        out@ == b@,
{
}

/// For a valid prefix and any 128-bit draw, generation succeeds with an
/// identifier that follows the grammar and has exactly that prefix.
pub proof fn law_generated_from_draw(p: &str, n: u128, r: Result<Identifier, InvalidIdentifierError>)
    requires
        valid_prefix(p.spec_bytes()),
        call_ensures(Identifier::generate_from, (p, n), r),
    ensures
        r matches Ok(id) && valid_id(id@) && id_prefix(id@) == p.spec_bytes(),
{
    crate::encoding::lemma_base62_u128(n);
    lemma_join_valid(p.spec_bytes(), crate::encoding::base62_digits(n as nat));
}

/// Whatever the random source gave, an identifier that `generate` returns
/// follows the grammar and has exactly the requested prefix.
pub proof fn law_generated_valid(p: &str, r: Result<Identifier, InvalidIdentifierError>)
    requires
        valid_prefix(p.spec_bytes()),
        call_ensures(Identifier::generate, (p,), r),
        r is Ok,
    ensures
        r matches Ok(id) && valid_id(id@) && id_prefix(id@) == p.spec_bytes(),
{
    let id = r->Ok_0;
    let n = choose|n: u128| id@ == crate::grammar::join_id(p.spec_bytes(), crate::encoding::base62_digits(n as nat));
    crate::encoding::lemma_base62_u128(n);
    lemma_join_valid(p.spec_bytes(), crate::encoding::base62_digits(n as nat));
}

/// Bytes that `from_bytes` must refuse: empty; without a separator; a part
/// before the first separator that is empty or longer than 8; a part after
/// it that is empty or longer than 22; or any byte that is neither a letter,
/// a digit nor that one separator.
pub open spec fn clearly_malformed(b: Seq<u8>) -> bool {
    let has_sep = exists|k: int| 0 <= k < b.len() && b[k] == SEPARATOR;
    let head = first_segment(b).len();
    ||| b.len() == 0
    ||| !has_sep
    ||| head == 0
    ||| head > MAX_PREFIX_LEN
    ||| b.len() - head - 1 == 0
    ||| b.len() - head - 1 > MAX_SUFFIX_LEN
    ||| exists|k: int| 0 <= k < b.len() && k != head && !is_alnum(#[trigger] b[k])
}

/// Each malformed shape is refused by `from_bytes`.
pub proof fn law_rejection(b: &[u8], r: Result<Identifier, InvalidIdentifierError>)
    requires
        clearly_malformed(b@),
        call_ensures(Identifier::from_bytes, (b,), r),
    ensures
        r is Err,
{
    if valid_id(b@) {
        crate::typed::lemma_first_segment_prefix(b@);
        lemma_id_parts(b@);
        let i = separator_index(b@);
        assert(b@[i] == SEPARATOR);
        assert(first_segment(b@).len() == i);
        if exists|k: int| 0 <= k < b@.len() && k != i && !is_alnum(#[trigger] b@[k]) {
            let k = choose|k: int| 0 <= k < b@.len() && k != i && !is_alnum(#[trigger] b@[k]);
            if k < i {
                assert(b@.take(i)[k] == b@[k]);
            } else {
                assert(b@.skip(i + 1)[k - i - 1] == b@[k]);
            }
        }
    }
}

/// Empty text reads as the invoice sentinel; the sentinel's text is `in_`,
/// and reading that text gives the sentinel again.
pub proof fn law_invoice_sentinel(
    empty: &str,
    first: Result<InvoiceId, crate::typed::ParseIdError>,
    text: &str,
    second: Result<InvoiceId, crate::typed::ParseIdError>,
)
    requires
        empty@.len() == 0,
        call_ensures(InvoiceId::from_str, (empty,), first),
        first matches Ok(v) ==> call_ensures(InvoiceId::as_str, (&v,), text),
        call_ensures(InvoiceId::from_str, (text,), second),
    ensures
        first matches Ok(v) && v@ is None,
        text.spec_bytes() == "in_".spec_bytes(),
        second matches Ok(w) && w@ is None,
{
    assert(empty.spec_bytes().len() == 0);
}

} // verus!
