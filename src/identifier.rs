use vstd::prelude::*;
use vstd::string::StringSliceAdditionalSpecFns;
use vstd::utf8::{encode_utf8, is_ascii_chars, is_ascii_chars_encode_utf8};
use crate::encoding::{ascii_chars, base62_digits, encode_base62, lemma_base62_u128};
use crate::grammar::{
    byte_order, bytes_equal, compare_bytes, find_separator, id_prefix, id_suffix,
    is_valid_identifier, is_valid_prefix_text, join_id, lemma_id_parts, lemma_join_valid, separator_index, valid_id,
    valid_prefix, SEPARATOR,
};

verus! {

/// Bytes below 128.
pub open spec fn all_ascii(b: Seq<u8>) -> bool {
    forall|i: int| 0 <= i < b.len() ==> #[trigger] b[i] < 128
}

/// Relies on `std::str::from_utf8`: ASCII bytes are valid UTF-8, so it returns
/// a `str` over the same bytes, one character per byte.
#[verifier::external_body]
pub(crate) fn ascii_str<'a>(b: &'a [u8]) -> (r: &'a str)
    requires
        all_ascii(b@),
    ensures
        r.spec_bytes() == b@,
        r@ == ascii_chars(b@),
{
    std::str::from_utf8(b).unwrap()
}

/// Relies on `getrandom::getrandom`: sixteen bytes from the system's secure
/// source, read as a big-endian `u128`, or the source's error.
#[verifier::external_body]
fn random_u128() -> (r: Result<u128, getrandom::Error>) {
    let mut b = [0u8; 16];
    getrandom::getrandom(&mut b)?;
    Ok(u128::from_be_bytes(b))
}

#[verifier::external_type_specification]
#[verifier::external_body]
pub struct ExRandomError(getrandom::Error);

/// The grammar, or the random source that generation draws from, refused.
#[derive(Debug, Clone, Copy, PartialEq, Eq, Structural)]
pub struct InvalidIdentifierError;

impl InvalidIdentifierError {
    /// The text of the error.
    pub fn message(&self) -> (r: &'static str)
        ensures
            r@ == "invalid identifier"@,
    {
        "invalid identifier"
    }
}

/// A short identifier `prefix_suffix`, held inline: byte 0 holds the length
/// and bytes `1..=len` the ASCII text; the rest is zero.
#[derive(Debug, Clone, Copy, Hash)]
pub struct Identifier {
    bytes: [u8; 32],
}

impl View for Identifier {
    type V = Seq<u8>;

    closed spec fn view(&self) -> Seq<u8> {
        self.bytes@.subrange(1, self.bytes@[0] as int + 1)
    }
}

/// Bytes `from..32` of `a` are zero.
pub open spec fn zero_from(a: Seq<u8>, from: int) -> bool {
    forall|i: int| from <= i < a.len() ==> a[i] == 0
}

/// Valid identifiers are ASCII.
proof fn lemma_valid_ascii(s: Seq<u8>)
    requires
        valid_id(s),
    ensures
        all_ascii(s),
{
    lemma_id_parts(s);
    let i = separator_index(s);
    assert forall|k: int| 0 <= k < s.len() implies #[trigger] s[k] < 128 by {
        if k < i {
            assert(s.take(i)[k] == s[k]);
        } else if k > i {
            assert(s.skip(i + 1)[k - i - 1] == s[k]);
        }
    }
}

/// Writes `src` into `buf` from index `at` on.
fn copy_into(buf: &mut [u8; 32], at: usize, src: &[u8])
    requires
        1 <= at,
        at + src@.len() <= 32,
    ensures
        final(buf)@.len() == 32,
        forall|i: int| 0 <= i < at ==> final(buf)@[i] == old(buf)@[i],
        final(buf)@.subrange(at as int, at + src@.len()) == src@,
        forall|i: int| at + src@.len() <= i < 32 ==> final(buf)@[i] == old(buf)@[i],
{
    let mut k: usize = 0;
    while k < src.len()
        invariant
            at + src@.len() <= 32,
            k <= src@.len(),
            buf@.len() == 32,
            forall|i: int| 0 <= i < at ==> buf@[i] == old(buf)@[i],
            forall|i: int| 0 <= i < k ==> buf@[at + i] == src@[i],
            forall|i: int| at + k <= i < 32 ==> buf@[i] == old(buf)@[i],
        decreases src@.len() - k,
    {
        buf[at + k] = src[k];
        k = k + 1;
    }
    assert(buf@.subrange(at as int, at + src@.len()) =~= src@);
}

impl Identifier {
    #[verifier::type_invariant]
    spec fn inv(self) -> bool {
        &&& self.bytes@[0] <= 31
        &&& valid_id(self@)
        &&& zero_from(self.bytes@, self.bytes@[0] as int + 1)
    }

    /// Builds the value of text `b`, which must be a valid identifier.
    fn pack(b: &[u8]) -> (r: Self)
        requires
            valid_id(b@),
        ensures
            r@ == b@,
    {
        proof {
            lemma_id_parts(b@);
        }
        let mut bytes = [0u8; 32];
        let n = b.len();
        bytes[0] = n as u8;
        copy_into(&mut bytes, 1, b);
        assert(bytes@.subrange(1, n + 1) == b@);
        Identifier { bytes }
    }

    /// Length of the text in bytes.
    pub fn len(&self) -> (r: usize)
        ensures
            r == self@.len(),
            3 <= r <= 31,
    {
        proof {
            use_type_invariant(self);
            lemma_id_parts(self@);
        }
        self.bytes[0] as usize
    }

    /// The text as bytes, without the length byte.
    pub fn as_bytes(&self) -> (r: &[u8])
        ensures
            r@ == self@,
            valid_id(self@),
    {
        proof {
            use_type_invariant(self);
        }
        let n = self.bytes[0] as usize;
        self.bytes.as_slice().split_at(n + 1).0.split_at(1).1
    }

    /// The text.
    pub fn as_str(&self) -> (r: &str)
        ensures
            r.spec_bytes() == self@,
            r@ == ascii_chars(self@),
            valid_id(self@),
    {
        proof {
            use_type_invariant(self);
            lemma_valid_ascii(self@);
        }
        ascii_str(self.as_bytes())
    }

    /// Parses `bytes`: `Ok` exactly when they are a valid identifier.
    pub fn from_bytes(bytes: &[u8]) -> (r: Result<Self, InvalidIdentifierError>)
        ensures
            r is Ok <==> valid_id(bytes@),
            r matches Ok(id) ==> id@ == bytes@,
    {
        if bytes.len() > 31 {
            proof {
                if valid_id(bytes@) {
                    lemma_id_parts(bytes@);
                }
            }
            return Err(InvalidIdentifierError);
        }
        if !is_valid_identifier(bytes) {
            return Err(InvalidIdentifierError);
        }
        Ok(Self::pack(bytes))
    }

    /// Parses the text `s`: `Ok` exactly when it is a valid identifier.
    pub fn from_str(s: &str) -> (r: Result<Self, InvalidIdentifierError>)
        ensures
            r is Ok <==> valid_id(s.spec_bytes()),
            r matches Ok(id) ==> id@ == s.spec_bytes(),
    {
        Self::from_bytes(s.as_bytes())
    }

    /// Builds the value of `bytes` without a check: the caller vouches that
    /// they are a valid identifier.
    pub fn from_bytes_unchecked(bytes: &[u8]) -> (r: Self)
        requires
            valid_id(bytes@),
        ensures
            r@ == bytes@,
    {
        Self::pack(bytes)
    }

    /// Builds the value of `s` without a check: the caller vouches that it is
    /// a valid identifier.
    pub fn from_str_unchecked(s: &str) -> (r: Self)
        requires
            valid_id(s.spec_bytes()),
        ensures
            r@ == s.spec_bytes(),
    {
        Self::pack(s.as_bytes())
    }

    /// The part before the separator.
    pub fn prefix(&self) -> (r: &str)
        ensures
            r.spec_bytes() == id_prefix(self@),
    {
        proof {
            use_type_invariant(self);
            lemma_id_parts(self@);
            lemma_valid_ascii(self@);
        }
        let b = self.as_bytes();
        let i = match find_separator(b) {
            Some(i) => i,
            None => 0,
        };
        proof {
            let k = separator_index(self@);
            assert(b@[k] == SEPARATOR);
            if i < k {
                assert(self@.take(k)[i as int] == self@[i as int]);
            }
        }
        let p = b.split_at(i).0;
        assert(p@ =~= self@.take(i as int));
        ascii_str(p)
    }

    /// The part after the separator.
    pub fn suffix(&self) -> (r: &str)
        ensures
            r.spec_bytes() == id_suffix(self@),
    {
        proof {
            use_type_invariant(self);
            lemma_id_parts(self@);
            lemma_valid_ascii(self@);
        }
        let b = self.as_bytes();
        let i = match find_separator(b) {
            Some(i) => i,
            None => 0,
        };
        proof {
            let k = separator_index(self@);
            assert(b@[k] == SEPARATOR);
            if i < k {
                assert(self@.take(k)[i as int] == self@[i as int]);
            }
        }
        let s = b.split_at(i + 1).1;
        assert(s@ =~= self@.skip(i + 1));
        ascii_str(s)
    }

    /// Builds `prefix_digits`, where `digits` is `n` in base62: `Ok` exactly
    /// when `prefix` is a valid prefix.
    pub fn generate_from(prefix: &str, n: u128) -> (r: Result<Self, InvalidIdentifierError>)
        ensures
            r is Ok <==> valid_prefix(prefix.spec_bytes()),
            r matches Ok(id) ==> id@ == join_id(prefix.spec_bytes(), base62_digits(n as nat)),
    {
        let p = prefix.as_bytes();
        if !is_valid_prefix_text(p) {
            return Err(InvalidIdentifierError);
        }
        let encoded = encode_base62(n);
        let text = encoded.as_str();
        let d = text.as_bytes();
        proof {
            lemma_base62_u128(n);
            let digits = base62_digits(n as nat);
            assert(is_ascii_chars(text@));
            is_ascii_chars_encode_utf8(text@);
            assert forall|i: int| 0 <= i < digits.len() implies d@[i] == digits[i] by {
                assert(text@[i] == digits[i] as char);
            }
            assert(d@ =~= digits);
        }
        let mut bytes = [0u8; 32];
        let pn = p.len();
        bytes[0] = (pn + 1 + d.len()) as u8;
        copy_into(&mut bytes, 1, p);
        bytes[pn + 1] = SEPARATOR;
        copy_into(&mut bytes, pn + 2, d);
        proof {
            lemma_join_valid(p@, d@);
            let j = join_id(p@, d@);
            let v = bytes@.subrange(1, bytes@[0] as int + 1);
            assert forall|i: int| 0 <= i < j.len() implies v[i] == j[i] by {
                if i < pn {
                    assert(bytes@.subrange(1, 1 + pn)[i] == p@[i]);
                } else if i > pn {
                    assert(bytes@.subrange(pn + 2, pn + 2 + d@.len())[i - pn - 1] == d@[i - pn - 1]);
                }
            }
            assert(v =~= j);
        }
        Ok(Identifier { bytes })
    }

    /// A new identifier with the given prefix and a random suffix: 128 bits
    /// from the system's secure source, in base62. `Err` when `prefix` is not a
    /// valid prefix, or when the source fails.
    pub fn generate(prefix: &str) -> (r: Result<Self, InvalidIdentifierError>)
        ensures
            !valid_prefix(prefix.spec_bytes()) ==> r is Err,
            r matches Ok(id) ==> exists|n: u128|
                id@ == join_id(prefix.spec_bytes(), base62_digits(n as nat)),
    {
        if !is_valid_prefix_text(prefix.as_bytes()) {
            return Err(InvalidIdentifierError);
        }
        match random_u128() {
            Ok(n) => Self::generate_from(prefix, n),
            Err(_) => Err(InvalidIdentifierError),
        }
    }
}

impl PartialEq for Identifier {
    fn eq(&self, other: &Identifier) -> (r: bool) {
        bytes_equal(self.as_bytes(), other.as_bytes())
    }
}

impl vstd::std_specs::cmp::PartialEqSpecImpl for Identifier {
    open spec fn obeys_eq_spec() -> bool {
        true
    }

    open spec fn eq_spec(&self, other: &Identifier) -> bool {
        self@ == other@
    }
}

impl Eq for Identifier {
}

impl PartialEq<str> for Identifier {
    fn eq(&self, other: &str) -> (r: bool) {
        bytes_equal(self.as_bytes(), other.as_bytes())
    }
}

impl vstd::std_specs::cmp::PartialEqSpecImpl<str> for Identifier {
    open spec fn obeys_eq_spec() -> bool {
        true
    }

    open spec fn eq_spec(&self, other: &str) -> bool {
        self@ == other.spec_bytes()
    }
}

impl<'a> PartialEq<&'a str> for Identifier {
    fn eq(&self, other: &&'a str) -> (r: bool) {
        bytes_equal(self.as_bytes(), (*other).as_bytes())
    }
}

impl<'a> vstd::std_specs::cmp::PartialEqSpecImpl<&'a str> for Identifier {
    open spec fn obeys_eq_spec() -> bool {
        true
    }

    open spec fn eq_spec(&self, other: &&'a str) -> bool {
        self@ == (*other).spec_bytes()
    }
}

impl PartialEq<String> for Identifier {
    fn eq(&self, other: &String) -> (r: bool) {
        bytes_equal(self.as_bytes(), other.as_str().as_bytes())
    }
}

impl vstd::std_specs::cmp::PartialEqSpecImpl<String> for Identifier {
    open spec fn obeys_eq_spec() -> bool {
        true
    }

    open spec fn eq_spec(&self, other: &String) -> bool {
        self@ == encode_utf8(other@)
    }
}

impl PartialOrd for Identifier {
    fn partial_cmp(&self, other: &Identifier) -> (r: Option<core::cmp::Ordering>) {
        Some(compare_bytes(self.as_bytes(), other.as_bytes()))
    }
}

impl vstd::std_specs::cmp::PartialOrdSpecImpl for Identifier {
    open spec fn obeys_partial_cmp_spec() -> bool {
        true
    }

    open spec fn partial_cmp_spec(&self, other: &Identifier) -> Option<core::cmp::Ordering> {
        Some(byte_order(self@, other@))
    }
}

impl core::str::FromStr for Identifier {
    type Err = InvalidIdentifierError;

    fn from_str(s: &str) -> Result<Self, InvalidIdentifierError> {
        Identifier::from_str(s)
    }
}

impl AsRef<str> for Identifier {
    fn as_ref(&self) -> &str {
        self.as_str()
    }
}

} // verus!
