use vstd::prelude::*;
use vstd::string::StringSliceAdditionalSpecFns;
use crate::encoding::{ascii_chars, base62_digits};
use crate::grammar::{
    byte_order, bytes_equal, compare_bytes, find_separator, id_prefix, join_id, lemma_id_parts,
    separator_index, valid_id, valid_prefix, SEPARATOR,
};
use crate::identifier::{Identifier, InvalidIdentifierError};

verus! {

/// One kind of typed identifier: a name and an ordered, non-empty list of the
/// prefixes that its identifiers may carry. The first is the one that
/// generation uses.
pub trait IdKind {
    /// The allowed prefixes, as bytes, in order.
    spec fn prefix_set() -> Seq<Seq<u8>>;

    /// The allowed prefixes, in order.
    fn prefixes() -> (r: Vec<&'static str>)
        ensures
            r@.len() == Self::prefix_set().len(),
            r@.len() >= 1,
            forall|i: int| 0 <= i < r@.len() ==> #[trigger] r@[i].spec_bytes() == Self::prefix_set()[i];

    /// The name of the identifier type, for error messages.
    fn name() -> &'static str;

    /// What a mismatched prefix is told, as in `expected id to start with "cus_"`.
    fn expectation() -> &'static str;
}

/// `b` starts with `p` followed by the separator.
pub open spec fn has_prefix_sep(b: Seq<u8>, p: Seq<u8>) -> bool {
    &&& p.len() < b.len()
    &&& b.take(p.len() as int) == p
    &&& b[p.len() as int] == SEPARATOR
}

/// `b` starts with one of `set`, followed by the separator.
pub open spec fn starts_with_any(b: Seq<u8>, set: Seq<Seq<u8>>) -> bool {
    exists|i: int| 0 <= i < set.len() && has_prefix_sep(b, #[trigger] set[i])
}

/// The bytes of `b` before its first separator, or all of `b` if it has none.
pub open spec fn first_segment(b: Seq<u8>) -> Seq<u8> {
    if exists|i: int| 0 <= i < b.len() && b[i] == SEPARATOR {
        b.take(choose|i: int| 0 <= i < b.len() && b[i] == SEPARATOR && forall|k: int|
            0 <= k < i ==> b[k] != SEPARATOR)
    } else {
        b
    }
}

/// The first separator of `b` is at `i`, so its first segment ends there.
pub proof fn lemma_first_segment_at(b: Seq<u8>, i: int)
    requires
        0 <= i < b.len(),
        b[i] == SEPARATOR,
        forall|k: int| 0 <= k < i ==> b[k] != SEPARATOR,
    ensures
        first_segment(b) == b.take(i),
{
    let j = choose|j: int| 0 <= j < b.len() && b[j] == SEPARATOR && forall|k: int|
        0 <= k < j ==> b[k] != SEPARATOR;
    assert(0 <= j < b.len() && b[j] == SEPARATOR && forall|k: int| 0 <= k < j ==> b[k] != SEPARATOR);
    if j < i {
        assert(b[j] != SEPARATOR);
    } else if i < j {
        assert(b[i] != SEPARATOR);
    }
}

/// In a valid identifier the first segment is the prefix.
pub proof fn lemma_first_segment_prefix(b: Seq<u8>)
    requires
        valid_id(b),
    ensures
        first_segment(b) == id_prefix(b),
{
    lemma_id_parts(b);
    let i = separator_index(b);
    assert forall|k: int| 0 <= k < i implies b[k] != SEPARATOR by {
        assert(b.take(i)[k] == b[k]);
    }
    lemma_first_segment_at(b, i);
}

/// A valid identifier that starts with `p` and the separator has prefix `p`.
pub proof fn lemma_prefix_sep_is_prefix(b: Seq<u8>, p: Seq<u8>)
    requires
        valid_id(b),
        has_prefix_sep(b, p),
    ensures
        id_prefix(b) == p,
{
    lemma_id_parts(b);
    let i = separator_index(b);
    let n = p.len() as int;
    if n < i {
        assert(b.take(i)[n] == b[n]);
    } else if i < n {
        assert(b.skip(i + 1)[n - i - 1] == b[n]);
    }
}

/// Whether `b` starts with `p` and the separator.
fn starts_with_prefix(b: &[u8], p: &[u8]) -> (r: bool)
    ensures
        r == has_prefix_sep(b@, p@),
{
    if p.len() >= b.len() {
        return false;
    }
    let head = b.split_at(p.len()).0;
    bytes_equal(head, p) && b[p.len()] == SEPARATOR
}

/// Whether `p` is one of the prefixes of `K`.
fn in_prefix_set<K: IdKind>(p: &[u8]) -> (r: bool)
    ensures
        r == K::prefix_set().contains(p@),
{
    let v = K::prefixes();
    let mut i: usize = 0;
    while i < v.len()
        invariant
            v@.len() == K::prefix_set().len(),
            i <= v@.len(),
            forall|j: int| 0 <= j < v@.len() ==> #[trigger] v@[j].spec_bytes() == K::prefix_set()[j],
            forall|j: int| 0 <= j < i ==> K::prefix_set()[j] != p@,
        decreases v@.len() - i,
    {
        if bytes_equal(v[i].as_bytes(), p) {
            assert(K::prefix_set()[i as int] == p@);
            return true;
        }
        i = i + 1;
    }
    false
}

/// Whether `b` starts with one of the prefixes of `K` and the separator.
fn starts_with_kind<K: IdKind>(b: &[u8]) -> (r: bool)
    ensures
        r == starts_with_any(b@, K::prefix_set()),
{
    let v = K::prefixes();
    let mut i: usize = 0;
    while i < v.len()
        invariant
            v@.len() == K::prefix_set().len(),
            i <= v@.len(),
            forall|j: int| 0 <= j < v@.len() ==> #[trigger] v@[j].spec_bytes() == K::prefix_set()[j],
            forall|j: int| 0 <= j < i ==> !has_prefix_sep(b@, #[trigger] K::prefix_set()[j]),
        decreases v@.len() - i,
    {
        if starts_with_prefix(b, v[i].as_bytes()) {
            assert(has_prefix_sep(b@, K::prefix_set()[i as int]));
            return true;
        }
        i = i + 1;
    }
    false
}

/// The bytes of `b` before its first separator, or all of `b`.
pub fn split_first_segment(b: &[u8]) -> (r: &[u8])
    ensures
        r@ == first_segment(b@),
{
    match find_separator(b) {
        Some(i) => {
            proof {
                lemma_first_segment_at(b@, i as int);
            }
            b.split_at(i).0
        },
        None => b,
    }
}

/// Why a typed parse failed.
#[derive(Debug, Clone, Copy, PartialEq, Eq, Structural)]
pub enum ParseIdErrorKind {
    /// The text does not start with any prefix that the type allows.
    PrefixMismatch,
    /// The prefix is allowed but the text breaks the identifier grammar.
    Malformed,
    /// No variant of a sum type takes the text's prefix, or it has none.
    UnknownPrefix,
}

/// A typed parse failed: the type's name, why, and what was expected.
#[derive(Debug, Clone, Copy)]
pub struct ParseIdError {
    pub typename: &'static str,
    pub kind: ParseIdErrorKind,
    pub expected: &'static str,
}

/// Relies on `std::format!`: the message is the pieces in this order.
#[verifier::external_body]
fn error_text(typename: &str, expected: &str) -> (r: String)
    ensures
        r@ == "invalid `"@ + typename@ + "`, "@ + expected@,
{
    format!("invalid `{}`, {}", typename, expected)
}

impl ParseIdError {
    /// The message: ``invalid `TypeName`, `` then what was expected.
    pub fn message(&self) -> (r: String)
        ensures
            r@ == "invalid `"@ + self.typename@ + "`, "@ + self.expected@,
    {
        error_text(self.typename, self.expected)
    }
}

/// An identifier whose prefix is one of those of `K`.
#[derive(Debug)]
pub struct TypedId<K: IdKind> {
    id: Identifier,
    kind: core::marker::PhantomData<K>,
}

impl<K: IdKind> Clone for TypedId<K> {
    fn clone(&self) -> (r: Self)
        ensures
            r@ == self@,
    {
        proof {
            use_type_invariant(self);
        }
        TypedId { id: self.id, kind: core::marker::PhantomData }
    }
}

impl<K: IdKind> Copy for TypedId<K> {
}

impl<K: IdKind> View for TypedId<K> {
    type V = Seq<u8>;

    closed spec fn view(&self) -> Seq<u8> {
        self.id@
    }
}

impl<K: IdKind> TypedId<K> {
    #[verifier::type_invariant]
    spec fn inv(self) -> bool {
        K::prefix_set().contains(id_prefix(self.id@))
    }

    /// Wraps `id`, whose prefix must be one of those of `K`.
    fn wrap(id: Identifier) -> (r: Self)
        requires
            K::prefix_set().contains(id_prefix(id@)),
        ensures
            r@ == id@,
    {
        TypedId { id, kind: core::marker::PhantomData }
    }

    /// The allowed prefixes, in order.
    pub fn prefixes() -> (r: Vec<&'static str>)
        ensures
            r@.len() == K::prefix_set().len(),
            forall|i: int| 0 <= i < r@.len() ==> #[trigger] r@[i].spec_bytes() == K::prefix_set()[i],
    {
        K::prefixes()
    }

    /// The prefix that generation uses: the first allowed one.
    pub fn default_prefix() -> (r: &'static str)
        ensures
            K::prefix_set().len() >= 1,
            r.spec_bytes() == K::prefix_set()[0],
    {
        let v = K::prefixes();
        v[0]
    }

    /// Whether `prefix` is exactly one of the allowed prefixes.
    pub fn is_valid_prefix(prefix: &str) -> (r: bool)
        ensures
            r == K::prefix_set().contains(prefix.spec_bytes()),
    {
        in_prefix_set::<K>(prefix.as_bytes())
    }

    /// Whether `prefix` is exactly one of the allowed prefixes.
    pub fn is_valid_prefix_bytes(prefix: &[u8]) -> (r: bool)
        ensures
            r == K::prefix_set().contains(prefix@),
    {
        in_prefix_set::<K>(prefix)
    }

    /// The identifier inside.
    pub fn inner(&self) -> (r: &Identifier)
        ensures
            r@ == self@,
            K::prefix_set().contains(id_prefix(self@)),
    {
        proof {
            use_type_invariant(self);
        }
        &self.id
    }

    /// The text.
    pub fn as_str(&self) -> (r: &str)
        ensures
            r.spec_bytes() == self@,
            r@ == ascii_chars(self@),
    {
        self.id.as_str()
    }

    /// The text as bytes.
    pub fn as_bytes(&self) -> (r: &[u8])
        ensures
            r@ == self@,
            valid_id(self@),
    {
        self.id.as_bytes()
    }

    /// The part before the separator, one of the allowed prefixes.
    pub fn prefix(&self) -> (r: &str)
        ensures
            r.spec_bytes() == id_prefix(self@),
            K::prefix_set().contains(r.spec_bytes()),
    {
        proof {
            use_type_invariant(self);
        }
        self.id.prefix()
    }

    /// Parses `bytes`: `Ok` exactly when they are a valid identifier whose
    /// prefix is one of the allowed ones. The prefix is checked first.
    pub fn from_bytes(bytes: &[u8]) -> (r: Result<Self, InvalidIdentifierError>)
        ensures
            r is Ok <==> valid_id(bytes@) && K::prefix_set().contains(first_segment(bytes@)),
            r matches Ok(id) ==> id@ == bytes@,
    {
        let prefix = split_first_segment(bytes);
        if !in_prefix_set::<K>(prefix) {
            return Err(InvalidIdentifierError);
        }
        match Identifier::from_bytes(bytes) {
            Ok(id) => {
                proof {
                    lemma_first_segment_prefix(bytes@);
                }
                Ok(Self::wrap(id))
            },
            Err(e) => Err(e),
        }
    }

    /// Parses the text `s`. It must start with an allowed prefix and the
    /// separator, else the error is a prefix mismatch; then it must be a
    /// valid identifier, else the error is malformed.
    pub fn from_str(s: &str) -> (r: Result<Self, ParseIdError>)
        ensures
            r is Ok <==> starts_with_any(s.spec_bytes(), K::prefix_set()) && valid_id(
                s.spec_bytes(),
            ),
            r matches Ok(id) ==> id@ == s.spec_bytes(),
            r matches Err(e) ==> e.kind == (if starts_with_any(s.spec_bytes(), K::prefix_set()) {
                ParseIdErrorKind::Malformed
            } else {
                ParseIdErrorKind::PrefixMismatch
            }),
    {
        let b = s.as_bytes();
        if !starts_with_kind::<K>(b) {
            return Err(
                ParseIdError {
                    typename: K::name(),
                    kind: ParseIdErrorKind::PrefixMismatch,
                    expected: K::expectation(),
                },
            );
        }
        match Identifier::from_bytes(b) {
            Ok(id) => {
                proof {
                    let set = K::prefix_set();
                    let i = choose|i: int| 0 <= i < set.len() && has_prefix_sep(b@, #[trigger] set[i]);
                    lemma_prefix_sep_is_prefix(b@, set[i]);
                    assert(set.contains(id_prefix(b@)));
                }
                Ok(Self::wrap(id))
            },
            Err(_) => Err(
                ParseIdError {
                    typename: K::name(),
                    kind: ParseIdErrorKind::Malformed,
                    expected: "invalid identifier",
                },
            ),
        }
    }

    /// Builds `p_digits` from the default prefix `p` and `n` in base62.
    /// `Ok` exactly when the default prefix is a valid prefix.
    pub fn generate_from(n: u128) -> (r: Result<Self, InvalidIdentifierError>)
        ensures
            r is Ok <==> valid_prefix(K::prefix_set()[0]),
            r matches Ok(id) ==> id@ == join_id(K::prefix_set()[0], base62_digits(n as nat)),
    {
        let p = Self::default_prefix();
        match Identifier::generate_from(p, n) {
            Ok(id) => {
                proof {
                    crate::encoding::lemma_base62_u128(n);
                    crate::grammar::lemma_join_valid(p.spec_bytes(), base62_digits(n as nat));
                    assert(K::prefix_set().contains(id_prefix(id@))) by {
                        assert(K::prefix_set()[0] == id_prefix(id@));
                    }
                }
                Ok(Self::wrap(id))
            },
            Err(e) => Err(e),
        }
    }

    /// A new identifier with the default prefix and a random suffix.
    pub fn generate() -> (r: Result<Self, InvalidIdentifierError>)
        ensures
            !valid_prefix(K::prefix_set()[0]) ==> r is Err,
            r matches Ok(id) ==> exists|n: u128|
                id@ == join_id(K::prefix_set()[0], base62_digits(n as nat)),
    {
        let p = Self::default_prefix();
        match Identifier::generate(p) {
            Ok(id) => {
                proof {
                    let n = choose|n: u128| id@ == join_id(p.spec_bytes(), base62_digits(n as nat));
                    crate::encoding::lemma_base62_u128(n);
                    if valid_prefix(p.spec_bytes()) {
                        crate::grammar::lemma_join_valid(p.spec_bytes(), base62_digits(n as nat));
                    }
                    assert(K::prefix_set().contains(id_prefix(id@))) by {
                        assert(K::prefix_set()[0] == id_prefix(id@));
                    }
                }
                Ok(Self::wrap(id))
            },
            Err(e) => Err(e),
        }
    }
}

impl<K: IdKind> PartialEq for TypedId<K> {
    fn eq(&self, other: &TypedId<K>) -> (r: bool) {
        bytes_equal(self.as_bytes(), other.as_bytes())
    }
}

impl<K: IdKind> vstd::std_specs::cmp::PartialEqSpecImpl for TypedId<K> {
    open spec fn obeys_eq_spec() -> bool {
        true
    }

    open spec fn eq_spec(&self, other: &TypedId<K>) -> bool {
        self@ == other@
    }
}

impl<K: IdKind> Eq for TypedId<K> {
}

impl<'a, K: IdKind> PartialEq<&'a str> for TypedId<K> {
    fn eq(&self, other: &&'a str) -> (r: bool) {
        bytes_equal(self.as_bytes(), (*other).as_bytes())
    }
}

impl<'a, K: IdKind> vstd::std_specs::cmp::PartialEqSpecImpl<&'a str> for TypedId<K> {
    open spec fn obeys_eq_spec() -> bool {
        true
    }

    open spec fn eq_spec(&self, other: &&'a str) -> bool {
        self@ == (*other).spec_bytes()
    }
}

impl<K: IdKind> PartialOrd for TypedId<K> {
    fn partial_cmp(&self, other: &TypedId<K>) -> (r: Option<core::cmp::Ordering>) {
        Some(compare_bytes(self.as_bytes(), other.as_bytes()))
    }
}

impl<K: IdKind> vstd::std_specs::cmp::PartialOrdSpecImpl for TypedId<K> {
    open spec fn obeys_partial_cmp_spec() -> bool {
        true
    }

    open spec fn partial_cmp_spec(&self, other: &TypedId<K>) -> Option<core::cmp::Ordering> {
        Some(byte_order(self@, other@))
    }
}

impl<K: IdKind> core::str::FromStr for TypedId<K> {
    type Err = ParseIdError;

    fn from_str(s: &str) -> Result<Self, ParseIdError> {
        TypedId::<K>::from_str(s)
    }
}

} // verus!
