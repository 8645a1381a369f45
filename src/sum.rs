use vstd::prelude::*;
use vstd::string::StringSliceAdditionalSpecFns;
use crate::encoding::ascii_chars;
use crate::grammar::{bytes_equal, find_separator, id_prefix, valid_id, SEPARATOR};
use crate::identifier::{Identifier, InvalidIdentifierError};
use crate::typed::{
    first_segment, lemma_first_segment_prefix, split_first_segment, IdKind, ParseIdError,
    ParseIdErrorKind, TypedId,
};

verus! {

/// A closed set of typed identifier kinds, tried in order: the first whose
/// prefixes hold an identifier's prefix takes it.
pub trait SumKind {
    /// The prefix sets of the variants, in order.
    spec fn variant_sets() -> Seq<Seq<Seq<u8>>>;

    /// The prefix sets of the variants, in order.
    fn variants() -> (r: Vec<Vec<&'static str>>)
        ensures
            r@.len() == Self::variant_sets().len(),
            forall|i: int| 0 <= i < r@.len() ==> #[trigger] r@[i]@.len() == Self::variant_sets()[i].len(),
            forall|i: int, j: int| 0 <= i < r@.len() && 0 <= j < r@[i]@.len()
                ==> #[trigger] r@[i]@[j].spec_bytes() == Self::variant_sets()[i][j];

    /// The name of the sum type, for error messages.
    fn name() -> &'static str;
}

/// `i` is the first variant whose prefixes hold `p`.
pub open spec fn first_variant(sets: Seq<Seq<Seq<u8>>>, p: Seq<u8>, i: int) -> bool {
    &&& 0 <= i < sets.len()
    &&& sets[i].contains(p)
    &&& forall|j: int| 0 <= j < i ==> !(#[trigger] sets[j]).contains(p)
}

/// Some variant's prefixes hold `p`.
pub open spec fn some_variant(sets: Seq<Seq<Seq<u8>>>, p: Seq<u8>) -> bool {
    exists|i: int| 0 <= i < sets.len() && (#[trigger] sets[i]).contains(p)
}

/// The first variant whose prefixes hold `p`, if any.
pub fn dispatch<S: SumKind>(p: &[u8]) -> (r: Option<usize>)
    ensures
        match r {
            Some(i) => first_variant(S::variant_sets(), p@, i as int),
            None => !some_variant(S::variant_sets(), p@),
        },
{
    let v = S::variants();
    let ghost sets = S::variant_sets();
    let mut i: usize = 0;
    while i < v.len()
        invariant
            v@.len() == sets.len(),
            sets == S::variant_sets(),
            i <= v@.len(),
            forall|a: int| 0 <= a < v@.len() ==> #[trigger] v@[a]@.len() == sets[a].len(),
            forall|a: int, b: int| 0 <= a < v@.len() && 0 <= b < v@[a]@.len()
                ==> #[trigger] v@[a]@[b].spec_bytes() == sets[a][b],
            forall|j: int| 0 <= j < i ==> !(#[trigger] sets[j]).contains(p@),
        decreases v@.len() - i,
    {
        let set = &v[i];
        let mut k: usize = 0;
        while k < set.len()
            invariant
                i < v@.len(),
                v@.len() == sets.len(),
                sets == S::variant_sets(),
                forall|j: int| 0 <= j < i ==> !(#[trigger] sets[j]).contains(p@),
                *set == v@[i as int],
                set@.len() == sets[i as int].len(),
                forall|b: int| 0 <= b < set@.len() ==> #[trigger] set@[b].spec_bytes() == sets[i as int][b],
                k <= set@.len(),
                forall|b: int| 0 <= b < k ==> sets[i as int][b] != p@,
            decreases set@.len() - k,
        {
            if bytes_equal(set[k].as_bytes(), p) {
                assert(sets[i as int][k as int] == p@);
                assert(sets[i as int].contains(p@));
                return Some(i);
            }
            k = k + 1;
        }
        assert(!sets[i as int].contains(p@));
        i = i + 1;
    }
    None
}

/// An identifier of one of the variants of `S`, with the index of the
/// variant that holds it.
#[derive(Debug)]
pub struct SumId<S: SumKind> {
    variant: usize,
    id: Identifier,
    kind: core::marker::PhantomData<S>,
}

impl<S: SumKind> View for SumId<S> {
    type V = Seq<u8>;

    closed spec fn view(&self) -> Seq<u8> {
        self.id@
    }
}

impl<S: SumKind> SumId<S> {
    #[verifier::type_invariant]
    spec fn inv(self) -> bool {
        first_variant(S::variant_sets(), id_prefix(self.id@), self.variant as int)
    }

    /// The variant that holds the identifier.
    pub closed spec fn spec_variant(&self) -> int {
        self.variant as int
    }

    /// Index of the variant that holds the identifier.
    pub fn variant(&self) -> (r: usize)
        ensures
            r == self.spec_variant(),
            first_variant(S::variant_sets(), id_prefix(self@), r as int),
    {
        proof {
            use_type_invariant(self);
        }
        self.variant
    }

    /// The identifier inside.
    pub fn inner(&self) -> (r: &Identifier)
        ensures
            r@ == self@,
    {
        &self.id
    }

    /// The text.
    pub fn as_str(&self) -> (r: &str)
        ensures
            r.spec_bytes() == self@,
            r@ == ascii_chars(self@),
    {
        self.id.as_str()
    }

    /// The text as bytes.
    pub fn as_bytes(&self) -> (r: &[u8])
        ensures
            r@ == self@,
            valid_id(self@),
    {
        self.id.as_bytes()
    }

    /// Parses `bytes`: the segment before the first separator picks the
    /// first variant that allows it; `Ok` exactly when one does and the bytes
    /// are a valid identifier.
    pub fn from_bytes(bytes: &[u8]) -> (r: Result<Self, InvalidIdentifierError>)
        ensures
            r is Ok <==> valid_id(bytes@) && some_variant(S::variant_sets(), first_segment(bytes@)),
            r matches Ok(v) ==> v@ == bytes@ && first_variant(
                S::variant_sets(),
                first_segment(bytes@),
                v.spec_variant(),
            ),
    {
        let prefix = split_first_segment(bytes);
        let i = match dispatch::<S>(prefix) {
            Some(i) => i,
            None => {
                return Err(InvalidIdentifierError);
            },
        };
        match Identifier::from_bytes(bytes) {
            Ok(id) => {
                proof {
                    lemma_first_segment_prefix(bytes@);
                }
                Ok(SumId { variant: i, id, kind: core::marker::PhantomData })
            },
            Err(e) => Err(e),
        }
    }

    /// Parses the text `s`. Without a separator, or when no variant allows
    /// the segment before it, the error is an unknown prefix; otherwise the
    /// first variant that allows it takes the text, and the error is
    /// malformed when it is not a valid identifier.
    pub fn from_str(s: &str) -> (r: Result<Self, ParseIdError>)
        ensures
            ({
                let b = s.spec_bytes();
                let known = (exists|k: int| 0 <= k < b.len() && b[k] == SEPARATOR)
                    && some_variant(S::variant_sets(), first_segment(b));
                &&& r is Ok <==> known && valid_id(b)
                &&& r matches Ok(v) ==> v@ == b && first_variant(
                    S::variant_sets(),
                    first_segment(b),
                    v.spec_variant(),
                )
                &&& r matches Err(e) ==> e.kind == (if known {
                    ParseIdErrorKind::Malformed
                } else {
                    ParseIdErrorKind::UnknownPrefix
                })
            }),
    {
        let b = s.as_bytes();
        if find_separator(b).is_none() {
            return Err(
                ParseIdError {
                    typename: S::name(),
                    kind: ParseIdErrorKind::UnknownPrefix,
                    expected: "id to start with a prefix (as in 'prefix_')",
                },
            );
        }
        let prefix = split_first_segment(b);
        let i = match dispatch::<S>(prefix) {
            Some(i) => i,
            None => {
                return Err(
                    ParseIdError {
                        typename: S::name(),
                        kind: ParseIdErrorKind::UnknownPrefix,
                        expected: "unknown id prefix",
                    },
                );
            },
        };
        match Identifier::from_bytes(b) {
            Ok(id) => {
                proof {
                    lemma_first_segment_prefix(b@);
                }
                Ok(SumId { variant: i, id, kind: core::marker::PhantomData })
            },
            Err(_) => Err(
                ParseIdError {
                    typename: S::name(),
                    kind: ParseIdErrorKind::Malformed,
                    expected: "invalid identifier",
                },
            ),
        }
    }

    /// The sum value that holds `id`: the first variant whose prefixes hold
    /// its prefix, if any does.
    pub fn from_typed<K: IdKind>(id: TypedId<K>) -> (r: Option<Self>)
        ensures
            r is Some <==> some_variant(S::variant_sets(), id_prefix(id@)),
            r matches Some(v) ==> v@ == id@ && first_variant(
                S::variant_sets(),
                id_prefix(id@),
                v.spec_variant(),
            ),
    {
        let inner = *id.inner();
        let b = inner.as_bytes();
        proof {
            lemma_first_segment_prefix(b@);
        }
        let prefix = split_first_segment(b);
        match dispatch::<S>(prefix) {
            Some(i) => Some(SumId { variant: i, id: inner, kind: core::marker::PhantomData }),
            None => None,
        }
    }
}

impl<S: SumKind> Clone for SumId<S> {
    fn clone(&self) -> (r: Self)
        ensures
            r@ == self@,
            r.spec_variant() == self.spec_variant(),
    {
        proof {
            use_type_invariant(self);
        }
        SumId { variant: self.variant, id: self.id, kind: core::marker::PhantomData }
    }
}

impl<S: SumKind> PartialEq for SumId<S> {
    fn eq(&self, other: &SumId<S>) -> (r: bool) {
        bytes_equal(self.as_bytes(), other.as_bytes())
    }
}

impl<S: SumKind> vstd::std_specs::cmp::PartialEqSpecImpl for SumId<S> {
    open spec fn obeys_eq_spec() -> bool {
        true
    }

    open spec fn eq_spec(&self, other: &SumId<S>) -> bool {
        self@ == other@
    }
}

impl<S: SumKind> Eq for SumId<S> {
}

impl<'a, S: SumKind> PartialEq<&'a str> for SumId<S> {
    fn eq(&self, other: &&'a str) -> (r: bool) {
        bytes_equal(self.as_bytes(), (*other).as_bytes())
    }
}

impl<'a, S: SumKind> vstd::std_specs::cmp::PartialEqSpecImpl<&'a str> for SumId<S> {
    open spec fn obeys_eq_spec() -> bool {
        true
    }

    open spec fn eq_spec(&self, other: &&'a str) -> bool {
        self@ == (*other).spec_bytes()
    }
}

impl<S: SumKind, K: IdKind> PartialEq<TypedId<K>> for SumId<S> {
    fn eq(&self, other: &TypedId<K>) -> (r: bool) {
        bytes_equal(self.as_bytes(), other.as_bytes())
    }
}

impl<S: SumKind, K: IdKind> vstd::std_specs::cmp::PartialEqSpecImpl<TypedId<K>> for SumId<S> {
    open spec fn obeys_eq_spec() -> bool {
        true
    }

    open spec fn eq_spec(&self, other: &TypedId<K>) -> bool {
        self@ == other@
    }
}

impl<S: SumKind> core::str::FromStr for SumId<S> {
    type Err = ParseIdError;

    fn from_str(s: &str) -> Result<Self, ParseIdError> {
        SumId::<S>::from_str(s)
    }
}

} // verus!
